//! Building a response from a decoded request and the loaded metadata, and
//! encoding it behind its length prefix.

use vstd::prelude::*;

use crate::error::Error;
use crate::fetch::{
    spec_enc_fetch_response, FetchPartitionResponse, FetchResponse, FetchResponseView,
    FetchPartitionResponseView, AbortedTransaction, FetchTopic, FetchTopicView,
};
use crate::meta::{BatchView, Log, Meta, PartitionRecordValue, PartitionRecordView};
use crate::partition::{
    EligibleLeaderReplicas, ISRNode, LastKnownELR, OfflineReplica, Partition, PartitionIndex,
    PartitionView, ReplicaNode,
};
use crate::pb::{
    len_plus_one, sat_u32, spec_enc_u16, spec_enc_u32, spec_enc_varint, spec_len1, spec_sat_u32,
    VarInt,
};
use crate::request::{Request, RequestBody, RequestBodyView, RequestView};
use crate::topic::{Topic, TopicAuthorizedOperations, TopicName, TopicView};
use crate::types::{
    Api, ApiKey, CorrelationId, ErrorCode, HighWatermark, LastStableOffset, PreferredReadReplica,
    SessionId, TagBuffer, ThrottleTime, Version, spec_enc_api,
};

verus! {

/// A topic-metadata request's paging cursor; the byte `0xff` means none.
#[derive(Debug, Clone, Copy, PartialEq, Eq, Structural)]
pub struct Cursor(pub u8);

impl Cursor {
    /// Reads a cursor byte; all ones means none.
    pub fn mk(v: u8) -> (r: Option<Cursor>)
        ensures
            r == (if v == 0xff {
                None
            } else {
                Some(Cursor(v))
            }),
    {
        if v == 0xff {
            None
        } else {
            Some(Cursor(v))
        }
    }

    /// The wrapped byte.
    pub fn value(&self) -> (r: u8)
        ensures
            r == self.0,
    {
        self.0
    }
}

/// A response's typed body.
#[derive(Debug, Clone)]
pub enum ResponseBody {
    ApiVersions { api_versions: Vec<Api>, throttle_time: ThrottleTime, tagged_fields: TagBuffer },
    DescribeTopicPartitions {
        throttle_time: ThrottleTime,
        topics: Vec<Topic>,
        next_cursor: Option<Cursor>,
    },
    Fetch { throttle_time: ThrottleTime, session_id: SessionId, responses: Vec<FetchResponse> },
}

/// What a `ResponseBody` holds, over mathematical sequences.
pub enum ResponseBodyView {
    ApiVersions { api_versions: Seq<Api>, throttle_time: ThrottleTime, tagged_fields: TagBuffer },
    DescribeTopicPartitions {
        throttle_time: ThrottleTime,
        topics: Seq<TopicView>,
        next_cursor: Option<Cursor>,
    },
    Fetch {
        throttle_time: ThrottleTime,
        session_id: SessionId,
        responses: Seq<FetchResponseView>,
    },
}

impl View for ResponseBody {
    type V = ResponseBodyView;

    open spec fn view(&self) -> ResponseBodyView {
        match self {
            ResponseBody::ApiVersions { api_versions, throttle_time, tagged_fields } =>
                ResponseBodyView::ApiVersions {
                api_versions: api_versions@,
                throttle_time: *throttle_time,
                tagged_fields: *tagged_fields,
            },
            ResponseBody::DescribeTopicPartitions { throttle_time, topics, next_cursor } =>
                ResponseBodyView::DescribeTopicPartitions {
                throttle_time: *throttle_time,
                topics: topics@.map_values(|t: Topic| t@),
                next_cursor: *next_cursor,
            },
            ResponseBody::Fetch { throttle_time, session_id, responses } =>
                ResponseBodyView::Fetch {
                throttle_time: *throttle_time,
                session_id: *session_id,
                responses: responses@.map_values(|t: FetchResponse| t@),
            },
        }
    }
}

/// One response, ready to encode.
#[derive(Debug, Clone)]
pub struct Response {
    pub correlation_id: CorrelationId,
    pub body: ResponseBody,
}

/// What a `Response` holds, over mathematical sequences.
pub struct ResponseView {
    pub correlation_id: CorrelationId,
    pub body: ResponseBodyView,
}

impl View for Response {
    type V = ResponseView;

    open spec fn view(&self) -> ResponseView {
        ResponseView { correlation_id: self.correlation_id, body: self.body@ }
    }
}

// ---------------------------------------------------------------------------
// What each response body holds, as a function of the request and the logs
// ---------------------------------------------------------------------------

/// The per-partition summary a topic descriptor carries for one partition
/// record: no error, the record's index, leadership and replica sets, and
/// empty eligible-leader, last-known and offline lists.
pub open spec fn spec_partition_summary(p: PartitionRecordView) -> PartitionView {
    PartitionView {
        error_code: ErrorCode::NoError,
        partition_index: p.partition_index,
        leader_id: p.leader,
        leader_epoch: p.leader_epoch,
        replica_nodes: p.replicas,
        isr_nodes: p.isrs,
        eligible_leader_replicas: Seq::<EligibleLeaderReplicas>::empty(),
        last_known_elrs: Seq::<LastKnownELR>::empty(),
        offline_replicas: Seq::<OfflineReplica>::empty(),
        tag_buffer: TagBuffer(0),
    }
}

/// The descriptor a topic-metadata response carries for one asked name:
/// for a known topic its id and partition summaries, for an unknown one the
/// unknown-topic error, the all-zero id and no partitions.
pub open spec fn spec_dtp_topic(m: Seq<BatchView>, name: Seq<char>) -> TopicView {
    match crate::meta::spec_find_topic_id(m, name) {
        None => TopicView {
            error_code: ErrorCode::UnknownTopicOrPartition,
            name,
            id: Seq::<u8>::new(16, |i: int| 0u8),
            is_internal: false,
            partitions: Seq::<PartitionView>::empty(),
            topic_authorized_operations: TopicAuthorizedOperations(0),
            tag_buffer: TagBuffer(0),
        },
        Some(id) => TopicView {
            error_code: ErrorCode::NoError,
            name,
            id,
            is_internal: false,
            partitions: crate::meta::spec_find_partitions(m, id).map_values(
                |p: PartitionRecordView| spec_partition_summary(p),
            ),
            topic_authorized_operations: TopicAuthorizedOperations(0x0df8),
            tag_buffer: TagBuffer(0),
        },
    }
}

/// The descriptors a topic-metadata response carries, one per asked name.
pub open spec fn spec_dtp_topics(m: Seq<BatchView>, names: Seq<Seq<char>>) -> Seq<TopicView> {
    Seq::new(names.len(), |i: int| spec_dtp_topic(m, names[i]))
}

/// The partition response a fetch carries for one asked topic: its loaded
/// batches at partition zero when a log was found, the unknown-topic error
/// otherwise.
pub open spec fn spec_fetch_response_for(
    t: FetchTopicView,
    log: Option<Seq<BatchView>>,
) -> FetchResponseView {
    match log {
        None => FetchResponseView {
            topic_id: t.topic_id,
            partitions: seq![
                FetchPartitionResponseView {
                    partition_index: PartitionIndex(0),
                    error_code: ErrorCode::UnknownTopic,
                    high_watermark: HighWatermark(0),
                    last_stable_offset: LastStableOffset(0),
                    log_start_offset: crate::partition::LogStartOffset(0),
                    aborted_transactions: Seq::<AbortedTransaction>::empty(),
                    preferred_read_replica: PreferredReadReplica(0),
                    batches: Seq::<BatchView>::empty(),
                },
            ],
        },
        Some(bs) => FetchResponseView {
            topic_id: t.topic_id,
            partitions: seq![
                FetchPartitionResponseView {
                    partition_index: PartitionIndex(0),
                    error_code: ErrorCode::NoError,
                    high_watermark: HighWatermark(0),
                    last_stable_offset: LastStableOffset(0),
                    log_start_offset: crate::partition::LogStartOffset(0),
                    aborted_transactions: Seq::<AbortedTransaction>::empty(),
                    preferred_read_replica: PreferredReadReplica(0),
                    batches: bs,
                },
            ],
        },
    }
}

/// The per-topic responses a fetch carries, one per asked topic, each read
/// from the log handed in for it.
pub open spec fn spec_fetch_responses(
    ts: Seq<FetchTopicView>,
    logs: Seq<Option<Seq<BatchView>>>,
) -> Seq<FetchResponseView> {
    Seq::new(ts.len(), |i: int| spec_fetch_response_for(ts[i], logs[i]))
}

/// The batch views inside each handed-in log.
pub open spec fn spec_log_views(logs: Seq<Option<Log>>) -> Seq<Option<Seq<BatchView>>> {
    logs.map_values(
        |o: Option<Log>|
            match o {
                None => None,
                Some(l) => Some(l@),
            },
    )
}

/// The advertised api set: the handshake itself at versions zero to four,
/// the topic-metadata descriptor at version zero, and fetch at versions zero
/// to sixteen.
pub open spec fn spec_advertised_apis() -> Seq<Api> {
    seq![
        Api(ApiKey::ApiVersions, Version::V0, Version::V4, TagBuffer(0)),
        Api(ApiKey::DescribeTopicPartitions, Version::V0, Version::V0, TagBuffer(0)),
        Api(ApiKey::Fetch, Version::V0, Version::V16, TagBuffer(0)),
    ]
}

/// The response a request gets, given the loaded metadata and, for a fetch,
/// the log handed in for each asked topic. The handshake answers versions
/// zero to four, the topic-metadata descriptor only version zero, fetch only
/// version sixteen; anything else is an unsupported version carrying the
/// request's correlation id.
pub open spec fn spec_response(
    req: RequestView,
    m: Seq<BatchView>,
    logs: Seq<Option<Seq<BatchView>>>,
) -> Result<ResponseView, Error> {
    match req.body {
        RequestBodyView::ApiVersions => if req.header.api_version.spec_value() <= 4 {
            Ok(
                ResponseView {
                    correlation_id: req.header.correlation_id,
                    body: ResponseBodyView::ApiVersions {
                        api_versions: spec_advertised_apis(),
                        throttle_time: ThrottleTime(0),
                        tagged_fields: TagBuffer(0),
                    },
                },
            )
        } else {
            Err(
                Error::UnsupportedApiVersion(
                    req.header.api_version.spec_value(),
                    Some(req.header.correlation_id.0),
                ),
            )
        },
        RequestBodyView::DescribeTopicPartitions { topics, .. } => if req.header.api_version
            == Version::V0 {
            Ok(
                ResponseView {
                    correlation_id: req.header.correlation_id,
                    body: ResponseBodyView::DescribeTopicPartitions {
                        throttle_time: ThrottleTime(0),
                        topics: spec_dtp_topics(m, topics),
                        next_cursor: None,
                    },
                },
            )
        } else {
            Err(
                Error::UnsupportedApiVersion(
                    req.header.api_version.spec_value(),
                    Some(req.header.correlation_id.0),
                ),
            )
        },
        RequestBodyView::Fetch { session_id, topics, .. } => if req.header.api_version
            == Version::V16 {
            Ok(
                ResponseView {
                    correlation_id: req.header.correlation_id,
                    body: ResponseBodyView::Fetch {
                        throttle_time: ThrottleTime(0),
                        session_id,
                        responses: spec_fetch_responses(topics, logs),
                    },
                },
            )
        } else {
            Err(
                Error::UnsupportedApiVersion(
                    req.header.api_version.spec_value(),
                    Some(req.header.correlation_id.0),
                ),
            )
        },
    }
}

// ---------------------------------------------------------------------------
// Building the response
// ---------------------------------------------------------------------------

fn copy_replicas(xs: &Vec<ReplicaNode>) -> (r: Vec<ReplicaNode>)
    ensures
        r@ == xs@,
{
    let mut out: Vec<ReplicaNode> = Vec::new();
    let mut i: usize = 0;
    while i < xs.len()
        invariant
            i <= xs@.len(),
            out@ == xs@.take(i as int),
        decreases xs@.len() - i,
    {
        out.push(xs[i]);
        i = i + 1;
        proof {
            assert(out@ =~= xs@.take(i as int));
        }
    }
    proof {
        assert(out@ =~= xs@);
    }
    out
}

fn copy_isrs(xs: &Vec<ISRNode>) -> (r: Vec<ISRNode>)
    ensures
        r@ == xs@,
{
    let mut out: Vec<ISRNode> = Vec::new();
    let mut i: usize = 0;
    while i < xs.len()
        invariant
            i <= xs@.len(),
            out@ == xs@.take(i as int),
        decreases xs@.len() - i,
    {
        out.push(xs[i]);
        i = i + 1;
        proof {
            assert(out@ =~= xs@.take(i as int));
        }
    }
    proof {
        assert(out@ =~= xs@);
    }
    out
}

fn partition_summary(p: &PartitionRecordValue) -> (r: Partition)
    ensures
        r@ == spec_partition_summary(p@),
{
    let r = Partition::new(
        p.2,
        p.4,
        p.5,
        copy_replicas(&p.7),
        copy_isrs(&p.8),
        Vec::new(),
        Vec::new(),
        Vec::new(),
    );
    proof {
        assert(r@.eligible_leader_replicas =~= Seq::<EligibleLeaderReplicas>::empty());
        assert(r@.last_known_elrs =~= Seq::<LastKnownELR>::empty());
        assert(r@.offline_replicas =~= Seq::<OfflineReplica>::empty());
    }
    r
}

fn dtp_topic(meta: &Meta, name: &TopicName) -> (r: Topic)
    ensures
        r@ == spec_dtp_topic(meta@, name@),
{
    let owned = TopicName(name.0.clone());
    match meta.find_topic_id(name) {
        None => Topic::unknown(owned),
        Some(id) => {
            let found = meta.find_partitions(&id);
            let ghost fviews = found@.map_values(|p: &PartitionRecordValue| p@);
            let ghost ptarget = fviews.map_values(
                |p: PartitionRecordView| spec_partition_summary(p),
            );
            let mut parts: Vec<Partition> = Vec::new();
            let mut i: usize = 0;
            while i < found.len()
                invariant
                    i <= found@.len(),
                    fviews == found@.map_values(|p: &PartitionRecordValue| p@),
                    ptarget == fviews.map_values(
                        |p: PartitionRecordView| spec_partition_summary(p),
                    ),
                    parts@.len() == i,
                    forall|j: int| 0 <= j < i ==> #[trigger] parts@[j]@ == ptarget[j],
                decreases found@.len() - i,
            {
                let one = partition_summary(found[i]);
                proof {
                    assert(fviews[i as int] == found@[i as int]@);
                    assert(one@ == ptarget[i as int]);
                }
                parts.push(one);
                i = i + 1;
            }
            proof {
                let mm = parts@.map_values(|q: Partition| q@);
                assert forall|j: int| 0 <= j < parts@.len() implies #[trigger] mm[j] == ptarget[j]
                    by {
                    assert(parts@[j]@ == ptarget[j]);
                }
                assert(mm =~= ptarget);
            }
            Topic::new(owned, id, parts)
        },
    }
}

fn build_dtp_topics(meta: &Meta, names: &Vec<TopicName>) -> (r: Vec<Topic>)
    ensures
        r@.map_values(|t: Topic| t@) == spec_dtp_topics(
            meta@,
            names@.map_values(|n: TopicName| n@),
        ),
{
    let ghost nviews = names@.map_values(|n: TopicName| n@);
    let ghost target = spec_dtp_topics(meta@, nviews);
    let mut out: Vec<Topic> = Vec::new();
    let mut i: usize = 0;
    while i < names.len()
        invariant
            i <= names@.len(),
            nviews == names@.map_values(|n: TopicName| n@),
            target == spec_dtp_topics(meta@, nviews),
            out@.len() == i,
            forall|j: int| 0 <= j < i ==> #[trigger] out@[j]@ == target[j],
        decreases names@.len() - i,
    {
        let one = dtp_topic(meta, &names[i]);
        proof {
            assert(nviews[i as int] == names@[i as int]@);
            assert(one@ == target[i as int]);
        }
        out.push(one);
        i = i + 1;
    }
    proof {
        let mm = out@.map_values(|t: Topic| t@);
        assert forall|j: int| 0 <= j < out@.len() implies #[trigger] mm[j] == target[j] by {
            assert(out@[j]@ == target[j]);
        }
        assert(mm =~= target);
    }
    out
}

fn build_fetch_responses(topics: &Vec<FetchTopic>, logs: Vec<Option<Log>>) -> (r: Vec<
    FetchResponse,
>)
    requires
        logs@.len() == topics@.len(),
    ensures
        r@.map_values(|t: FetchResponse| t@) == spec_fetch_responses(
            topics@.map_values(|t: FetchTopic| t@),
            spec_log_views(logs@),
        ),
{
    let ghost tviews = topics@.map_values(|t: FetchTopic| t@);
    let ghost lviews = spec_log_views(logs@);
    let ghost target = spec_fetch_responses(tviews, lviews);
    let mut rest = logs;
    let mut out: Vec<FetchResponse> = Vec::new();
    let mut i: usize = 0;
    while i < topics.len()
        invariant
            i <= topics@.len(),
            tviews == topics@.map_values(|t: FetchTopic| t@),
            target == spec_fetch_responses(tviews, lviews),
            rest@.len() + i == topics@.len(),
            lviews.len() == topics@.len(),
            target.len() == topics@.len(),
            spec_log_views(rest@) == lviews.skip(i as int),
            out@.len() == i,
            forall|j: int| 0 <= j < i ==> #[trigger] out@[j]@ == target[j],
        decreases topics@.len() - i,
    {
        let ghost rest0 = rest@;
        let log = rest.remove(0);
        proof {
            assert(spec_log_views(rest0)[0] == lviews.skip(i as int)[0]);
            assert(lviews.skip(i as int)[0] == lviews[i as int]);
            let f = |o: Option<Log>|
                match o {
                    None => None,
                    Some(l) => Some(l@),
                };
            assert forall|j: int| 0 <= j < rest@.len() implies #[trigger] spec_log_views(
                rest@,
            )[j] == lviews.skip(i as int + 1)[j] by {
                assert(rest@[j] == rest0[j + 1]);
                assert(spec_log_views(rest0)[j + 1] == lviews.skip(i as int)[j + 1]);
                assert(spec_log_views(rest@)[j] == f(rest@[j]));
                assert(spec_log_views(rest0)[j + 1] == f(rest0[j + 1]));
            }
            assert(spec_log_views(rest@) =~= lviews.skip(i as int + 1));
        }
        let id = topics[i].topic_id();
        let partition = match log {
            None => FetchPartitionResponse::unknown(PartitionIndex::new(0)),
            Some(l) => FetchPartitionResponse::new(PartitionIndex::new(0), l.0),
        };
        let mut ps: Vec<FetchPartitionResponse> = Vec::new();
        ps.push(partition);
        let one = FetchResponse::new(id, ps);
        proof {
            assert(one@.partitions =~= seq![partition@]);
            assert(tviews[i as int] == topics@[i as int]@);
            assert(one@ == target[i as int]);
        }
        out.push(one);
        i = i + 1;
    }
    proof {
        let mm = out@.map_values(|t: FetchResponse| t@);
        assert forall|j: int| 0 <= j < out@.len() implies #[trigger] mm[j] == target[j] by {
            assert(out@[j]@ == target[j]);
        }
        assert(mm =~= target);
    }
    out
}

impl Response {
    /// Packs a response.
    pub fn new(correlation_id: CorrelationId, body: ResponseBody) -> (r: Response)
        ensures
            r@.correlation_id == correlation_id,
            r@.body == body@,
    {
        Response { correlation_id, body }
    }

    /// Builds the response a request gets, given the loaded metadata and, for
    /// a fetch, the log handed in for each asked topic (in the order the
    /// request asked them, a missing log meaning the topic is unknown).
    pub fn response(request: &Request, meta: &Meta, logs: Vec<Option<Log>>) -> (r: Result<
        Response,
        Error,
    >)
        requires
            request@.body matches RequestBodyView::Fetch { topics, .. } ==> logs@.len()
                == topics.len(),
        ensures
            match r {
                Ok(resp) => spec_response(request@, meta@, spec_log_views(logs@)) == Ok::<
                    _,
                    Error,
                >(resp@),
                Err(e) => spec_response(request@, meta@, spec_log_views(logs@)) == Err::<
                    ResponseView,
                    _,
                >(e),
            },
    {
        let cid = request.header.correlation_id;
        match &request.body {
            RequestBody::ApiVersions => {
                if request.header.api_version.value() <= 4 {
                    let mut apis: Vec<Api> = Vec::new();
                    apis.push(
                        Api::new(ApiKey::ApiVersions, Version::V0, Version::V4, TagBuffer::zero()),
                    );
                    apis.push(
                        Api::new(
                            ApiKey::DescribeTopicPartitions,
                            Version::V0,
                            Version::V0,
                            TagBuffer::zero(),
                        ),
                    );
                    apis.push(
                        Api::new(ApiKey::Fetch, Version::V0, Version::V16, TagBuffer::zero()),
                    );
                    proof {
                        assert(apis@ =~= spec_advertised_apis());
                    }
                    Ok(
                        Response {
                            correlation_id: cid,
                            body: ResponseBody::ApiVersions {
                                api_versions: apis,
                                throttle_time: ThrottleTime::zero(),
                                tagged_fields: TagBuffer::zero(),
                            },
                        },
                    )
                } else {
                    Err(Error::UnsupportedApiVersion(request.header.api_version.value(), Some(
                        cid.0,
                    )))
                }
            },
            RequestBody::DescribeTopicPartitions { topics, .. } => {
                match request.header.api_version {
                    Version::V0 => Ok(
                        Response {
                            correlation_id: cid,
                            body: ResponseBody::DescribeTopicPartitions {
                                throttle_time: ThrottleTime::zero(),
                                topics: build_dtp_topics(meta, topics),
                                next_cursor: None,
                            },
                        },
                    ),
                    _ => Err(
                        Error::UnsupportedApiVersion(request.header.api_version.value(), Some(
                            cid.0,
                        )),
                    ),
                }
            },
            RequestBody::Fetch { session_id, topics, .. } => {
                match request.header.api_version {
                    Version::V16 => Ok(
                        Response {
                            correlation_id: cid,
                            body: ResponseBody::Fetch {
                                throttle_time: ThrottleTime::zero(),
                                session_id: *session_id,
                                responses: build_fetch_responses(topics, logs),
                            },
                        },
                    ),
                    _ => Err(
                        Error::UnsupportedApiVersion(request.header.api_version.value(), Some(
                            cid.0,
                        )),
                    ),
                }
            },
        }
    }
}

// ---------------------------------------------------------------------------
// Encoding the response
// ---------------------------------------------------------------------------

/// The concatenated wire forms of the advertised apis.
pub open spec fn spec_enc_apis(xs: Seq<Api>) -> Seq<u8>
    decreases xs.len(),
{
    if xs.len() == 0 {
        Seq::<u8>::empty()
    } else {
        spec_enc_api(xs[0]) + spec_enc_apis(xs.skip(1))
    }
}

/// The concatenated wire forms of the topic descriptors.
pub open spec fn spec_enc_topic_list(ts: Seq<TopicView>) -> Seq<u8>
    decreases ts.len(),
{
    if ts.len() == 0 {
        Seq::<u8>::empty()
    } else {
        crate::topic::spec_enc_topic(ts[0]) + spec_enc_topic_list(ts.skip(1))
    }
}

/// The concatenated wire forms of the per-topic fetch responses.
pub open spec fn spec_enc_fetch_resp_list(rs: Seq<FetchResponseView>) -> Seq<u8>
    decreases rs.len(),
{
    if rs.len() == 0 {
        Seq::<u8>::empty()
    } else {
        spec_enc_fetch_response(rs[0]) + spec_enc_fetch_resp_list(rs.skip(1))
    }
}

/// The body of a handshake response: the correlation id, a no-error code,
/// one more than the advertised count in one byte, the advertised apis, the
/// throttle time and a tag buffer.
pub open spec fn spec_av_body(cid: u32, apis: Seq<Api>, tt: u32, tf: u8) -> Seq<u8> {
    spec_enc_u32(cid) + spec_enc_u16(ErrorCode::NoError.spec_value() as u16) + seq![
        (((apis.len() % 0x100) + 1) % 0x100) as u8,
    ] + spec_enc_apis(apis) + spec_enc_u32(tt) + seq![tf]
}

/// The body of a topic-metadata response: the correlation id, a tag buffer,
/// the throttle time, the descriptors as a compact array, the cursor byte
/// (`0xff` for none) and a tag buffer.
pub open spec fn spec_dtp_body(
    cid: u32,
    tt: u32,
    topics: Seq<TopicView>,
    cursor: Option<Cursor>,
) -> Seq<u8> {
    spec_enc_u32(cid) + seq![0u8] + spec_enc_u32(tt) + spec_enc_varint(spec_len1(topics.len()))
        + spec_enc_topic_list(topics) + seq![
        match cursor {
            None => 0xffu8,
            Some(c) => c.0,
        },
    ] + seq![0u8]
}

/// The body of a fetch response: the correlation id, a tag buffer, the
/// throttle time, a no-error code, the session id, the per-topic responses
/// as a compact array and a tag buffer.
pub open spec fn spec_fetch_body(
    cid: u32,
    tt: u32,
    sid: u32,
    rs: Seq<FetchResponseView>,
) -> Seq<u8> {
    spec_enc_u32(cid) + seq![0u8] + spec_enc_u32(tt) + spec_enc_u16(
        ErrorCode::NoError.spec_value() as u16,
    ) + spec_enc_u32(sid) + spec_enc_varint(spec_len1(rs.len())) + spec_enc_fetch_resp_list(rs)
        + seq![0u8]
}

/// The body bytes of a response, by its kind.
pub open spec fn spec_body_bytes(r: ResponseView) -> Seq<u8> {
    match r.body {
        ResponseBodyView::ApiVersions { api_versions, throttle_time, tagged_fields } =>
            spec_av_body(r.correlation_id.0, api_versions, throttle_time.0, tagged_fields.0),
        ResponseBodyView::DescribeTopicPartitions { throttle_time, topics, next_cursor } =>
            spec_dtp_body(r.correlation_id.0, throttle_time.0, topics, next_cursor),
        ResponseBodyView::Fetch { throttle_time, session_id, responses } => spec_fetch_body(
            r.correlation_id.0,
            throttle_time.0,
            session_id.0,
            responses,
        ),
    }
}

/// The framed wire form of a response: its body behind the body's byte
/// count.
pub open spec fn spec_enc_response(r: ResponseView) -> Seq<u8> {
    spec_enc_u32(spec_sat_u32(spec_body_bytes(r).len())) + spec_body_bytes(r)
}

/// Frames bytes behind their four-byte big-endian count.
pub fn with_message_size(bytes: &[u8]) -> (r: Vec<u8>)
    ensures
        r@ == spec_enc_u32(spec_sat_u32(bytes@.len())) + bytes@,
{
    let mut out: Vec<u8> = Vec::new();
    crate::pb::enc_u32(&mut out, sat_u32(bytes.len()));
    proof {
        crate::pb::lemma_empty_prefix(spec_enc_u32(spec_sat_u32(bytes@.len())));
    }
    crate::pb::append_bytes(&mut out, bytes);
    out
}

/// Appending one advertised api appends its bytes to the encoding.
proof fn lemma_enc_apis_snoc(xs: Seq<Api>, x: Api)
    ensures
        spec_enc_apis(xs.push(x)) == spec_enc_apis(xs) + spec_enc_api(x),
    decreases xs.len(),
{
    let p = xs.push(x);
    assert(p.len() == xs.len() + 1);
    if xs.len() == 0 {
        assert(p[0] == x);
        assert(p.skip(1) =~= Seq::<Api>::empty());
        assert(spec_enc_apis(p) == spec_enc_api(x) + spec_enc_apis(Seq::<Api>::empty()));
        assert(spec_enc_apis(p) =~= spec_enc_apis(xs) + spec_enc_api(x));
    } else {
        assert(p[0] == xs[0]);
        assert(p.skip(1) =~= xs.skip(1).push(x));
        lemma_enc_apis_snoc(xs.skip(1), x);
        vstd::seq_lib::lemma_concat_associative(
            spec_enc_api(xs[0]),
            spec_enc_apis(xs.skip(1)),
            spec_enc_api(x),
        );
    }
}

/// Appending one topic descriptor appends its bytes to the encoding.
proof fn lemma_enc_topic_list_snoc(ts: Seq<TopicView>, t: TopicView)
    ensures
        spec_enc_topic_list(ts.push(t)) == spec_enc_topic_list(ts) + crate::topic::spec_enc_topic(
            t,
        ),
    decreases ts.len(),
{
    let p = ts.push(t);
    assert(p.len() == ts.len() + 1);
    if ts.len() == 0 {
        assert(p[0] == t);
        assert(p.skip(1) =~= Seq::<TopicView>::empty());
        assert(spec_enc_topic_list(p) == crate::topic::spec_enc_topic(t) + spec_enc_topic_list(
            Seq::<TopicView>::empty(),
        ));
        assert(spec_enc_topic_list(p) =~= spec_enc_topic_list(ts) + crate::topic::spec_enc_topic(
            t,
        ));
    } else {
        assert(p[0] == ts[0]);
        assert(p.skip(1) =~= ts.skip(1).push(t));
        lemma_enc_topic_list_snoc(ts.skip(1), t);
        vstd::seq_lib::lemma_concat_associative(
            crate::topic::spec_enc_topic(ts[0]),
            spec_enc_topic_list(ts.skip(1)),
            crate::topic::spec_enc_topic(t),
        );
    }
}

/// Appending one per-topic fetch response appends its bytes to the encoding.
proof fn lemma_enc_fetch_resp_list_snoc(rs: Seq<FetchResponseView>, x: FetchResponseView)
    ensures
        spec_enc_fetch_resp_list(rs.push(x)) == spec_enc_fetch_resp_list(rs)
            + spec_enc_fetch_response(x),
    decreases rs.len(),
{
    let p = rs.push(x);
    assert(p.len() == rs.len() + 1);
    if rs.len() == 0 {
        assert(p[0] == x);
        assert(p.skip(1) =~= Seq::<FetchResponseView>::empty());
        assert(spec_enc_fetch_resp_list(p) == spec_enc_fetch_response(x)
            + spec_enc_fetch_resp_list(Seq::<FetchResponseView>::empty()));
        assert(spec_enc_fetch_resp_list(p) =~= spec_enc_fetch_resp_list(rs)
            + spec_enc_fetch_response(x));
    } else {
        assert(p[0] == rs[0]);
        assert(p.skip(1) =~= rs.skip(1).push(x));
        lemma_enc_fetch_resp_list_snoc(rs.skip(1), x);
        vstd::seq_lib::lemma_concat_associative(
            spec_enc_fetch_response(rs[0]),
            spec_enc_fetch_resp_list(rs.skip(1)),
            spec_enc_fetch_response(x),
        );
    }
}

fn enc_api_list(xs: &Vec<Api>) -> (r: Vec<u8>)
    ensures
        r@ == spec_enc_apis(xs@),
{
    let mut out: Vec<u8> = Vec::new();
    let mut i: usize = 0;
    while i < xs.len()
        invariant
            i <= xs@.len(),
            out@ == spec_enc_apis(xs@.take(i as int)),
        decreases xs@.len() - i,
    {
        xs[i].encode(&mut out);
        i = i + 1;
        proof {
            lemma_enc_apis_snoc(xs@.take(i as int - 1), xs@[i as int - 1]);
            assert(xs@.take(i as int) =~= xs@.take(i as int - 1).push(xs@[i as int - 1]));
        }
    }
    proof {
        assert(xs@.take(xs@.len() as int) =~= xs@);
    }
    out
}

fn enc_topic_list(ts: &Vec<Topic>) -> (r: Vec<u8>)
    ensures
        r@ == spec_enc_topic_list(ts@.map_values(|t: Topic| t@)),
{
    let ghost views = ts@.map_values(|t: Topic| t@);
    let mut out: Vec<u8> = Vec::new();
    let mut i: usize = 0;
    while i < ts.len()
        invariant
            i <= ts@.len(),
            views == ts@.map_values(|t: Topic| t@),
            out@ == spec_enc_topic_list(views.take(i as int)),
        decreases ts@.len() - i,
    {
        ts[i].encode(&mut out);
        i = i + 1;
        proof {
            lemma_enc_topic_list_snoc(views.take(i as int - 1), views[i as int - 1]);
            assert(views.take(i as int) =~= views.take(i as int - 1).push(views[i as int - 1]));
        }
    }
    proof {
        assert(views.take(views.len() as int) =~= views);
    }
    out
}

fn enc_fetch_resp_list(rs: &Vec<FetchResponse>) -> (r: Vec<u8>)
    ensures
        r@ == spec_enc_fetch_resp_list(rs@.map_values(|t: FetchResponse| t@)),
{
    let ghost views = rs@.map_values(|t: FetchResponse| t@);
    let mut out: Vec<u8> = Vec::new();
    let mut i: usize = 0;
    while i < rs.len()
        invariant
            i <= rs@.len(),
            views == rs@.map_values(|t: FetchResponse| t@),
            out@ == spec_enc_fetch_resp_list(views.take(i as int)),
        decreases rs@.len() - i,
    {
        rs[i].encode(&mut out);
        i = i + 1;
        proof {
            lemma_enc_fetch_resp_list_snoc(views.take(i as int - 1), views[i as int - 1]);
            assert(views.take(i as int) =~= views.take(i as int - 1).push(views[i as int - 1]));
        }
    }
    proof {
        assert(views.take(views.len() as int) =~= views);
    }
    out
}

impl Response {
    /// The body bytes of this response.
    fn body_bytes(&self) -> (r: Vec<u8>)
        ensures
            r@ == spec_body_bytes(self@),
    {
        match &self.body {
            ResponseBody::ApiVersions { api_versions, throttle_time, tagged_fields } => {
                let mut out: Vec<u8> = Vec::new();
                crate::pb::enc_u32(&mut out, self.correlation_id.0);
                proof {
                    crate::pb::lemma_empty_prefix(spec_enc_u32(self.correlation_id.0));
                }
                crate::pb::enc_u16(&mut out, ErrorCode::NoError.value() as u16);
                let ghost p1 = out@;
                out.push((((api_versions.len() % 0x100) + 1) % 0x100) as u8);
                proof {
                    crate::pb::lemma_push_is_concat(
                        p1,
                        (((api_versions@.len() % 0x100) + 1) % 0x100) as u8,
                    );
                }
                let mut apis = enc_api_list(api_versions);
                out.append(&mut apis);
                crate::pb::enc_u32(&mut out, throttle_time.0);
                let ghost p2 = out@;
                out.push(tagged_fields.0);
                proof {
                    crate::pb::lemma_push_is_concat(p2, tagged_fields.0);
                }
                out
            },
            ResponseBody::DescribeTopicPartitions { throttle_time, topics, next_cursor } => {
                let mut out: Vec<u8> = Vec::new();
                crate::pb::enc_u32(&mut out, self.correlation_id.0);
                proof {
                    crate::pb::lemma_empty_prefix(spec_enc_u32(self.correlation_id.0));
                }
                let ghost p1 = out@;
                out.push(0u8);
                proof {
                    crate::pb::lemma_push_is_concat(p1, 0u8);
                }
                crate::pb::enc_u32(&mut out, throttle_time.0);
                let mut tlen = VarInt::encode(len_plus_one(topics.len()));
                out.append(&mut tlen);
                let mut tbytes = enc_topic_list(topics);
                out.append(&mut tbytes);
                let ghost p2 = out@;
                let cursor_byte: u8 = match next_cursor {
                    None => 0xffu8,
                    Some(c) => c.0,
                };
                out.push(cursor_byte);
                proof {
                    crate::pb::lemma_push_is_concat(p2, cursor_byte);
                }
                let ghost p3 = out@;
                out.push(0u8);
                proof {
                    crate::pb::lemma_push_is_concat(p3, 0u8);
                }
                out
            },
            ResponseBody::Fetch { throttle_time, session_id, responses } => {
                let mut out: Vec<u8> = Vec::new();
                crate::pb::enc_u32(&mut out, self.correlation_id.0);
                proof {
                    crate::pb::lemma_empty_prefix(spec_enc_u32(self.correlation_id.0));
                }
                let ghost p1 = out@;
                out.push(0u8);
                proof {
                    crate::pb::lemma_push_is_concat(p1, 0u8);
                }
                crate::pb::enc_u32(&mut out, throttle_time.0);
                crate::pb::enc_u16(&mut out, ErrorCode::NoError.value() as u16);
                crate::pb::enc_u32(&mut out, session_id.0);
                let mut rlen = VarInt::encode(len_plus_one(responses.len()));
                out.append(&mut rlen);
                let mut rbytes = enc_fetch_resp_list(responses);
                out.append(&mut rbytes);
                let ghost p2 = out@;
                out.push(0u8);
                proof {
                    crate::pb::lemma_push_is_concat(p2, 0u8);
                }
                out
            },
        }
    }

    /// The framed wire form of this response.
    pub fn to_bytes(&self) -> (r: Vec<u8>)
        ensures
            r@ == spec_enc_response(self@),
    {
        let body = self.body_bytes();
        with_message_size(body.as_slice())
    }
}

/// The ten-byte error frame an unsupported version or key gets: a size field
/// of ten, the request's correlation id, and the unsupported-version error
/// code.
pub fn error_response(correlation_id: &CorrelationId) -> (r: Vec<u8>)
    ensures
        r@ == spec_enc_u32(10) + spec_enc_u32(correlation_id.0) + spec_enc_u16(
            ErrorCode::UnsupportedVersion.spec_value() as u16,
        ),
{
    let mut out: Vec<u8> = Vec::new();
    crate::pb::enc_u32(&mut out, 10);
    proof {
        crate::pb::lemma_empty_prefix(spec_enc_u32(10));
    }
    crate::pb::enc_u32(&mut out, correlation_id.0);
    crate::pb::enc_u16(&mut out, ErrorCode::UnsupportedVersion.value() as u16);
    out
}

} // verus!
