//! Decoding a framed request: its header, then the body the api key calls
//! for.

use vstd::prelude::*;

use crate::error::Error;
use crate::fetch::{
    dec_fetch_topic_array, dec_forgotten_topic_array, spec_dec_fetch_topic_array,
    spec_dec_forgotten_topic_array, FetchTopic, FetchTopicView, ForgottenTopicData,
    ForgottenTopicDataView,
};
use crate::partition::RackId;
use crate::pb::{
    dec_compact_string, dec_str, dec_u16, dec_u32, dec_u8, spec_dec_compact_string, spec_dec_str,
    spec_dec_u16, spec_dec_u32, spec_dec_u8, spec_dec_varint, VarInt,
};
use crate::response::Cursor;
use crate::topic::TopicName;
use crate::types::{
    ApiKey, ClientId, CorrelationId, IsolationLevel, MaxBytes, MaxWait, MinBytes, SessionEpoch,
    SessionId, Version,
};

verus! {

/// A request's header: what is asked, at which version, under which
/// correlation id, and by whom.
#[derive(Debug, Clone)]
pub struct RequestHeader {
    pub api_key: ApiKey,
    pub api_version: Version,
    pub correlation_id: CorrelationId,
    pub client_id: ClientId,
}

/// What a `RequestHeader` holds, over mathematical sequences.
pub struct RequestHeaderView {
    pub api_key: ApiKey,
    pub api_version: Version,
    pub correlation_id: CorrelationId,
    pub client_id: Seq<char>,
}

impl View for RequestHeader {
    type V = RequestHeaderView;

    open spec fn view(&self) -> RequestHeaderView {
        RequestHeaderView {
            api_key: self.api_key,
            api_version: self.api_version,
            correlation_id: self.correlation_id,
            client_id: self.client_id@,
        }
    }
}

impl RequestHeader {
    /// Packs a request header.
    pub fn new(
        api_key: ApiKey,
        api_version: Version,
        correlation_id: CorrelationId,
        client_id: ClientId,
    ) -> (r: RequestHeader)
        ensures
            r@.api_key == api_key,
            r@.api_version == api_version,
            r@.correlation_id == correlation_id,
            r@.client_id == client_id@,
    {
        RequestHeader { api_key, api_version, correlation_id, client_id }
    }

    /// What is asked.
    pub fn api_key(&self) -> (r: ApiKey)
        ensures
            r == self.api_key,
    {
        self.api_key
    }

    /// At which version.
    pub fn api_version(&self) -> (r: Version)
        ensures
            r == self.api_version,
    {
        self.api_version
    }

    /// Under which correlation id.
    pub fn correlation_id(&self) -> (r: CorrelationId)
        ensures
            r == self.correlation_id,
    {
        self.correlation_id
    }
}

/// The cap a topic-metadata request puts on the partitions returned.
#[derive(Debug, Clone, Copy, PartialEq, Eq, Structural)]
pub struct ResponsePartitionLimit(pub i32);

impl ResponsePartitionLimit {
    /// Wraps a partition cap.
    pub fn new(v: i32) -> (r: ResponsePartitionLimit)
        ensures
            r == ResponsePartitionLimit(v),
    {
        ResponsePartitionLimit(v)
    }

    /// The wrapped cap.
    pub fn value(&self) -> (r: i32)
        ensures
            r == self.0,
    {
        self.0
    }

    /// Reads a partition cap from exactly four big-endian bytes; any other
    /// length is refused.
    pub fn mk(bytes: &[u8]) -> (r: Result<ResponsePartitionLimit, Error>)
        ensures
            match r {
                Ok(l) => bytes@.len() == 4 && (spec_dec_u32(bytes@) matches Ok(p) && l
                    == ResponsePartitionLimit(p.0 as i32)),
                Err(e) => bytes@.len() != 4 && e == Error::BadLength,
            },
    {
        if bytes.len() != 4 {
            return Err(Error::BadLength);
        }
        match dec_u32(bytes) {
            Ok((x, _)) => Ok(ResponsePartitionLimit(x as i32)),
            Err(e) => Err(e),
        }
    }
}

/// A request's typed body.
#[derive(Debug, Clone)]
pub enum RequestBody {
    ApiVersions,
    DescribeTopicPartitions {
        topics: Vec<TopicName>,
        limit: ResponsePartitionLimit,
        cursor: Option<Cursor>,
    },
    Fetch {
        max_wait: MaxWait,
        min_bytes: MinBytes,
        max_bytes: MaxBytes,
        isolation_level: IsolationLevel,
        session_id: SessionId,
        session_epoch: SessionEpoch,
        topics: Vec<FetchTopic>,
        forgotten_topics_data: Vec<ForgottenTopicData>,
        rack_id: RackId,
    },
}

/// What a `RequestBody` holds, over mathematical sequences.
pub enum RequestBodyView {
    ApiVersions,
    DescribeTopicPartitions {
        topics: Seq<Seq<char>>,
        limit: ResponsePartitionLimit,
        cursor: Option<Cursor>,
    },
    Fetch {
        max_wait: MaxWait,
        min_bytes: MinBytes,
        max_bytes: MaxBytes,
        isolation_level: IsolationLevel,
        session_id: SessionId,
        session_epoch: SessionEpoch,
        topics: Seq<FetchTopicView>,
        forgotten_topics_data: Seq<ForgottenTopicDataView>,
        rack_id: Seq<char>,
    },
}

impl View for RequestBody {
    type V = RequestBodyView;

    open spec fn view(&self) -> RequestBodyView {
        match self {
            RequestBody::ApiVersions => RequestBodyView::ApiVersions,
            RequestBody::DescribeTopicPartitions { topics, limit, cursor } =>
                RequestBodyView::DescribeTopicPartitions {
                topics: topics@.map_values(|t: TopicName| t@),
                limit: *limit,
                cursor: *cursor,
            },
            RequestBody::Fetch {
                max_wait,
                min_bytes,
                max_bytes,
                isolation_level,
                session_id,
                session_epoch,
                topics,
                forgotten_topics_data,
                rack_id,
            } => RequestBodyView::Fetch {
                max_wait: *max_wait,
                min_bytes: *min_bytes,
                max_bytes: *max_bytes,
                isolation_level: *isolation_level,
                session_id: *session_id,
                session_epoch: *session_epoch,
                topics: topics@.map_values(|t: FetchTopic| t@),
                forgotten_topics_data: forgotten_topics_data@.map_values(
                    |f: ForgottenTopicData| f@,
                ),
                rack_id: rack_id@,
            },
        }
    }
}

/// Decodes `n` consecutive compact-string topic names.
pub open spec fn spec_dec_topic_names(s: Seq<u8>, n: nat) -> Result<
    (Seq<Seq<char>>, Seq<u8>),
    Error,
>
    decreases n,
{
    if n == 0 {
        Ok((Seq::<Seq<char>>::empty(), s))
    } else {
        match spec_dec_compact_string(s) {
            Err(e) => Err(e),
            Ok((t, rest)) => match spec_dec_topic_names(rest, (n - 1) as nat) {
                Err(e) => Err(e),
                Ok((ts, rest2)) => Ok((seq![t] + ts, rest2)),
            },
        }
    }
}

/// Decodes a topic-metadata request's body: a compact array of topic names,
/// the partition cap, and the cursor byte, `0xff` meaning none.
pub open spec fn spec_dec_dtp_body(s: Seq<u8>) -> Result<RequestBodyView, Error> {
    match spec_dec_varint(s) {
        Err(e) => Err(e),
        Ok((l, r1)) => {
            let names = if l == 0 {
                Ok::<(Seq<Seq<char>>, Seq<u8>), Error>((Seq::<Seq<char>>::empty(), r1))
            } else {
                spec_dec_topic_names(r1, (l - 1) as nat)
            };
            match names {
                Err(e) => Err(e),
                Ok((ts, r2)) => match spec_dec_u32(r2) {
                    Err(e) => Err(e),
                    Ok((limit, r3)) => match spec_dec_u8(r3) {
                        Err(e) => Err(e),
                        Ok((cursor, _r4)) => Ok(RequestBodyView::DescribeTopicPartitions {
                            topics: ts,
                            limit: ResponsePartitionLimit(limit as i32),
                            cursor: if cursor == 0xff {
                                None
                            } else {
                                Some(Cursor(cursor))
                            },
                        }),
                    },
                },
            }
        },
    }
}

/// Decodes a fetch request's body: the three limits, the isolation level,
/// the session id and epoch, the topics, a tag buffer, the forgotten topics,
/// and the rack id.
pub open spec fn spec_dec_fetch_body(s: Seq<u8>) -> Result<RequestBodyView, Error> {
    match spec_dec_u32(s) {
        Err(e) => Err(e),
        Ok((max_wait, r1)) => match spec_dec_u32(r1) {
            Err(e) => Err(e),
            Ok((min_bytes, r2)) => match spec_dec_u32(r2) {
                Err(e) => Err(e),
                Ok((max_bytes, r3)) => match spec_dec_u8(r3) {
                    Err(e) => Err(e),
                    Ok((iso, r4)) => match spec_dec_u32(r4) {
                        Err(e) => Err(e),
                        Ok((sid, r5)) => match spec_dec_u32(r5) {
                            Err(e) => Err(e),
                            Ok((sepoch, r6)) => match spec_dec_fetch_topic_array(r6) {
                                Err(e) => Err(e),
                                Ok((topics, r7)) => match spec_dec_u8(r7) {
                                    Err(e) => Err(e),
                                    Ok((_tb, r8)) => match spec_dec_forgotten_topic_array(r8) {
                                        Err(e) => Err(e),
                                        Ok((forgotten, r9)) => match spec_dec_compact_string(r9) {
                                            Err(e) => Err(e),
                                            Ok((rack, _r10)) => Ok(RequestBodyView::Fetch {
                                                max_wait: MaxWait(max_wait),
                                                min_bytes: MinBytes(min_bytes),
                                                max_bytes: MaxBytes(max_bytes),
                                                isolation_level: IsolationLevel(iso),
                                                session_id: SessionId(sid),
                                                session_epoch: SessionEpoch(sepoch),
                                                topics,
                                                forgotten_topics_data: forgotten,
                                                rack_id: rack,
                                            }),
                                        },
                                    },
                                },
                            },
                        },
                    },
                },
            },
        },
    }
}

/// Decodes a request body by its api key.
pub open spec fn spec_dec_body(api_key: ApiKey, s: Seq<u8>) -> Result<RequestBodyView, Error> {
    match api_key {
        ApiKey::ApiVersions => Ok(RequestBodyView::ApiVersions),
        ApiKey::DescribeTopicPartitions => spec_dec_dtp_body(s),
        ApiKey::Fetch => spec_dec_fetch_body(s),
    }
}

fn dec_topic_names(v: &[u8], n: u64) -> (r: Result<(Vec<TopicName>, &[u8]), Error>)
    ensures
        match r {
            Ok((ts, rest)) => spec_dec_topic_names(v@, n as nat) == Ok::<_, Error>(
                (ts@.map_values(|t: TopicName| t@), rest@),
            ),
            Err(e) => spec_dec_topic_names(v@, n as nat) == Err::<
                (Seq<Seq<char>>, Seq<u8>),
                _,
            >(e),
        },
    decreases n,
{
    if n == 0 {
        let empty: Vec<TopicName> = Vec::new();
        assert(empty@.map_values(|t: TopicName| t@) =~= Seq::<Seq<char>>::empty());
        Ok((empty, v))
    } else {
        match dec_compact_string(v) {
            Err(e) => Err(e),
            Ok((t, rest)) => match dec_topic_names(rest, n - 1) {
                Err(e) => Err(e),
                Ok((ts, rest2)) => {
                    let ghost tv = t@;
                    let ghost tsv = ts@.map_values(|x: TopicName| x@);
                    let mut out: Vec<TopicName> = Vec::new();
                    out.push(TopicName(t));
                    let mut tail = ts;
                    out.append(&mut tail);
                    assert(out@.map_values(|x: TopicName| x@) =~= seq![tv] + tsv);
                    Ok((out, rest2))
                },
            },
        }
    }
}

impl RequestBody {
    /// Decodes the body a topic-metadata request carries.
    pub fn describe_topic_partitions(body: &[u8]) -> (r: Result<RequestBody, Error>)
        ensures
            match r {
                Ok(b) => spec_dec_dtp_body(body@) == Ok::<_, Error>(b@),
                Err(e) => spec_dec_dtp_body(body@) == Err::<RequestBodyView, _>(e),
            },
    {
        let (l, r1) = match VarInt::decode(body) {
            Ok(p) => p,
            Err(e) => {
                return Err(e);
            },
        };
        let (topics, r2) = if l.value == 0 {
            let empty: Vec<TopicName> = Vec::new();
            proof {
                assert(empty@.map_values(|t: TopicName| t@) =~= Seq::<Seq<char>>::empty());
            }
            (empty, r1)
        } else {
            match dec_topic_names(r1, l.value - 1) {
                Ok(p) => p,
                Err(e) => {
                    return Err(e);
                },
            }
        };
        let (limit, r3) = match dec_u32(r2) {
            Ok(p) => p,
            Err(e) => {
                return Err(e);
            },
        };
        let (cursor, _r4) = match dec_u8(r3) {
            Ok(p) => p,
            Err(e) => {
                return Err(e);
            },
        };
        Ok(
            RequestBody::DescribeTopicPartitions {
                topics,
                limit: ResponsePartitionLimit(limit as i32),
                cursor: Cursor::mk(cursor),
            },
        )
    }

    /// Decodes the body a fetch request carries.
    pub fn fetch(body: &[u8]) -> (r: Result<RequestBody, Error>)
        ensures
            match r {
                Ok(b) => spec_dec_fetch_body(body@) == Ok::<_, Error>(b@),
                Err(e) => spec_dec_fetch_body(body@) == Err::<RequestBodyView, _>(e),
            },
    {
        let (max_wait, r1) = match dec_u32(body) {
            Ok(p) => p,
            Err(e) => {
                return Err(e);
            },
        };
        let (min_bytes, r2) = match dec_u32(r1) {
            Ok(p) => p,
            Err(e) => {
                return Err(e);
            },
        };
        let (max_bytes, r3) = match dec_u32(r2) {
            Ok(p) => p,
            Err(e) => {
                return Err(e);
            },
        };
        let (iso, r4) = match dec_u8(r3) {
            Ok(p) => p,
            Err(e) => {
                return Err(e);
            },
        };
        let (sid, r5) = match dec_u32(r4) {
            Ok(p) => p,
            Err(e) => {
                return Err(e);
            },
        };
        let (sepoch, r6) = match dec_u32(r5) {
            Ok(p) => p,
            Err(e) => {
                return Err(e);
            },
        };
        let (topics, r7) = match dec_fetch_topic_array(r6) {
            Ok(p) => p,
            Err(e) => {
                return Err(e);
            },
        };
        let (_tb, r8) = match dec_u8(r7) {
            Ok(p) => p,
            Err(e) => {
                return Err(e);
            },
        };
        let (forgotten, r9) = match dec_forgotten_topic_array(r8) {
            Ok(p) => p,
            Err(e) => {
                return Err(e);
            },
        };
        let (rack, _r10) = match dec_compact_string(r9) {
            Ok(p) => p,
            Err(e) => {
                return Err(e);
            },
        };
        Ok(
            RequestBody::Fetch {
                max_wait: MaxWait(max_wait),
                min_bytes: MinBytes(min_bytes),
                max_bytes: MaxBytes(max_bytes),
                isolation_level: IsolationLevel(iso),
                session_id: SessionId(sid),
                session_epoch: SessionEpoch(sepoch),
                topics,
                forgotten_topics_data: forgotten,
                rack_id: RackId(rack),
            },
        )
    }

    /// Decodes a request body by its api key.
    pub fn mk(api_key: ApiKey, body: &[u8]) -> (r: Result<RequestBody, Error>)
        ensures
            match r {
                Ok(b) => spec_dec_body(api_key, body@) == Ok::<_, Error>(b@),
                Err(e) => spec_dec_body(api_key, body@) == Err::<RequestBodyView, _>(e),
            },
    {
        match api_key {
            ApiKey::ApiVersions => Ok(RequestBody::ApiVersions),
            ApiKey::DescribeTopicPartitions => Self::describe_topic_partitions(body),
            ApiKey::Fetch => Self::fetch(body),
        }
    }
}

/// One decoded request.
#[derive(Debug, Clone)]
pub struct Request {
    pub header: RequestHeader,
    pub body: RequestBody,
}

/// What a `Request` holds, over mathematical sequences.
pub struct RequestView {
    pub header: RequestHeaderView,
    pub body: RequestBodyView,
}

impl View for Request {
    type V = RequestView;

    open spec fn view(&self) -> RequestView {
        RequestView { header: self.header@, body: self.body@ }
    }
}

/// Decodes one framed request: the header fields, then the body by api key.
/// An unsupported key or version is reported with the already-decoded
/// correlation id, so the transport can answer with a correlated error.
pub open spec fn spec_dec_request(frame: Seq<u8>) -> Result<RequestView, Error> {
    if frame.len() < 8 {
        Err(Error::Incomplete)
    } else {
        match spec_dec_u32(frame.skip(4)) {
            Err(e) => Err(e),
            Ok((cid, _)) => match spec_dec_u16(frame) {
                Err(e) => Err(e),
                Ok((key_raw, r1)) => match ApiKey::spec_try_from(key_raw) {
                    Err(e) => Err(e.spec_with_correlation_id(cid)),
                    Ok(api_key) => match spec_dec_u16(r1) {
                        Err(e) => Err(e),
                        Ok((ver_raw, r2)) => match Version::spec_try_from(ver_raw) {
                            Err(e) => Err(e.spec_with_correlation_id(cid)),
                            Ok(api_version) => match spec_dec_u32(r2) {
                                Err(e) => Err(e),
                                Ok((_cid2, r3)) => match spec_dec_u16(r3) {
                                    Err(e) => Err(e),
                                    Ok((clen, r4)) => match spec_dec_str(r4, clen as nat) {
                                        Err(e) => Err(e),
                                        Ok((client, r5)) => match spec_dec_u8(r5) {
                                            Err(e) => Err(e),
                                            Ok((_tb, r6)) => match spec_dec_body(api_key, r6) {
                                                Err(e) => Err(e),
                                                Ok(body) => Ok(RequestView {
                                                    header: RequestHeaderView {
                                                        api_key,
                                                        api_version,
                                                        correlation_id: CorrelationId(cid),
                                                        client_id: client,
                                                    },
                                                    body,
                                                }),
                                            },
                                        },
                                    },
                                },
                            },
                        },
                    },
                },
            },
        }
    }
}

impl Request {
    /// Packs a request.
    pub fn new(header: RequestHeader, body: RequestBody) -> (r: Request)
        ensures
            r@.header == header@,
            r@.body == body@,
    {
        Request { header, body }
    }

    /// Reads one request out of the bytes of its frame.
    pub fn decode(frame: &[u8]) -> (r: Result<Request, Error>)
        ensures
            match r {
                Ok(req) => spec_dec_request(frame@) == Ok::<_, Error>(req@),
                Err(e) => spec_dec_request(frame@) == Err::<RequestView, _>(e),
            },
    {
        if frame.len() < 8 {
            return Err(Error::Incomplete);
        }
        let (cid, _) = match dec_u32(crate::pb::take(frame, 4).1) {
            Ok(p) => p,
            Err(e) => {
                return Err(e);
            },
        };
        let (key_raw, r1) = match dec_u16(frame) {
            Ok(p) => p,
            Err(e) => {
                return Err(e);
            },
        };
        let api_key = match ApiKey::try_from_u16(key_raw) {
            Ok(k) => k,
            Err(e) => {
                return Err(e.with_correlation_id(cid));
            },
        };
        let (ver_raw, r2) = match dec_u16(r1) {
            Ok(p) => p,
            Err(e) => {
                return Err(e);
            },
        };
        let api_version = match Version::try_from_u16(ver_raw) {
            Ok(v) => v,
            Err(e) => {
                return Err(e.with_correlation_id(cid));
            },
        };
        let (_cid2, r3) = match dec_u32(r2) {
            Ok(p) => p,
            Err(e) => {
                return Err(e);
            },
        };
        let (clen, r4) = match dec_u16(r3) {
            Ok(p) => p,
            Err(e) => {
                return Err(e);
            },
        };
        let (client, r5) = match dec_str(r4, clen as usize) {
            Ok(p) => p,
            Err(e) => {
                return Err(e);
            },
        };
        let (_tb, r6) = match dec_u8(r5) {
            Ok(p) => p,
            Err(e) => {
                return Err(e);
            },
        };
        let body = match RequestBody::mk(api_key, r6) {
            Ok(b) => b,
            Err(e) => {
                return Err(e);
            },
        };
        Ok(
            Request {
                header: RequestHeader {
                    api_key,
                    api_version,
                    correlation_id: CorrelationId(cid),
                    client_id: ClientId(client),
                },
                body,
            },
        )
    }
}

} // verus!
