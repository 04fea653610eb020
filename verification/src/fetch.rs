//! The fetch request's typed body and the fetch response's encoders.

use vstd::prelude::*;

use crate::error::Error;
use crate::meta::{spec_enc_batch, Batch, BatchOffset, BatchView};
use crate::partition::{
    CurrentLeaderEpoch, FetchOffset, LastFetchEpoch, LogStartOffset, PartitionIndex,
    PartitionMaxBytes,
};
use crate::pb::{
    dec_u32, dec_u32_array, dec_u64, dec_u8, len_plus_one, spec_dec_u32, spec_dec_u32_array,
    spec_dec_u64, spec_dec_u8, spec_dec_uuid, spec_dec_varint, spec_enc_u16, spec_enc_u32,
    spec_enc_u64, spec_enc_varint, spec_len1, VarInt,
};
use crate::topic::TopicId;
use crate::types::{ErrorCode, HighWatermark, LastStableOffset, PreferredReadReplica, ProducerId};
use crate::types::FirstOffset;

verus! {

/// One partition a fetch request asks about.
#[derive(Debug, Clone, Copy, PartialEq, Eq, Structural)]
pub struct FetchPartition {
    pub partition_index: PartitionIndex,
    pub current_leader_epoch: CurrentLeaderEpoch,
    pub fetch_offset: FetchOffset,
    pub last_fetch_epoch: LastFetchEpoch,
    pub log_start_offset: LogStartOffset,
    pub partition_max_bytes: PartitionMaxBytes,
}

/// Decodes one fetch partition: six fixed-width fields, then a tag buffer.
pub open spec fn spec_dec_fetch_partition(s: Seq<u8>) -> Result<(FetchPartition, Seq<u8>), Error> {
    match spec_dec_u32(s) {
        Err(e) => Err(e),
        Ok((index, r1)) => match spec_dec_u32(r1) {
            Err(e) => Err(e),
            Ok((cle, r2)) => match spec_dec_u64(r2) {
                Err(e) => Err(e),
                Ok((off, r3)) => match spec_dec_u32(r3) {
                    Err(e) => Err(e),
                    Ok((lfe, r4)) => match spec_dec_u64(r4) {
                        Err(e) => Err(e),
                        Ok((lso, r5)) => match spec_dec_u32(r5) {
                            Err(e) => Err(e),
                            Ok((pmb, r6)) => match spec_dec_u8(r6) {
                                Err(e) => Err(e),
                                Ok((_tb, r7)) => Ok((
                                    FetchPartition {
                                        partition_index: PartitionIndex(index),
                                        current_leader_epoch: CurrentLeaderEpoch(cle),
                                        fetch_offset: FetchOffset(off),
                                        last_fetch_epoch: LastFetchEpoch(lfe),
                                        log_start_offset: LogStartOffset(lso),
                                        partition_max_bytes: PartitionMaxBytes(pmb),
                                    },
                                    r7,
                                )),
                            },
                        },
                    },
                },
            },
        },
    }
}

impl FetchPartition {
    /// Reads one fetch partition off the front of the input.
    pub fn try_extract(v: &[u8]) -> (r: Result<(FetchPartition, &[u8]), Error>)
        ensures
            match r {
                Ok((p, rest)) => spec_dec_fetch_partition(v@) == Ok::<_, Error>((p, rest@)),
                Err(e) => spec_dec_fetch_partition(v@) == Err::<(FetchPartition, Seq<u8>), _>(e),
            },
    {
        let (index, r1) = match dec_u32(v) {
            Ok(p) => p,
            Err(e) => {
                return Err(e);
            },
        };
        let (cle, r2) = match dec_u32(r1) {
            Ok(p) => p,
            Err(e) => {
                return Err(e);
            },
        };
        let (off, r3) = match dec_u64(r2) {
            Ok(p) => p,
            Err(e) => {
                return Err(e);
            },
        };
        let (lfe, r4) = match dec_u32(r3) {
            Ok(p) => p,
            Err(e) => {
                return Err(e);
            },
        };
        let (lso, r5) = match dec_u64(r4) {
            Ok(p) => p,
            Err(e) => {
                return Err(e);
            },
        };
        let (pmb, r6) = match dec_u32(r5) {
            Ok(p) => p,
            Err(e) => {
                return Err(e);
            },
        };
        let (_tb, r7) = match dec_u8(r6) {
            Ok(p) => p,
            Err(e) => {
                return Err(e);
            },
        };
        Ok((
            FetchPartition {
                partition_index: PartitionIndex(index),
                current_leader_epoch: CurrentLeaderEpoch(cle),
                fetch_offset: FetchOffset(off),
                last_fetch_epoch: LastFetchEpoch(lfe),
                log_start_offset: LogStartOffset(lso),
                partition_max_bytes: PartitionMaxBytes(pmb),
            },
            r7,
        ))
    }
}

/// Decodes `n` consecutive fetch partitions.
pub open spec fn spec_dec_fetch_partitions(s: Seq<u8>, n: nat) -> Result<
    (Seq<FetchPartition>, Seq<u8>),
    Error,
>
    decreases n,
{
    if n == 0 {
        Ok((Seq::<FetchPartition>::empty(), s))
    } else {
        match spec_dec_fetch_partition(s) {
            Err(e) => Err(e),
            Ok((p, rest)) => match spec_dec_fetch_partitions(rest, (n - 1) as nat) {
                Err(e) => Err(e),
                Ok((ps, rest2)) => Ok((seq![p] + ps, rest2)),
            },
        }
    }
}

/// Decodes a compact array of fetch partitions.
pub open spec fn spec_dec_fetch_partition_array(s: Seq<u8>) -> Result<
    (Seq<FetchPartition>, Seq<u8>),
    Error,
> {
    match spec_dec_varint(s) {
        Err(e) => Err(e),
        Ok((l, rest)) => if l == 0 {
            Ok((Seq::<FetchPartition>::empty(), rest))
        } else {
            spec_dec_fetch_partitions(rest, (l - 1) as nat)
        },
    }
}

fn dec_fetch_partitions(v: &[u8], n: u64) -> (r: Result<(Vec<FetchPartition>, &[u8]), Error>)
    ensures
        match r {
            Ok((ps, rest)) => spec_dec_fetch_partitions(v@, n as nat) == Ok::<_, Error>(
                (ps@, rest@),
            ),
            Err(e) => spec_dec_fetch_partitions(v@, n as nat) == Err::<
                (Seq<FetchPartition>, Seq<u8>),
                _,
            >(e),
        },
    decreases n,
{
    if n == 0 {
        let empty: Vec<FetchPartition> = Vec::new();
        assert(empty@ =~= Seq::<FetchPartition>::empty());
        Ok((empty, v))
    } else {
        match FetchPartition::try_extract(v) {
            Err(e) => Err(e),
            Ok((p, rest)) => match dec_fetch_partitions(rest, n - 1) {
                Err(e) => Err(e),
                Ok((ps, rest2)) => {
                    let ghost psv = ps@;
                    let mut out: Vec<FetchPartition> = Vec::new();
                    out.push(p);
                    let mut tail = ps;
                    out.append(&mut tail);
                    assert(out@ =~= seq![p] + psv);
                    Ok((out, rest2))
                },
            },
        }
    }
}

fn dec_fetch_partition_array(v: &[u8]) -> (r: Result<(Vec<FetchPartition>, &[u8]), Error>)
    ensures
        match r {
            Ok((ps, rest)) => spec_dec_fetch_partition_array(v@) == Ok::<_, Error>((ps@, rest@)),
            Err(e) => spec_dec_fetch_partition_array(v@) == Err::<
                (Seq<FetchPartition>, Seq<u8>),
                _,
            >(e),
        },
{
    match VarInt::decode(v) {
        Err(e) => Err(e),
        Ok((l, rest)) => {
            if l.value == 0 {
                let empty: Vec<FetchPartition> = Vec::new();
                assert(empty@ =~= Seq::<FetchPartition>::empty());
                Ok((empty, rest))
            } else {
                dec_fetch_partitions(rest, l.value - 1)
            }
        },
    }
}

/// One topic a fetch request asks about.
#[derive(Debug, Clone)]
pub struct FetchTopic {
    pub topic_id: TopicId,
    pub partitions: Vec<FetchPartition>,
}

/// What a `FetchTopic` holds, over mathematical sequences.
pub struct FetchTopicView {
    pub topic_id: Seq<u8>,
    pub partitions: Seq<FetchPartition>,
}

impl View for FetchTopic {
    type V = FetchTopicView;

    open spec fn view(&self) -> FetchTopicView {
        FetchTopicView { topic_id: self.topic_id@, partitions: self.partitions@ }
    }
}

/// Decodes one fetch topic: its sixteen id bytes, then its partitions.
pub open spec fn spec_dec_fetch_topic(s: Seq<u8>) -> Result<(FetchTopicView, Seq<u8>), Error> {
    match spec_dec_uuid(s) {
        Err(e) => Err(e),
        Ok((id, r1)) => match spec_dec_fetch_partition_array(r1) {
            Err(e) => Err(e),
            Ok((ps, r2)) => Ok((FetchTopicView { topic_id: id, partitions: ps }, r2)),
        },
    }
}

impl FetchTopic {
    /// The topic's id.
    pub fn topic_id(&self) -> (r: TopicId)
        ensures
            r@ == self@.topic_id,
    {
        TopicId(vstd::slice::slice_to_vec(self.topic_id.0.as_slice()))
    }

    /// Reads one fetch topic off the front of the input.
    pub fn try_extract(v: &[u8]) -> (r: Result<(FetchTopic, &[u8]), Error>)
        ensures
            match r {
                Ok((t, rest)) => spec_dec_fetch_topic(v@) == Ok::<_, Error>((t@, rest@)),
                Err(e) => spec_dec_fetch_topic(v@) == Err::<(FetchTopicView, Seq<u8>), _>(e),
            },
    {
        let (id, r1) = match crate::pb::dec_uuid(v) {
            Ok(p) => p,
            Err(e) => {
                return Err(e);
            },
        };
        let (ps, r2) = match dec_fetch_partition_array(r1) {
            Ok(p) => p,
            Err(e) => {
                return Err(e);
            },
        };
        Ok((FetchTopic { topic_id: TopicId(id), partitions: ps }, r2))
    }
}

/// Decodes `n` consecutive fetch topics.
pub open spec fn spec_dec_fetch_topics(s: Seq<u8>, n: nat) -> Result<
    (Seq<FetchTopicView>, Seq<u8>),
    Error,
>
    decreases n,
{
    if n == 0 {
        Ok((Seq::<FetchTopicView>::empty(), s))
    } else {
        match spec_dec_fetch_topic(s) {
            Err(e) => Err(e),
            Ok((t, rest)) => match spec_dec_fetch_topics(rest, (n - 1) as nat) {
                Err(e) => Err(e),
                Ok((ts, rest2)) => Ok((seq![t] + ts, rest2)),
            },
        }
    }
}

/// Decodes a compact array of fetch topics.
pub open spec fn spec_dec_fetch_topic_array(s: Seq<u8>) -> Result<
    (Seq<FetchTopicView>, Seq<u8>),
    Error,
> {
    match spec_dec_varint(s) {
        Err(e) => Err(e),
        Ok((l, rest)) => if l == 0 {
            Ok((Seq::<FetchTopicView>::empty(), rest))
        } else {
            spec_dec_fetch_topics(rest, (l - 1) as nat)
        },
    }
}

fn dec_fetch_topics(v: &[u8], n: u64) -> (r: Result<(Vec<FetchTopic>, &[u8]), Error>)
    ensures
        match r {
            Ok((ts, rest)) => spec_dec_fetch_topics(v@, n as nat) == Ok::<_, Error>(
                (ts@.map_values(|t: FetchTopic| t@), rest@),
            ),
            Err(e) => spec_dec_fetch_topics(v@, n as nat) == Err::<
                (Seq<FetchTopicView>, Seq<u8>),
                _,
            >(e),
        },
    decreases n,
{
    if n == 0 {
        let empty: Vec<FetchTopic> = Vec::new();
        assert(empty@.map_values(|t: FetchTopic| t@) =~= Seq::<FetchTopicView>::empty());
        Ok((empty, v))
    } else {
        match FetchTopic::try_extract(v) {
            Err(e) => Err(e),
            Ok((t, rest)) => match dec_fetch_topics(rest, n - 1) {
                Err(e) => Err(e),
                Ok((ts, rest2)) => {
                    let ghost tv = t@;
                    let ghost tsv = ts@.map_values(|x: FetchTopic| x@);
                    let mut out: Vec<FetchTopic> = Vec::new();
                    out.push(t);
                    let mut tail = ts;
                    out.append(&mut tail);
                    assert(out@.map_values(|x: FetchTopic| x@) =~= seq![tv] + tsv);
                    Ok((out, rest2))
                },
            },
        }
    }
}

/// Reads a compact array of fetch topics off the front of the input.
pub fn dec_fetch_topic_array(v: &[u8]) -> (r: Result<(Vec<FetchTopic>, &[u8]), Error>)
    ensures
        match r {
            Ok((ts, rest)) => spec_dec_fetch_topic_array(v@) == Ok::<_, Error>(
                (ts@.map_values(|t: FetchTopic| t@), rest@),
            ),
            Err(e) => spec_dec_fetch_topic_array(v@) == Err::<
                (Seq<FetchTopicView>, Seq<u8>),
                _,
            >(e),
        },
{
    match VarInt::decode(v) {
        Err(e) => Err(e),
        Ok((l, rest)) => {
            if l.value == 0 {
                let empty: Vec<FetchTopic> = Vec::new();
                assert(empty@.map_values(|t: FetchTopic| t@) =~= Seq::<FetchTopicView>::empty());
                Ok((empty, rest))
            } else {
                dec_fetch_topics(rest, l.value - 1)
            }
        },
    }
}

/// One topic a fetch request asks the broker to forget.
#[derive(Debug, Clone)]
pub struct ForgottenTopicData(pub TopicId, pub Vec<PartitionIndex>);

/// What a `ForgottenTopicData` holds, over mathematical sequences.
pub struct ForgottenTopicDataView {
    pub topic_id: Seq<u8>,
    pub partitions: Seq<PartitionIndex>,
}

impl View for ForgottenTopicData {
    type V = ForgottenTopicDataView;

    open spec fn view(&self) -> ForgottenTopicDataView {
        ForgottenTopicDataView { topic_id: self.0@, partitions: self.1@ }
    }
}

/// Decodes one forgotten-topic entry: its sixteen id bytes, then a compact
/// array of partition indexes.
pub open spec fn spec_dec_forgotten_topic(s: Seq<u8>) -> Result<
    (ForgottenTopicDataView, Seq<u8>),
    Error,
> {
    match spec_dec_uuid(s) {
        Err(e) => Err(e),
        Ok((id, r1)) => match spec_dec_u32_array(r1) {
            Err(e) => Err(e),
            Ok((ps, r2)) => Ok((
                ForgottenTopicDataView {
                    topic_id: id,
                    partitions: ps.map_values(|x: u32| PartitionIndex(x)),
                },
                r2,
            )),
        },
    }
}

impl ForgottenTopicData {
    /// Packs a forgotten-topic entry.
    pub fn new(topic_id: TopicId, partitions: Vec<PartitionIndex>) -> (r: ForgottenTopicData)
        ensures
            r@.topic_id == topic_id@,
            r@.partitions == partitions@,
    {
        ForgottenTopicData(topic_id, partitions)
    }

    /// Reads one forgotten-topic entry off the front of the input.
    pub fn try_extract(v: &[u8]) -> (r: Result<(ForgottenTopicData, &[u8]), Error>)
        ensures
            match r {
                Ok((f, rest)) => spec_dec_forgotten_topic(v@) == Ok::<_, Error>((f@, rest@)),
                Err(e) => spec_dec_forgotten_topic(v@) == Err::<
                    (ForgottenTopicDataView, Seq<u8>),
                    _,
                >(e),
            },
    {
        let (id, r1) = match crate::pb::dec_uuid(v) {
            Ok(p) => p,
            Err(e) => {
                return Err(e);
            },
        };
        let (ps, r2) = match dec_u32_array(r1) {
            Ok(p) => p,
            Err(e) => {
                return Err(e);
            },
        };
        let mut indexes: Vec<PartitionIndex> = Vec::new();
        let mut i: usize = 0;
        while i < ps.len()
            invariant
                i <= ps@.len(),
                indexes@ == ps@.map_values(|x: u32| PartitionIndex(x)).take(i as int),
            decreases ps@.len() - i,
        {
            indexes.push(PartitionIndex(ps[i]));
            i = i + 1;
            proof {
                assert(indexes@ =~= ps@.map_values(|x: u32| PartitionIndex(x)).take(i as int));
            }
        }
        proof {
            assert(indexes@ =~= ps@.map_values(|x: u32| PartitionIndex(x)));
        }
        Ok((ForgottenTopicData(TopicId(id), indexes), r2))
    }
}

/// Decodes `n` consecutive forgotten-topic entries.
pub open spec fn spec_dec_forgotten_topics(s: Seq<u8>, n: nat) -> Result<
    (Seq<ForgottenTopicDataView>, Seq<u8>),
    Error,
>
    decreases n,
{
    if n == 0 {
        Ok((Seq::<ForgottenTopicDataView>::empty(), s))
    } else {
        match spec_dec_forgotten_topic(s) {
            Err(e) => Err(e),
            Ok((f, rest)) => match spec_dec_forgotten_topics(rest, (n - 1) as nat) {
                Err(e) => Err(e),
                Ok((fs, rest2)) => Ok((seq![f] + fs, rest2)),
            },
        }
    }
}

/// Decodes a compact array of forgotten-topic entries.
pub open spec fn spec_dec_forgotten_topic_array(s: Seq<u8>) -> Result<
    (Seq<ForgottenTopicDataView>, Seq<u8>),
    Error,
> {
    match spec_dec_varint(s) {
        Err(e) => Err(e),
        Ok((l, rest)) => if l == 0 {
            Ok((Seq::<ForgottenTopicDataView>::empty(), rest))
        } else {
            spec_dec_forgotten_topics(rest, (l - 1) as nat)
        },
    }
}

fn dec_forgotten_topics(v: &[u8], n: u64) -> (r: Result<(Vec<ForgottenTopicData>, &[u8]), Error>)
    ensures
        match r {
            Ok((fs, rest)) => spec_dec_forgotten_topics(v@, n as nat) == Ok::<_, Error>(
                (fs@.map_values(|f: ForgottenTopicData| f@), rest@),
            ),
            Err(e) => spec_dec_forgotten_topics(v@, n as nat) == Err::<
                (Seq<ForgottenTopicDataView>, Seq<u8>),
                _,
            >(e),
        },
    decreases n,
{
    if n == 0 {
        let empty: Vec<ForgottenTopicData> = Vec::new();
        assert(empty@.map_values(|f: ForgottenTopicData| f@) =~= Seq::<
            ForgottenTopicDataView,
        >::empty());
        Ok((empty, v))
    } else {
        match ForgottenTopicData::try_extract(v) {
            Err(e) => Err(e),
            Ok((f, rest)) => match dec_forgotten_topics(rest, n - 1) {
                Err(e) => Err(e),
                Ok((fs, rest2)) => {
                    let ghost fv = f@;
                    let ghost fsv = fs@.map_values(|x: ForgottenTopicData| x@);
                    let mut out: Vec<ForgottenTopicData> = Vec::new();
                    out.push(f);
                    let mut tail = fs;
                    out.append(&mut tail);
                    assert(out@.map_values(|x: ForgottenTopicData| x@) =~= seq![fv] + fsv);
                    Ok((out, rest2))
                },
            },
        }
    }
}

/// Reads a compact array of forgotten-topic entries off the front of the
/// input.
pub fn dec_forgotten_topic_array(v: &[u8]) -> (r: Result<(Vec<ForgottenTopicData>, &[u8]), Error>)
    ensures
        match r {
            Ok((fs, rest)) => spec_dec_forgotten_topic_array(v@) == Ok::<_, Error>(
                (fs@.map_values(|f: ForgottenTopicData| f@), rest@),
            ),
            Err(e) => spec_dec_forgotten_topic_array(v@) == Err::<
                (Seq<ForgottenTopicDataView>, Seq<u8>),
                _,
            >(e),
        },
{
    match VarInt::decode(v) {
        Err(e) => Err(e),
        Ok((l, rest)) => {
            if l.value == 0 {
                let empty: Vec<ForgottenTopicData> = Vec::new();
                assert(empty@.map_values(|f: ForgottenTopicData| f@) =~= Seq::<
                    ForgottenTopicDataView,
                >::empty());
                Ok((empty, rest))
            } else {
                dec_forgotten_topics(rest, l.value - 1)
            }
        },
    }
}

// ---------------------------------------------------------------------------
// The fetch response
// ---------------------------------------------------------------------------

/// One transaction a fetch response reports as aborted.
#[derive(Debug, Clone, Copy, PartialEq, Eq, Structural)]
pub struct AbortedTransaction {
    pub producer_id: ProducerId,
    pub first_offset: FirstOffset,
}

/// The wire form of one aborted transaction: the producer id and the first
/// offset, each eight bytes.
pub open spec fn spec_enc_aborted(a: AbortedTransaction) -> Seq<u8> {
    spec_enc_u64(a.producer_id.0) + spec_enc_u64(a.first_offset.0)
}

/// The concatenated wire forms of the aborted transactions.
pub open spec fn spec_enc_aborteds(xs: Seq<AbortedTransaction>) -> Seq<u8>
    decreases xs.len(),
{
    if xs.len() == 0 {
        Seq::<u8>::empty()
    } else {
        spec_enc_aborted(xs[0]) + spec_enc_aborteds(xs.skip(1))
    }
}

/// The concatenated wire forms of the batches, each renumbered to sit at its
/// position in the list, counted from `k`.
pub open spec fn spec_enc_batches_renumbered(bs: Seq<BatchView>, k: nat) -> Seq<u8>
    decreases bs.len(),
{
    if bs.len() == 0 {
        Seq::<u8>::empty()
    } else {
        spec_enc_batch(BatchView { batch_offset: BatchOffset(k as u64), ..bs[0] })
            + spec_enc_batches_renumbered(bs.skip(1), k + 1)
    }
}

/// One partition's part of a fetch response.
#[derive(Debug, Clone)]
pub struct FetchPartitionResponse {
    pub partition_index: PartitionIndex,
    pub error_code: ErrorCode,
    pub high_watermark: HighWatermark,
    pub last_stable_offset: LastStableOffset,
    pub log_start_offset: LogStartOffset,
    pub aborted_transactions: Vec<AbortedTransaction>,
    pub preferred_read_replica: PreferredReadReplica,
    pub batches: Vec<Batch>,
}

/// What a `FetchPartitionResponse` holds, over mathematical sequences.
pub struct FetchPartitionResponseView {
    pub partition_index: PartitionIndex,
    pub error_code: ErrorCode,
    pub high_watermark: HighWatermark,
    pub last_stable_offset: LastStableOffset,
    pub log_start_offset: LogStartOffset,
    pub aborted_transactions: Seq<AbortedTransaction>,
    pub preferred_read_replica: PreferredReadReplica,
    pub batches: Seq<BatchView>,
}

impl View for FetchPartitionResponse {
    type V = FetchPartitionResponseView;

    open spec fn view(&self) -> FetchPartitionResponseView {
        FetchPartitionResponseView {
            partition_index: self.partition_index,
            error_code: self.error_code,
            high_watermark: self.high_watermark,
            last_stable_offset: self.last_stable_offset,
            log_start_offset: self.log_start_offset,
            aborted_transactions: self.aborted_transactions@,
            preferred_read_replica: self.preferred_read_replica,
            batches: self.batches@.map_values(|b: Batch| b@),
        }
    }
}

/// The record bytes of one partition response: its batches renumbered from
/// offset zero.
pub open spec fn spec_partition_records_bytes(p: FetchPartitionResponseView) -> Seq<u8> {
    spec_enc_batches_renumbered(p.batches, 0)
}

/// The head of one partition response's wire form: the index, the error
/// code, the three offsets, the aborted transactions as a compact array, and
/// the preferred read replica.
pub open spec fn spec_fpr_head(p: FetchPartitionResponseView) -> Seq<u8> {
    spec_enc_u32(p.partition_index.0) + spec_enc_u16(p.error_code.spec_value() as u16)
        + spec_enc_u64(p.high_watermark.0) + spec_enc_u64(p.last_stable_offset.0) + spec_enc_u64(
        p.log_start_offset.0,
    ) + spec_enc_varint(spec_len1(p.aborted_transactions.len())) + spec_enc_aborteds(
        p.aborted_transactions,
    ) + spec_enc_u32(p.preferred_read_replica.0)
}

/// The wire form of one partition response: its head, then the record bytes
/// behind their varint byte length, and a tag buffer.
pub open spec fn spec_enc_fetch_partition_response(p: FetchPartitionResponseView) -> Seq<u8> {
    spec_fpr_head(p) + spec_enc_varint(spec_partition_records_bytes(p).len() as nat)
        + spec_partition_records_bytes(p) + seq![0u8]
}

/// Appending one batch appends its renumbered bytes to the encoding.
proof fn lemma_enc_batches_renumbered_snoc(bs: Seq<BatchView>, b: BatchView, k: nat)
    ensures
        spec_enc_batches_renumbered(bs.push(b), k) == spec_enc_batches_renumbered(bs, k)
            + spec_enc_batch(
            BatchView { batch_offset: BatchOffset((k + bs.len()) as u64), ..b },
        ),
    decreases bs.len(),
{
    let p = bs.push(b);
    assert(p.len() == bs.len() + 1);
    if bs.len() == 0 {
        assert(p[0] == b);
        assert(p.skip(1) =~= Seq::<BatchView>::empty());
        assert(spec_enc_batches_renumbered(p, k) == spec_enc_batch(
            BatchView { batch_offset: BatchOffset(k as u64), ..b },
        ) + spec_enc_batches_renumbered(Seq::<BatchView>::empty(), k + 1));
        assert(spec_enc_batches_renumbered(p, k) =~= spec_enc_batches_renumbered(bs, k)
            + spec_enc_batch(BatchView { batch_offset: BatchOffset((k + bs.len()) as u64), ..b }));
    } else {
        assert(p[0] == bs[0]);
        assert(p.skip(1) =~= bs.skip(1).push(b));
        lemma_enc_batches_renumbered_snoc(bs.skip(1), b, k + 1);
        vstd::seq_lib::lemma_concat_associative(
            spec_enc_batch(BatchView { batch_offset: BatchOffset(k as u64), ..bs[0] }),
            spec_enc_batches_renumbered(bs.skip(1), k + 1),
            spec_enc_batch(
                BatchView { batch_offset: BatchOffset((k + bs.len()) as u64), ..b },
            ),
        );
    }
}

/// The concatenated wire forms of the batches, renumbered from `start`.
fn enc_batches_renumbered(bs: &Vec<Batch>, start: u64) -> (r: Vec<u8>)
    requires
        start + bs@.len() <= u64::MAX,
    ensures
        r@ == spec_enc_batches_renumbered(bs@.map_values(|b: Batch| b@), start as nat),
{
    let ghost views = bs@.map_values(|b: Batch| b@);
    let mut out: Vec<u8> = Vec::new();
    let mut i: usize = 0;
    while i < bs.len()
        invariant
            i <= bs@.len(),
            start + bs@.len() <= u64::MAX,
            views == bs@.map_values(|b: Batch| b@),
            out@ == spec_enc_batches_renumbered(views.take(i as int), start as nat),
        decreases bs@.len() - i,
    {
        let mut body = bs[i].to_bytes_at(start + (i as u64));
        out.append(&mut body);
        i = i + 1;
        proof {
            lemma_enc_batches_renumbered_snoc(
                views.take(i as int - 1),
                views[i as int - 1],
                start as nat,
            );
            assert(views.take(i as int) =~= views.take(i as int - 1).push(views[i as int - 1]));
        }
    }
    proof {
        assert(views.take(views.len() as int) =~= views);
    }
    out
}

impl FetchPartitionResponse {
    /// Packs the partition response for a topic that is known: no error, all
    /// offsets zero, and the loaded batches.
    pub fn new(partition_index: PartitionIndex, batches: Vec<Batch>) -> (r: FetchPartitionResponse)
        ensures
            r@ == (FetchPartitionResponseView {
                partition_index,
                error_code: ErrorCode::NoError,
                high_watermark: HighWatermark(0),
                last_stable_offset: LastStableOffset(0),
                log_start_offset: LogStartOffset(0),
                aborted_transactions: Seq::<AbortedTransaction>::empty(),
                preferred_read_replica: PreferredReadReplica(0),
                batches: batches@.map_values(|b: Batch| b@),
            }),
    {
        let r = FetchPartitionResponse {
            partition_index,
            error_code: ErrorCode::NoError,
            high_watermark: HighWatermark(0),
            last_stable_offset: LastStableOffset(0),
            log_start_offset: LogStartOffset(0),
            aborted_transactions: Vec::new(),
            preferred_read_replica: PreferredReadReplica(0),
            batches,
        };
        proof {
            assert(r@.aborted_transactions =~= Seq::<AbortedTransaction>::empty());
        }
        r
    }

    /// Packs the partition response for a topic that is not known: the
    /// unknown-topic error and no records.
    pub fn unknown(partition_index: PartitionIndex) -> (r: FetchPartitionResponse)
        ensures
            r@ == (FetchPartitionResponseView {
                partition_index,
                error_code: ErrorCode::UnknownTopic,
                high_watermark: HighWatermark(0),
                last_stable_offset: LastStableOffset(0),
                log_start_offset: LogStartOffset(0),
                aborted_transactions: Seq::<AbortedTransaction>::empty(),
                preferred_read_replica: PreferredReadReplica(0),
                batches: Seq::<BatchView>::empty(),
            }),
    {
        let r = FetchPartitionResponse {
            partition_index,
            error_code: ErrorCode::UnknownTopic,
            high_watermark: HighWatermark(0),
            last_stable_offset: LastStableOffset(0),
            log_start_offset: LogStartOffset(0),
            aborted_transactions: Vec::new(),
            preferred_read_replica: PreferredReadReplica(0),
            batches: Vec::new(),
        };
        proof {
            assert(r@.aborted_transactions =~= Seq::<AbortedTransaction>::empty());
            assert(r@.batches =~= Seq::<BatchView>::empty());
        }
        r
    }

    /// The concatenated wire forms of this response's aborted transactions.
    fn enc_aborted_list(&self) -> (r: Vec<u8>)
        ensures
            r@ == spec_enc_aborteds(self.aborted_transactions@),
    {
        let mut out: Vec<u8> = Vec::new();
        let mut i: usize = 0;
        while i < self.aborted_transactions.len()
            invariant
                i <= self.aborted_transactions@.len(),
                out@ == spec_enc_aborteds(self.aborted_transactions@.take(i as int)),
            decreases self.aborted_transactions@.len() - i,
        {
            let a = self.aborted_transactions[i];
            let ghost before = out@;
            crate::pb::enc_u64(&mut out, a.producer_id.0);
            crate::pb::enc_u64(&mut out, a.first_offset.0);
            i = i + 1;
            proof {
                lemma_enc_aborteds_snoc(
                    self.aborted_transactions@.take(i as int - 1),
                    self.aborted_transactions@[i as int - 1],
                );
                assert(self.aborted_transactions@.take(i as int)
                    =~= self.aborted_transactions@.take(i as int - 1).push(
                    self.aborted_transactions@[i as int - 1],
                ));
                vstd::seq_lib::lemma_concat_associative(
                    before,
                    spec_enc_u64(self.aborted_transactions@[i as int - 1].producer_id.0),
                    spec_enc_u64(self.aborted_transactions@[i as int - 1].first_offset.0),
                );
            }
        }
        proof {
            assert(self.aborted_transactions@.take(self.aborted_transactions@.len() as int)
                =~= self.aborted_transactions@);
        }
        out
    }

    /// The head of this partition response's wire form, everything before
    /// the record bytes.
    fn encode_head(&self) -> (r: Vec<u8>)
        ensures
            r@ == spec_fpr_head(self@),
    {
        let mut body: Vec<u8> = Vec::new();
        crate::pb::enc_u32(&mut body, self.partition_index.0);
        proof {
            crate::pb::lemma_empty_prefix(spec_enc_u32(self.partition_index.0));
        }
        crate::pb::enc_u16(&mut body, self.error_code.value() as u16);
        crate::pb::enc_u64(&mut body, self.high_watermark.0);
        crate::pb::enc_u64(&mut body, self.last_stable_offset.0);
        crate::pb::enc_u64(&mut body, self.log_start_offset.0);
        let mut alen = VarInt::encode(len_plus_one(self.aborted_transactions.len()));
        body.append(&mut alen);
        let mut aborted = self.enc_aborted_list();
        body.append(&mut aborted);
        crate::pb::enc_u32(&mut body, self.preferred_read_replica.0);
        body
    }

    /// This response's record bytes behind their varint byte length.
    #[verifier::spinoff_prover]
    #[verifier::rlimit(100)]
    fn records_with_len(&self) -> (r: Vec<u8>)
        ensures
            r@ == spec_enc_varint(spec_partition_records_bytes(self@).len() as nat)
                + spec_partition_records_bytes(self@),
    {
        proof {
            vstd::std_specs::vec::axiom_spec_len(&self.batches);
        }
        let records = enc_batches_renumbered(&self.batches, 0);
        proof {
            assert(self.batches@.map_values(|b: Batch| b@) =~= self@.batches);
            assert(records@ == spec_partition_records_bytes(self@));
        }
        let mut out = VarInt::encode(records.len() as u64);
        let mut body = records;
        out.append(&mut body);
        out
    }

    /// Appends the wire form of this partition response to `out`.
    #[verifier::spinoff_prover]
    #[verifier::rlimit(100)]
    pub fn encode(&self, out: &mut Vec<u8>)
        ensures
            final(out)@ == old(out)@ + spec_enc_fetch_partition_response(self@),
    {
        let mut body = self.encode_head();
        let mut framed = self.records_with_len();
        body.append(&mut framed);
        let ghost before_tag = body@;
        body.push(0u8);
        proof {
            crate::pb::lemma_push_is_concat(before_tag, 0u8);
            vstd::seq_lib::lemma_concat_associative(
                spec_fpr_head(self@),
                spec_enc_varint(spec_partition_records_bytes(self@).len() as nat),
                spec_partition_records_bytes(self@),
            );
            assert(body@ == spec_enc_fetch_partition_response(self@));
        }
        out.append(&mut body);
    }
}

/// Appending one aborted transaction appends its bytes to the encoding.
proof fn lemma_enc_aborteds_snoc(xs: Seq<AbortedTransaction>, x: AbortedTransaction)
    ensures
        spec_enc_aborteds(xs.push(x)) == spec_enc_aborteds(xs) + spec_enc_aborted(x),
    decreases xs.len(),
{
    let p = xs.push(x);
    assert(p.len() == xs.len() + 1);
    if xs.len() == 0 {
        assert(p[0] == x);
        assert(p.skip(1) =~= Seq::<AbortedTransaction>::empty());
        assert(spec_enc_aborteds(p) == spec_enc_aborted(x) + spec_enc_aborteds(
            Seq::<AbortedTransaction>::empty(),
        ));
        assert(spec_enc_aborteds(p) =~= spec_enc_aborteds(xs) + spec_enc_aborted(x));
    } else {
        assert(p[0] == xs[0]);
        assert(p.skip(1) =~= xs.skip(1).push(x));
        lemma_enc_aborteds_snoc(xs.skip(1), x);
        assert(spec_enc_aborteds(p) == spec_enc_aborted(xs[0]) + spec_enc_aborteds(
            xs.skip(1).push(x),
        ));
        assert(spec_enc_aborteds(p) =~= spec_enc_aborteds(xs) + spec_enc_aborted(x));
    }
}

/// One topic's part of a fetch response.
#[derive(Debug, Clone)]
pub struct FetchResponse {
    pub topic_id: TopicId,
    pub partitions: Vec<FetchPartitionResponse>,
}

/// What a `FetchResponse` holds, over mathematical sequences.
pub struct FetchResponseView {
    pub topic_id: Seq<u8>,
    pub partitions: Seq<FetchPartitionResponseView>,
}

impl View for FetchResponse {
    type V = FetchResponseView;

    open spec fn view(&self) -> FetchResponseView {
        FetchResponseView {
            topic_id: self.topic_id@,
            partitions: self.partitions@.map_values(|p: FetchPartitionResponse| p@),
        }
    }
}

/// The concatenated wire forms of the partition responses.
pub open spec fn spec_enc_fetch_partition_responses(ps: Seq<FetchPartitionResponseView>) -> Seq<
    u8,
>
    decreases ps.len(),
{
    if ps.len() == 0 {
        Seq::<u8>::empty()
    } else {
        spec_enc_fetch_partition_response(ps[0]) + spec_enc_fetch_partition_responses(ps.skip(1))
    }
}

/// The wire form of one topic's fetch response: the sixteen id bytes, the
/// partition responses as a compact array, and two tag buffers.
pub open spec fn spec_enc_fetch_response(t: FetchResponseView) -> Seq<u8> {
    t.topic_id + spec_enc_varint(spec_len1(t.partitions.len()))
        + spec_enc_fetch_partition_responses(t.partitions) + seq![0u8, 0u8]
}

/// Appending one partition response appends its bytes to the encoding.
proof fn lemma_enc_fetch_partition_responses_snoc(
    ps: Seq<FetchPartitionResponseView>,
    p: FetchPartitionResponseView,
)
    ensures
        spec_enc_fetch_partition_responses(ps.push(p)) == spec_enc_fetch_partition_responses(ps)
            + spec_enc_fetch_partition_response(p),
    decreases ps.len(),
{
    let w = ps.push(p);
    assert(w.len() == ps.len() + 1);
    if ps.len() == 0 {
        assert(w[0] == p);
        assert(w.skip(1) =~= Seq::<FetchPartitionResponseView>::empty());
        assert(spec_enc_fetch_partition_responses(w) == spec_enc_fetch_partition_response(p)
            + spec_enc_fetch_partition_responses(Seq::<FetchPartitionResponseView>::empty()));
        assert(spec_enc_fetch_partition_responses(w) =~= spec_enc_fetch_partition_responses(ps)
            + spec_enc_fetch_partition_response(p));
    } else {
        assert(w[0] == ps[0]);
        assert(w.skip(1) =~= ps.skip(1).push(p));
        lemma_enc_fetch_partition_responses_snoc(ps.skip(1), p);
        assert(spec_enc_fetch_partition_responses(w) == spec_enc_fetch_partition_response(ps[0])
            + spec_enc_fetch_partition_responses(ps.skip(1).push(p)));
        assert(spec_enc_fetch_partition_responses(w) =~= spec_enc_fetch_partition_responses(ps)
            + spec_enc_fetch_partition_response(p));
    }
}

impl FetchResponse {
    /// Packs one topic's fetch response.
    pub fn new(topic_id: TopicId, partitions: Vec<FetchPartitionResponse>) -> (r: FetchResponse)
        ensures
            r@.topic_id == topic_id@,
            r@.partitions == partitions@.map_values(|p: FetchPartitionResponse| p@),
    {
        FetchResponse { topic_id, partitions }
    }

    /// Appends the wire form of this topic's fetch response to `out`.
    #[verifier::spinoff_prover]
    #[verifier::rlimit(100)]
    pub fn encode(&self, out: &mut Vec<u8>)
        ensures
            final(out)@ == old(out)@ + spec_enc_fetch_response(self@),
    {
        let ghost pre = out@;
        let ghost views = self.partitions@.map_values(|p: FetchPartitionResponse| p@);
        crate::pb::append_bytes(out, self.topic_id.0.as_slice());
        let mut plen = VarInt::encode(len_plus_one(self.partitions.len()));
        out.append(&mut plen);
        let ghost mid = out@;
        let mut i: usize = 0;
        while i < self.partitions.len()
            invariant
                i <= self.partitions@.len(),
                views == self.partitions@.map_values(|p: FetchPartitionResponse| p@),
                out@ == mid + spec_enc_fetch_partition_responses(views.take(i as int)),
            decreases self.partitions@.len() - i,
        {
            self.partitions[i].encode(out);
            i = i + 1;
            proof {
                lemma_enc_fetch_partition_responses_snoc(
                    views.take(i as int - 1),
                    views[i as int - 1],
                );
                assert(views.take(i as int) =~= views.take(i as int - 1).push(views[i as int - 1]));
                vstd::seq_lib::lemma_concat_associative(
                    mid,
                    spec_enc_fetch_partition_responses(views.take(i as int - 1)),
                    spec_enc_fetch_partition_response(views[i as int - 1]),
                );
            }
        }
        proof {
            assert(views.take(views.len() as int) =~= views);
        }
        out.push(0u8);
        out.push(0u8);
        assert(out@ =~= pre + spec_enc_fetch_response(self@));
    }
}

} // verus!