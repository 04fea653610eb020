//! The record-batch codec: the on-disk and on-wire form of record batches,
//! the typed records they carry (feature-level, topic and partition records),
//! and the queries a loaded metadata log answers.

use vstd::prelude::*;

use crate::error::Error;
use crate::partition::{
    AddingReplica, Directory, ISRNode, Leader, LeaderEpoch, NodeId, PartitionEpoch,
    PartitionIndex, RemovingReplica, ReplicaNode,
};
use crate::pb::{
    dec_compact_string, dec_u16, dec_u16_opt, dec_u32, dec_u32_array, dec_u32_opt, dec_u64,
    dec_u64_opt, dec_u8, dec_uuid, dec_uuid_array, spec_dec_compact_string,
    spec_enc_compact_string, spec_dec_svarint, spec_dec_u16,
    spec_dec_u16_opt, spec_dec_u32, spec_dec_u32_array, spec_dec_u32_opt, spec_dec_u64,
    spec_dec_u64_opt, spec_dec_u8, spec_dec_uuid, spec_dec_uuid_array, SignedVarInt, VarInt,
};
use crate::topic::{TopicId, TopicName};

verus! {

/// A record's attribute byte.
#[derive(Debug, Clone, Copy, PartialEq, Eq, Structural)]
pub struct RecordAttributes(pub u8);

impl RecordAttributes {
    /// Wraps an attribute byte.
    pub fn new(v: u8) -> (r: RecordAttributes)
        ensures
            r == RecordAttributes(v),
    {
        RecordAttributes(v)
    }

    /// The wrapped byte.
    pub fn value(&self) -> (r: u8)
        ensures
            r == self.0,
    {
        self.0
    }
}

/// A record's timestamp, relative to its batch's base timestamp.
#[derive(Debug, Clone, Copy, PartialEq, Eq, Structural)]
pub struct TimestampDelta(pub i64);

impl TimestampDelta {
    /// Wraps a timestamp delta.
    pub fn new(v: i64) -> (r: TimestampDelta)
        ensures
            r == TimestampDelta(v),
    {
        TimestampDelta(v)
    }

    /// The wrapped delta.
    pub fn value(&self) -> (r: i64)
        ensures
            r == self.0,
    {
        self.0
    }
}

/// A record's offset, relative to its batch's base offset.
#[derive(Debug, Clone, Copy, PartialEq, Eq, Structural)]
pub struct OffsetDelta(pub i64);

impl OffsetDelta {
    /// Wraps an offset delta.
    pub fn new(v: i64) -> (r: OffsetDelta)
        ensures
            r == OffsetDelta(v),
    {
        OffsetDelta(v)
    }

    /// The wrapped delta.
    pub fn value(&self) -> (r: i64)
        ensures
            r == self.0,
    {
        self.0
    }
}

/// The frame version of a typed record value.
#[derive(Debug, Clone, Copy, PartialEq, Eq, Structural)]
pub struct FrameVersion(pub u8);

impl FrameVersion {
    /// Wraps a frame version.
    pub fn new(v: u8) -> (r: FrameVersion)
        ensures
            r == FrameVersion(v),
    {
        FrameVersion(v)
    }

    /// The wrapped version.
    pub fn value(&self) -> (r: u8)
        ensures
            r == self.0,
    {
        self.0
    }
}

/// The value version of a typed record value.
#[derive(Debug, Clone, Copy, PartialEq, Eq, Structural)]
pub struct ValueVersion(pub u8);

impl ValueVersion {
    /// Wraps a value version.
    pub fn new(v: u8) -> (r: ValueVersion)
        ensures
            r == ValueVersion(v),
    {
        ValueVersion(v)
    }

    /// The wrapped version.
    pub fn value(&self) -> (r: u8)
        ensures
            r == self.0,
    {
        self.0
    }
}

/// A record header; the broker never reads their contents, so only the count
/// is ever carried, and it is always zero.
#[derive(Debug, Clone, Copy, PartialEq, Eq, Structural)]
pub struct Header(pub u64);

impl Header {
    /// Wraps a header.
    pub fn new(v: u64) -> (r: Header)
        ensures
            r == Header(v),
    {
        Header(v)
    }

    /// The wrapped value.
    pub fn value(&self) -> (r: u64)
        ensures
            r == self.0,
    {
        self.0
    }
}

/// Where a batch starts in its log.
#[derive(Debug, Clone, Copy, PartialEq, Eq, Structural)]
pub struct BatchOffset(pub u64);

impl BatchOffset {
    /// Wraps a batch offset.
    pub fn new(v: u64) -> (r: BatchOffset)
        ensures
            r == BatchOffset(v),
    {
        BatchOffset(v)
    }

    /// The wrapped offset.
    pub fn value(&self) -> (r: u64)
        ensures
            r == self.0,
    {
        self.0
    }
}

/// A CRC-32C checksum as read from, or written to, a batch.
#[derive(Debug, Clone, Copy, PartialEq, Eq, Structural)]
pub struct CRC(pub u32);

impl CRC {
    /// Wraps a checksum.
    pub fn new(v: u32) -> (r: CRC)
        ensures
            r == CRC(v),
    {
        CRC(v)
    }

    /// The wrapped checksum.
    pub fn value(&self) -> (r: u32)
        ensures
            r == self.0,
    {
        self.0
    }
}

// ---------------------------------------------------------------------------
// Typed record values
// ---------------------------------------------------------------------------

/// A record key: raw bytes.
#[derive(Debug, Clone, PartialEq, Eq)]
pub struct RecordKey(pub Vec<u8>);

impl View for RecordKey {
    type V = Seq<u8>;

    open spec fn view(&self) -> Seq<u8> {
        self.0@
    }
}

impl RecordKey {
    /// Wraps key bytes.
    pub fn new(v: Vec<u8>) -> (r: RecordKey)
        ensures
            r@ == v@,
    {
        RecordKey(v)
    }

    /// The wrapped bytes.
    pub fn value(&self) -> (r: &Vec<u8>)
        ensures
            r@ == self@,
    {
        &self.0
    }
}

/// A feature-level record's value, kept as raw bytes.
#[derive(Debug, Clone, PartialEq, Eq)]
pub struct FeatureLevelRecordValue(pub Vec<u8>);

impl View for FeatureLevelRecordValue {
    type V = Seq<u8>;

    open spec fn view(&self) -> Seq<u8> {
        self.0@
    }
}

/// A record value of a kind the broker does not interpret, kept as raw bytes.
#[derive(Debug, Clone, PartialEq, Eq)]
pub struct RawValue(pub Vec<u8>);

impl View for RawValue {
    type V = Seq<u8>;

    open spec fn view(&self) -> Seq<u8> {
        self.0@
    }
}

/// A topic record's value: versions, the topic's name and its id.
#[derive(Debug, Clone)]
pub struct TopicRecordValue(pub FrameVersion, pub ValueVersion, pub TopicName, pub TopicId);

/// What a `TopicRecordValue` holds, over mathematical sequences.
pub struct TopicRecordView {
    pub frame_version: FrameVersion,
    pub value_version: ValueVersion,
    pub name: Seq<char>,
    pub id: Seq<u8>,
}

impl View for TopicRecordValue {
    type V = TopicRecordView;

    open spec fn view(&self) -> TopicRecordView {
        TopicRecordView {
            frame_version: self.0,
            value_version: self.1,
            name: self.2@,
            id: self.3@,
        }
    }
}

/// A partition record's value: versions, the partition's index, its topic's
/// id, leadership, epochs, the replica sets and the directories.
#[derive(Debug, Clone)]
pub struct PartitionRecordValue(
    pub FrameVersion,
    pub ValueVersion,
    pub PartitionIndex,
    pub TopicId,
    pub Leader,
    pub LeaderEpoch,
    pub PartitionEpoch,
    pub Vec<ReplicaNode>,
    pub Vec<ISRNode>,
    pub Vec<AddingReplica>,
    pub Vec<RemovingReplica>,
    pub Vec<Directory>,
);

/// What a `PartitionRecordValue` holds, over mathematical sequences.
pub struct PartitionRecordView {
    pub frame_version: FrameVersion,
    pub value_version: ValueVersion,
    pub partition_index: PartitionIndex,
    pub topic_id: Seq<u8>,
    pub leader: Leader,
    pub leader_epoch: LeaderEpoch,
    pub partition_epoch: PartitionEpoch,
    pub replicas: Seq<ReplicaNode>,
    pub isrs: Seq<ISRNode>,
    pub adding: Seq<AddingReplica>,
    pub removing: Seq<RemovingReplica>,
    pub directories: Seq<Seq<u8>>,
}

impl View for PartitionRecordValue {
    type V = PartitionRecordView;

    open spec fn view(&self) -> PartitionRecordView {
        PartitionRecordView {
            frame_version: self.0,
            value_version: self.1,
            partition_index: self.2,
            topic_id: self.3@,
            leader: self.4,
            leader_epoch: self.5,
            partition_epoch: self.6,
            replicas: self.7@,
            isrs: self.8@,
            adding: self.9@,
            removing: self.10@,
            directories: self.11@.map_values(|d: Directory| d@),
        }
    }
}

/// A record's typed value.
#[derive(Debug, Clone)]
pub enum RecordValue {
    FeatureLevelRecord(FeatureLevelRecordValue),
    TopicRecord(TopicRecordValue),
    PartitionRecord(PartitionRecordValue),
    Raw(RawValue),
}

/// What a `RecordValue` holds, over mathematical sequences.
pub enum RecordValueView {
    FeatureLevelRecord(Seq<u8>),
    TopicRecord(TopicRecordView),
    PartitionRecord(PartitionRecordView),
    Raw(Seq<u8>),
}

impl View for RecordValue {
    type V = RecordValueView;

    open spec fn view(&self) -> RecordValueView {
        match self {
            RecordValue::FeatureLevelRecord(v) => RecordValueView::FeatureLevelRecord(v@),
            RecordValue::TopicRecord(v) => RecordValueView::TopicRecord(v@),
            RecordValue::PartitionRecord(v) => RecordValueView::PartitionRecord(v@),
            RecordValue::Raw(v) => RecordValueView::Raw(v@),
        }
    }
}

/// One record of a batch.
#[derive(Debug, Clone)]
pub struct Record {
    pub attributes: RecordAttributes,
    pub timestamp_delta: TimestampDelta,
    pub offset_delta: OffsetDelta,
    pub key: Option<RecordKey>,
    pub value: RecordValue,
    pub headers: Vec<Header>,
}

/// What a `Record` holds, over mathematical sequences.
pub struct RecordView {
    pub attributes: RecordAttributes,
    pub timestamp_delta: TimestampDelta,
    pub offset_delta: OffsetDelta,
    pub key: Option<Seq<u8>>,
    pub value: RecordValueView,
    pub headers: Seq<Header>,
}

impl View for Record {
    type V = RecordView;

    open spec fn view(&self) -> RecordView {
        RecordView {
            attributes: self.attributes,
            timestamp_delta: self.timestamp_delta,
            offset_delta: self.offset_delta,
            key: match self.key {
                Some(ref k) => Some(k@),
                None => None,
            },
            value: self.value@,
            headers: self.headers@,
        }
    }
}

/// One batch of records, as read from a log or written to a fetch response.
#[derive(Debug, Clone)]
pub struct Batch {
    pub batch_offset: BatchOffset,
    pub partition_leader_epoch: u32,
    pub magic_byte: u8,
    pub crc: Option<CRC>,
    pub attributes: u16,
    pub last_offset_delta: u32,
    pub base_timestamp: u64,
    pub max_timestamp: u64,
    pub producer_id: Option<u64>,
    pub producer_epoch: Option<u16>,
    pub base_sequence: Option<u32>,
    pub records: Vec<Record>,
}

/// What a `Batch` holds, over mathematical sequences.
#[verifier::ext_equal]
pub struct BatchView {
    pub batch_offset: BatchOffset,
    pub partition_leader_epoch: u32,
    pub magic_byte: u8,
    pub crc: Option<CRC>,
    pub attributes: u16,
    pub last_offset_delta: u32,
    pub base_timestamp: u64,
    pub max_timestamp: u64,
    pub producer_id: Option<u64>,
    pub producer_epoch: Option<u16>,
    pub base_sequence: Option<u32>,
    pub records: Seq<RecordView>,
}

impl View for Batch {
    type V = BatchView;

    open spec fn view(&self) -> BatchView {
        BatchView {
            batch_offset: self.batch_offset,
            partition_leader_epoch: self.partition_leader_epoch,
            magic_byte: self.magic_byte,
            crc: self.crc,
            attributes: self.attributes,
            last_offset_delta: self.last_offset_delta,
            base_timestamp: self.base_timestamp,
            max_timestamp: self.max_timestamp,
            producer_id: self.producer_id,
            producer_epoch: self.producer_epoch,
            base_sequence: self.base_sequence,
            records: self.records@.map_values(|r: Record| r@),
        }
    }
}

// ---------------------------------------------------------------------------
// Decoding record values
// ---------------------------------------------------------------------------

/// Decodes a topic record's value: frame version, the type tag, value
/// version, the name as a compact string, the sixteen id bytes; whatever
/// follows (the tag buffer) is not read.
pub open spec fn spec_dec_topic_value(b: Seq<u8>) -> Result<TopicRecordView, Error> {
    match spec_dec_u8(b) {
        Err(e) => Err(e),
        Ok((frame, r1)) => match spec_dec_u8(r1) {
            Err(e) => Err(e),
            Ok((_tag, r2)) => match spec_dec_u8(r2) {
                Err(e) => Err(e),
                Ok((ver, r3)) => match spec_dec_compact_string(r3) {
                    Err(e) => Err(e),
                    Ok((name, r4)) => match spec_dec_uuid(r4) {
                        Err(e) => Err(e),
                        Ok((id, _r5)) => Ok(TopicRecordView {
                            frame_version: FrameVersion(frame),
                            value_version: ValueVersion(ver),
                            name,
                            id,
                        }),
                    },
                },
            },
        },
    }
}

/// Decodes a partition record's value: frame version, the type tag, value
/// version, the partition index, the topic's id, then the replica, in-sync,
/// removing and adding arrays in wire order, the leader, the two epochs, and
/// the directory ids.
pub open spec fn spec_dec_partition_value(b: Seq<u8>) -> Result<PartitionRecordView, Error> {
    match spec_dec_u8(b) {
        Err(e) => Err(e),
        Ok((frame, r1)) => match spec_dec_u8(r1) {
            Err(e) => Err(e),
            Ok((_tag, r2)) => match spec_dec_u8(r2) {
                Err(e) => Err(e),
                Ok((ver, r3)) => match spec_dec_u32(r3) {
                    Err(e) => Err(e),
                    Ok((index, r4)) => match spec_dec_uuid(r4) {
                        Err(e) => Err(e),
                        Ok((id, r5)) => match spec_dec_u32_array(r5) {
                            Err(e) => Err(e),
                            Ok((replicas, r6)) => match spec_dec_u32_array(r6) {
                                Err(e) => Err(e),
                                Ok((isrs, r7)) => match spec_dec_u32_array(r7) {
                                    Err(e) => Err(e),
                                    Ok((removing, r8)) => match spec_dec_u32_array(r8) {
                                        Err(e) => Err(e),
                                        Ok((adding, r9)) => match spec_dec_u32(r9) {
                                            Err(e) => Err(e),
                                            Ok((leader, r10)) => match spec_dec_u32(r10) {
                                                Err(e) => Err(e),
                                                Ok((lepoch, r11)) => match spec_dec_u32(r11) {
                                                    Err(e) => Err(e),
                                                    Ok((pepoch, r12)) => match spec_dec_uuid_array(
                                                        r12,
                                                    ) {
                                                        Err(e) => Err(e),
                                                        Ok((dirs, _r13)) => Ok(
                                                            PartitionRecordView {
                                                                frame_version: FrameVersion(frame),
                                                                value_version: ValueVersion(ver),
                                                                partition_index: PartitionIndex(
                                                                    index,
                                                                ),
                                                                topic_id: id,
                                                                leader: Leader(NodeId(leader)),
                                                                leader_epoch: LeaderEpoch(lepoch),
                                                                partition_epoch: PartitionEpoch(
                                                                    pepoch,
                                                                ),
                                                                replicas: replicas.map_values(
                                                                    |x: u32| ReplicaNode(NodeId(x)),
                                                                ),
                                                                isrs: isrs.map_values(
                                                                    |x: u32| ISRNode(NodeId(x)),
                                                                ),
                                                                adding: adding.map_values(
                                                                    |x: u32|
                                                                        AddingReplica(NodeId(x)),
                                                                ),
                                                                removing: removing.map_values(
                                                                    |x: u32|
                                                                        RemovingReplica(NodeId(x)),
                                                                ),
                                                                directories: dirs,
                                                            },
                                                        ),
                                                    },
                                                },
                                            },
                                        },
                                    },
                                },
                            },
                        },
                    },
                },
            },
        },
    }
}

/// Decodes a record's value by the type tag at byte offset one: feature
/// level, topic, partition, or anything else kept raw. A value too short to
/// hold a tag is raw as well.
pub open spec fn spec_dec_record_value(b: Seq<u8>) -> Result<RecordValueView, Error> {
    if b.len() < 2 {
        Ok(RecordValueView::Raw(b))
    } else if b[1] == 0x0c {
        Ok(RecordValueView::FeatureLevelRecord(b))
    } else if b[1] == 0x02 {
        match spec_dec_topic_value(b) {
            Ok(t) => Ok(RecordValueView::TopicRecord(t)),
            Err(e) => Err(e),
        }
    } else if b[1] == 0x03 {
        match spec_dec_partition_value(b) {
            Ok(p) => Ok(RecordValueView::PartitionRecord(p)),
            Err(e) => Err(e),
        }
    } else {
        Ok(RecordValueView::Raw(b))
    }
}

/// Decodes one record's body: the attribute byte, the two signed-varint
/// deltas, the key behind its signed-varint length (negative meaning
/// absent), the value behind its signed-varint length, then the header
/// count; header contents are not read.
pub open spec fn spec_dec_record(b: Seq<u8>) -> Result<RecordView, Error> {
    match spec_dec_u8(b) {
        Err(e) => Err(e),
        Ok((attributes, r1)) => match spec_dec_svarint(r1) {
            Err(e) => Err(e),
            Ok((ts, r2)) => match spec_dec_svarint(r2) {
                Err(e) => Err(e),
                Ok((od, r3)) => match spec_dec_svarint(r3) {
                    Err(e) => Err(e),
                    Ok((klen, r4)) => {
                        let key: Option<Seq<u8>> = if klen < 0 {
                            None
                        } else {
                            Some(r4.take(klen as int))
                        };
                        if klen >= 0 && r4.len() < klen {
                            Err(Error::BadLength)
                        } else {
                            let r5 = if klen < 0 {
                                r4
                            } else {
                                r4.skip(klen as int)
                            };
                            match spec_dec_svarint(r5) {
                                Err(e) => Err(e),
                                Ok((vlen, r6)) => if vlen < 0 || r6.len() < vlen {
                                    Err(Error::BadLength)
                                } else {
                                    match spec_dec_record_value(r6.take(vlen as int)) {
                                        Err(e) => Err(e),
                                        Ok(value) => match spec_dec_svarint(
                                            r6.skip(vlen as int),
                                        ) {
                                            Err(e) => Err(e),
                                            Ok((_hc, _r7)) => Ok(RecordView {
                                                attributes: RecordAttributes(attributes),
                                                timestamp_delta: TimestampDelta(ts),
                                                offset_delta: OffsetDelta(od),
                                                key,
                                                value,
                                                headers: Seq::<Header>::empty(),
                                            }),
                                        },
                                    }
                                },
                            }
                        }
                    },
                },
            },
        },
    }
}

/// Decodes records until the input is exhausted: each behind its
/// signed-varint byte length.
pub open spec fn spec_dec_records(s: Seq<u8>) -> Result<Seq<RecordView>, Error>
    decreases s.len(),
    via spec_dec_records_decreases
{
    if s.len() == 0 {
        Ok(Seq::<RecordView>::empty())
    } else {
        match spec_dec_svarint(s) {
            Err(e) => Err(e),
            Ok((len, rest)) => if len < 0 || rest.len() < len {
                Err(Error::BadLength)
            } else {
                match spec_dec_record(rest.take(len as int)) {
                    Err(e) => Err(e),
                    Ok(r) => match spec_dec_records(rest.skip(len as int)) {
                        Err(e) => Err(e),
                        Ok(rs) => Ok(seq![r] + rs),
                    },
                }
            },
        }
    }
}

#[via_fn]
proof fn spec_dec_records_decreases(s: Seq<u8>) {
    crate::pb::lemma_dec_svarint_shrinks(s);
}

/// Decodes a batch's content, everything behind the length prefix: the
/// partition leader epoch, the magic byte, the checksum as stored, the
/// attribute word, the last offset delta, the two timestamps, the three
/// nullable producer fields, the record count (not trusted; records are read
/// until the content ends), then the records.
pub open spec fn spec_dec_batch_body(offset: u64, b: Seq<u8>) -> Result<BatchView, Error> {
    match spec_dec_u32(b) {
        Err(e) => Err(e),
        Ok((pleader, r1)) => match spec_dec_u8(r1) {
            Err(e) => Err(e),
            Ok((magic, r2)) => match spec_dec_u32(r2) {
                Err(e) => Err(e),
                Ok((crc, r3)) => spec_dec_batch_tail(offset, pleader, magic, crc, r3),
            },
        },
    }
}

/// Decodes a batch's span, everything the checksum covers, given the fields
/// already read before it.
pub open spec fn spec_dec_batch_tail(
    offset: u64,
    pleader: u32,
    magic: u8,
    crc: u32,
    b: Seq<u8>,
) -> Result<BatchView, Error> {
    match spec_dec_u16(b) {
        Err(e) => Err(e),
        Ok((attributes, r4)) => match spec_dec_u32(r4) {
                        Err(e) => Err(e),
                        Ok((lod, r5)) => match spec_dec_u64(r5) {
                            Err(e) => Err(e),
                            Ok((bts, r6)) => match spec_dec_u64(r6) {
                                Err(e) => Err(e),
                                Ok((mts, r7)) => match spec_dec_u64_opt(r7) {
                                    Err(e) => Err(e),
                                    Ok((pid, r8)) => match spec_dec_u16_opt(r8) {
                                        Err(e) => Err(e),
                                        Ok((pepoch, r9)) => match spec_dec_u32_opt(r9) {
                                            Err(e) => Err(e),
                                            Ok((bseq, r10)) => match spec_dec_u32(r10) {
                                                Err(e) => Err(e),
                                                Ok((_count, r11)) => match spec_dec_records(r11) {
                                                    Err(e) => Err(e),
                                                    Ok(records) => Ok(BatchView {
                                                        batch_offset: BatchOffset(offset),
                                                        partition_leader_epoch: pleader,
                                                        magic_byte: magic,
                                                        crc: Some(CRC(crc)),
                                                        attributes,
                                                        last_offset_delta: lod,
                                                        base_timestamp: bts,
                                                        max_timestamp: mts,
                                                        producer_id: pid,
                                                        producer_epoch: pepoch,
                                                        base_sequence: bseq,
                                                        records,
                                                    }),
                                                },
                                            },
                                        },
                                    },
                                },
                            },
                        },
        },
    }
}

/// Decodes one batch: its offset, its four-byte length, then exactly that
/// many bytes of content.
pub open spec fn spec_dec_batch(s: Seq<u8>) -> Result<(BatchView, Seq<u8>), Error> {
    match spec_dec_u64(s) {
        Err(e) => Err(e),
        Ok((offset, r1)) => match spec_dec_u32(r1) {
            Err(e) => Err(e),
            Ok((blen, r2)) => if r2.len() < blen {
                Err(Error::BadLength)
            } else {
                match spec_dec_batch_body(offset, r2.take(blen as int)) {
                    Err(e) => Err(e),
                    Ok(b) => Ok((b, r2.skip(blen as int))),
                }
            },
        },
    }
}

/// Decodes batches until the input is exhausted.
pub open spec fn spec_dec_batches(s: Seq<u8>) -> Result<Seq<BatchView>, Error>
    decreases s.len(),
{
    if s.len() == 0 {
        Ok(Seq::<BatchView>::empty())
    } else {
        match spec_dec_batch(s) {
            Err(e) => Err(e),
            Ok((b, rest)) => match spec_dec_batches(rest) {
                Err(e) => Err(e),
                Ok(bs) => Ok(seq![b] + bs),
            },
        }
    }
}

// ---------------------------------------------------------------------------
// Executable decoders
// ---------------------------------------------------------------------------

fn to_replica_nodes(xs: Vec<u32>) -> (r: Vec<ReplicaNode>)
    ensures
        r@ == xs@.map_values(|x: u32| ReplicaNode(NodeId(x))),
{
    let mut out: Vec<ReplicaNode> = Vec::new();
    let mut i: usize = 0;
    while i < xs.len()
        invariant
            i <= xs@.len(),
            out@ == xs@.map_values(|x: u32| ReplicaNode(NodeId(x))).take(i as int),
        decreases xs@.len() - i,
    {
        out.push(ReplicaNode(NodeId(xs[i])));
        i = i + 1;
        proof {
            assert(out@ =~= xs@.map_values(|x: u32| ReplicaNode(NodeId(x))).take(i as int));
        }
    }
    proof {
        assert(out@ =~= xs@.map_values(|x: u32| ReplicaNode(NodeId(x))));
    }
    out
}

fn to_isr_nodes(xs: Vec<u32>) -> (r: Vec<ISRNode>)
    ensures
        r@ == xs@.map_values(|x: u32| ISRNode(NodeId(x))),
{
    let mut out: Vec<ISRNode> = Vec::new();
    let mut i: usize = 0;
    while i < xs.len()
        invariant
            i <= xs@.len(),
            out@ == xs@.map_values(|x: u32| ISRNode(NodeId(x))).take(i as int),
        decreases xs@.len() - i,
    {
        out.push(ISRNode(NodeId(xs[i])));
        i = i + 1;
        proof {
            assert(out@ =~= xs@.map_values(|x: u32| ISRNode(NodeId(x))).take(i as int));
        }
    }
    proof {
        assert(out@ =~= xs@.map_values(|x: u32| ISRNode(NodeId(x))));
    }
    out
}

fn to_adding_replicas(xs: Vec<u32>) -> (r: Vec<AddingReplica>)
    ensures
        r@ == xs@.map_values(|x: u32| AddingReplica(NodeId(x))),
{
    let mut out: Vec<AddingReplica> = Vec::new();
    let mut i: usize = 0;
    while i < xs.len()
        invariant
            i <= xs@.len(),
            out@ == xs@.map_values(|x: u32| AddingReplica(NodeId(x))).take(i as int),
        decreases xs@.len() - i,
    {
        out.push(AddingReplica(NodeId(xs[i])));
        i = i + 1;
        proof {
            assert(out@ =~= xs@.map_values(|x: u32| AddingReplica(NodeId(x))).take(i as int));
        }
    }
    proof {
        assert(out@ =~= xs@.map_values(|x: u32| AddingReplica(NodeId(x))));
    }
    out
}

fn to_removing_replicas(xs: Vec<u32>) -> (r: Vec<RemovingReplica>)
    ensures
        r@ == xs@.map_values(|x: u32| RemovingReplica(NodeId(x))),
{
    let mut out: Vec<RemovingReplica> = Vec::new();
    let mut i: usize = 0;
    while i < xs.len()
        invariant
            i <= xs@.len(),
            out@ == xs@.map_values(|x: u32| RemovingReplica(NodeId(x))).take(i as int),
        decreases xs@.len() - i,
    {
        out.push(RemovingReplica(NodeId(xs[i])));
        i = i + 1;
        proof {
            assert(out@ =~= xs@.map_values(|x: u32| RemovingReplica(NodeId(x))).take(i as int));
        }
    }
    proof {
        assert(out@ =~= xs@.map_values(|x: u32| RemovingReplica(NodeId(x))));
    }
    out
}

fn to_directories(xs: Vec<Vec<u8>>) -> (r: Vec<Directory>)
    ensures
        r@.map_values(|d: Directory| d@) == xs@.map_values(|x: Vec<u8>| x@),
{
    let mut out: Vec<Directory> = Vec::new();
    let mut i: usize = 0;
    let ghost target = xs@.map_values(|x: Vec<u8>| x@);
    while i < xs.len()
        invariant
            i <= xs@.len(),
            target == xs@.map_values(|x: Vec<u8>| x@),
            out@.len() == i,
            forall|j: int| 0 <= j < i ==> #[trigger] out@[j]@ == target[j],
        decreases xs@.len() - i,
    {
        let c = xs[i].clone();
        proof {
            assert forall|j: int| 0 <= j < c@.len() implies c@[j] == xs@[i as int]@[j] by {
                assert(cloned::<u8>(xs@[i as int]@[j], c@[j]));
            }
            assert(c@ =~= xs@[i as int]@);
        }
        out.push(Directory(c));
        i = i + 1;
    }
    proof {
        let m = out@.map_values(|d: Directory| d@);
        assert forall|j: int| 0 <= j < out@.len() implies #[trigger] m[j] == target[j] by {
            assert(out@[j]@ == target[j]);
        }
        assert(m =~= target);
    }
    out
}

impl Record {
    /// Reads a topic record's value.
    pub fn topic_record(v: &[u8]) -> (r: Result<RecordValue, Error>)
        ensures
            match r {
                Ok(val) => spec_dec_topic_value(v@) matches Ok(t) && val@
                    == RecordValueView::TopicRecord(t),
                Err(e) => spec_dec_topic_value(v@) == Err::<TopicRecordView, _>(e),
            },
    {
        let (frame, r1) = match dec_u8(v) {
            Ok(p) => p,
            Err(e) => {
                return Err(e);
            },
        };
        let (_tag, r2) = match dec_u8(r1) {
            Ok(p) => p,
            Err(e) => {
                return Err(e);
            },
        };
        let (ver, r3) = match dec_u8(r2) {
            Ok(p) => p,
            Err(e) => {
                return Err(e);
            },
        };
        let (name, r4) = match dec_compact_string(r3) {
            Ok(p) => p,
            Err(e) => {
                return Err(e);
            },
        };
        let (id, _r5) = match dec_uuid(r4) {
            Ok(p) => p,
            Err(e) => {
                return Err(e);
            },
        };
        Ok(
            RecordValue::TopicRecord(
                TopicRecordValue(
                    FrameVersion(frame),
                    ValueVersion(ver),
                    TopicName(name),
                    TopicId(id),
                ),
            ),
        )
    }

    /// Reads a partition record's value.
    pub fn partition_record(v: &[u8]) -> (r: Result<RecordValue, Error>)
        ensures
            match r {
                Ok(val) => spec_dec_partition_value(v@) matches Ok(p) && val@
                    == RecordValueView::PartitionRecord(p),
                Err(e) => spec_dec_partition_value(v@) == Err::<PartitionRecordView, _>(e),
            },
    {
        let (frame, r1) = match dec_u8(v) {
            Ok(p) => p,
            Err(e) => {
                return Err(e);
            },
        };
        let (_tag, r2) = match dec_u8(r1) {
            Ok(p) => p,
            Err(e) => {
                return Err(e);
            },
        };
        let (ver, r3) = match dec_u8(r2) {
            Ok(p) => p,
            Err(e) => {
                return Err(e);
            },
        };
        let (index, r4) = match dec_u32(r3) {
            Ok(p) => p,
            Err(e) => {
                return Err(e);
            },
        };
        let (id, r5) = match dec_uuid(r4) {
            Ok(p) => p,
            Err(e) => {
                return Err(e);
            },
        };
        let (replicas, r6) = match dec_u32_array(r5) {
            Ok(p) => p,
            Err(e) => {
                return Err(e);
            },
        };
        let (isrs, r7) = match dec_u32_array(r6) {
            Ok(p) => p,
            Err(e) => {
                return Err(e);
            },
        };
        let (removing, r8) = match dec_u32_array(r7) {
            Ok(p) => p,
            Err(e) => {
                return Err(e);
            },
        };
        let (adding, r9) = match dec_u32_array(r8) {
            Ok(p) => p,
            Err(e) => {
                return Err(e);
            },
        };
        let (leader, r10) = match dec_u32(r9) {
            Ok(p) => p,
            Err(e) => {
                return Err(e);
            },
        };
        let (lepoch, r11) = match dec_u32(r10) {
            Ok(p) => p,
            Err(e) => {
                return Err(e);
            },
        };
        let (pepoch, r12) = match dec_u32(r11) {
            Ok(p) => p,
            Err(e) => {
                return Err(e);
            },
        };
        let (dirs, _r13) = match dec_uuid_array(r12) {
            Ok(p) => p,
            Err(e) => {
                return Err(e);
            },
        };
        let value = PartitionRecordValue(
            FrameVersion(frame),
            ValueVersion(ver),
            PartitionIndex(index),
            TopicId(id),
            Leader(NodeId(leader)),
            LeaderEpoch(lepoch),
            PartitionEpoch(pepoch),
            to_replica_nodes(replicas),
            to_isr_nodes(isrs),
            to_adding_replicas(adding),
            to_removing_replicas(removing),
            to_directories(dirs),
        );
        Ok(RecordValue::PartitionRecord(value))
    }

    /// Reads a record's value by its type tag.
    fn record_value(v: &[u8]) -> (r: Result<RecordValue, Error>)
        ensures
            match r {
                Ok(val) => spec_dec_record_value(v@) == Ok::<_, Error>(val@),
                Err(e) => spec_dec_record_value(v@) == Err::<RecordValueView, _>(e),
            },
    {
        if v.len() < 2 {
            Ok(RecordValue::Raw(RawValue(vstd::slice::slice_to_vec(v))))
        } else {
            let tag = v[1];
            if tag == 0x0c {
                Ok(
                    RecordValue::FeatureLevelRecord(
                        FeatureLevelRecordValue(vstd::slice::slice_to_vec(v)),
                    ),
                )
            } else if tag == 0x02 {
                Self::topic_record(v)
            } else if tag == 0x03 {
                Self::partition_record(v)
            } else {
                Ok(RecordValue::Raw(RawValue(vstd::slice::slice_to_vec(v))))
            }
        }
    }

    /// Reads one record from its body.
    pub fn mk(v: &[u8]) -> (r: Result<Record, Error>)
        ensures
            match r {
                Ok(rec) => spec_dec_record(v@) == Ok::<_, Error>(rec@),
                Err(e) => spec_dec_record(v@) == Err::<RecordView, _>(e),
            },
    {
        let (attributes, r1) = match dec_u8(v) {
            Ok(p) => p,
            Err(e) => {
                return Err(e);
            },
        };
        let (ts, r2) = match SignedVarInt::decode(r1) {
            Ok(p) => p,
            Err(e) => {
                return Err(e);
            },
        };
        let (od, r3) = match SignedVarInt::decode(r2) {
            Ok(p) => p,
            Err(e) => {
                return Err(e);
            },
        };
        let (ksv, r4) = match SignedVarInt::decode(r3) {
            Ok(p) => p,
            Err(e) => {
                return Err(e);
            },
        };
        let klen = ksv.value();
        let (key, r5): (Option<RecordKey>, &[u8]) = if klen < 0 {
            (None, r4)
        } else {
            if (r4.len() as u64) < (klen as u64) {
                return Err(Error::BadLength);
            }
            let (kb, rr) = crate::pb::take(r4, klen as usize);
            (Some(RecordKey(vstd::slice::slice_to_vec(kb))), rr)
        };
        let (vsv, r6) = match SignedVarInt::decode(r5) {
            Ok(p) => p,
            Err(e) => {
                return Err(e);
            },
        };
        let vlen = vsv.value();
        if vlen < 0 || (r6.len() as u64) < (vlen as u64) {
            return Err(Error::BadLength);
        }
        let (vb, r7) = crate::pb::take(r6, vlen as usize);
        let value = match Self::record_value(vb) {
            Ok(val) => val,
            Err(e) => {
                return Err(e);
            },
        };
        let (_hc, _r8) = match SignedVarInt::decode(r7) {
            Ok(p) => p,
            Err(e) => {
                return Err(e);
            },
        };
        let rec = Record {
            attributes: RecordAttributes(attributes),
            timestamp_delta: TimestampDelta(ts.value()),
            offset_delta: OffsetDelta(od.value()),
            key,
            value,
            headers: Vec::new(),
        };
        proof {
            assert(rec@.headers =~= Seq::<Header>::empty());
        }
        Ok(rec)
    }
}

fn split_records(v: &[u8]) -> (r: Result<Vec<Record>, Error>)
    ensures
        match r {
            Ok(rs) => spec_dec_records(v@) == Ok::<_, Error>(rs@.map_values(|x: Record| x@)),
            Err(e) => spec_dec_records(v@) == Err::<Seq<RecordView>, _>(e),
        },
    decreases v@.len(),
{
    if v.len() == 0 {
        let empty: Vec<Record> = Vec::new();
        assert(empty@.map_values(|x: Record| x@) =~= Seq::<RecordView>::empty());
        Ok(empty)
    } else {
        let (sv, rest) = match SignedVarInt::decode(v) {
            Ok(p) => p,
            Err(e) => {
                return Err(e);
            },
        };
        let len = sv.value();
        if len < 0 || (rest.len() as u64) < (len as u64) {
            return Err(Error::BadLength);
        }
        let (body, rest2) = crate::pb::take(rest, len as usize);
        let rec = match Record::mk(body) {
            Ok(rec) => rec,
            Err(e) => {
                return Err(e);
            },
        };
        match split_records(rest2) {
            Ok(tail) => {
                let ghost rv = rec@;
                let ghost tv = tail@.map_values(|x: Record| x@);
                let mut out: Vec<Record> = Vec::new();
                out.push(rec);
                let mut t = tail;
                out.append(&mut t);
                assert(out@.map_values(|x: Record| x@) =~= seq![rv] + tv);
                Ok(out)
            },
            Err(e) => Err(e),
        }
    }
}

impl Batch {
    /// Reads one batch's content, everything behind the length prefix.
    fn mk(offset: u64, v: &[u8]) -> (r: Result<Batch, Error>)
        ensures
            match r {
                Ok(b) => spec_dec_batch_body(offset, v@) == Ok::<_, Error>(b@),
                Err(e) => spec_dec_batch_body(offset, v@) == Err::<BatchView, _>(e),
            },
    {
        let (pleader, r1) = match dec_u32(v) {
            Ok(p) => p,
            Err(e) => {
                return Err(e);
            },
        };
        let (magic, r2) = match dec_u8(r1) {
            Ok(p) => p,
            Err(e) => {
                return Err(e);
            },
        };
        let (crc, r3) = match dec_u32(r2) {
            Ok(p) => p,
            Err(e) => {
                return Err(e);
            },
        };
        let (attributes, r4) = match dec_u16(r3) {
            Ok(p) => p,
            Err(e) => {
                return Err(e);
            },
        };
        let (lod, r5) = match dec_u32(r4) {
            Ok(p) => p,
            Err(e) => {
                return Err(e);
            },
        };
        let (bts, r6) = match dec_u64(r5) {
            Ok(p) => p,
            Err(e) => {
                return Err(e);
            },
        };
        let (mts, r7) = match dec_u64(r6) {
            Ok(p) => p,
            Err(e) => {
                return Err(e);
            },
        };
        let (pid, r8) = match dec_u64_opt(r7) {
            Ok(p) => p,
            Err(e) => {
                return Err(e);
            },
        };
        let (pepoch, r9) = match dec_u16_opt(r8) {
            Ok(p) => p,
            Err(e) => {
                return Err(e);
            },
        };
        let (bseq, r10) = match dec_u32_opt(r9) {
            Ok(p) => p,
            Err(e) => {
                return Err(e);
            },
        };
        let (_count, r11) = match dec_u32(r10) {
            Ok(p) => p,
            Err(e) => {
                return Err(e);
            },
        };
        let records = match split_records(r11) {
            Ok(rs) => rs,
            Err(e) => {
                return Err(e);
            },
        };
        Ok(
            Batch {
                batch_offset: BatchOffset(offset),
                partition_leader_epoch: pleader,
                magic_byte: magic,
                crc: Some(CRC(crc)),
                attributes,
                last_offset_delta: lod,
                base_timestamp: bts,
                max_timestamp: mts,
                producer_id: pid,
                producer_epoch: pepoch,
                base_sequence: bseq,
                records,
            },
        )
    }

    /// Splits a byte stream into its batches: each an offset, a four-byte
    /// length, and that many bytes of content.
    pub fn split_by_batch(v: &[u8]) -> (r: Result<Vec<Batch>, Error>)
        ensures
            match r {
                Ok(bs) => spec_dec_batches(v@) == Ok::<_, Error>(bs@.map_values(|x: Batch| x@)),
                Err(e) => spec_dec_batches(v@) == Err::<Seq<BatchView>, _>(e),
            },
        decreases v@.len(),
    {
        if v.len() == 0 {
            let empty: Vec<Batch> = Vec::new();
            assert(empty@.map_values(|x: Batch| x@) =~= Seq::<BatchView>::empty());
            Ok(empty)
        } else {
            let (offset, r1) = match dec_u64(v) {
                Ok(p) => p,
                Err(e) => {
                    return Err(e);
                },
            };
            let (blen, r2) = match dec_u32(r1) {
                Ok(p) => p,
                Err(e) => {
                    return Err(e);
                },
            };
            if (r2.len() as u64) < (blen as u64) {
                return Err(Error::BadLength);
            }
            let (body, rest) = crate::pb::take(r2, blen as usize);
            let batch = match Self::mk(offset, body) {
                Ok(b) => b,
                Err(e) => {
                    return Err(e);
                },
            };
            match Self::split_by_batch(rest) {
                Ok(tail) => {
                    let ghost bv = batch@;
                    let ghost tv = tail@.map_values(|x: Batch| x@);
                    let mut out: Vec<Batch> = Vec::new();
                    out.push(batch);
                    let mut t = tail;
                    out.append(&mut t);
                    assert(out@.map_values(|x: Batch| x@) =~= seq![bv] + tv);
                    Ok(out)
                },
                Err(e) => Err(e),
            }
        }
    }
}

// ---------------------------------------------------------------------------
// Encoding
// ---------------------------------------------------------------------------

/// The CRC-32C (Castagnoli) checksum of a byte string. What the polynomial
/// arithmetic yields is not spelled out here; the checksum is a function of
/// the bytes alone, and `crc32c` computes it.
pub uninterp spec fn crc32c_of(data: Seq<u8>) -> u32;

/// Relies on `crc::Crc::<u32>::checksum` with the `CRC_32_ISCSI` (Castagnoli)
/// algorithm: a table-driven computation whose result depends on the input
/// bytes alone.
#[verifier::external_body]
fn crc32c(data: &Vec<u8>) -> (r: u32)
    ensures
        r == crc32c_of(data@),
{
    crc::Crc::<u32>::new(&crc::CRC_32_ISCSI).checksum(data.as_slice())
}

/// The wire form of a record's value. Typed values carry their frame
/// version, type tag and value version, then their fields; feature-level and
/// unrecognised values are their raw bytes.
pub open spec fn spec_enc_record_value(v: RecordValueView) -> Seq<u8> {
    match v {
        RecordValueView::FeatureLevelRecord(b) => b,
        RecordValueView::Raw(b) => b,
        RecordValueView::TopicRecord(t) => seq![t.frame_version.0, 0x02u8, t.value_version.0]
            + spec_enc_compact_string(t.name) + t.id + seq![0u8],
        RecordValueView::PartitionRecord(p) => seq![p.frame_version.0, 0x03u8, p.value_version.0]
            + crate::pb::spec_enc_u32(p.partition_index.0) + p.topic_id
            + crate::pb::spec_enc_u32_array(crate::partition::spec_node_views(p.replicas))
            + crate::pb::spec_enc_u32_array(crate::partition::spec_node_views(p.isrs))
            + crate::pb::spec_enc_u32_array(crate::partition::spec_node_views(p.removing))
            + crate::pb::spec_enc_u32_array(crate::partition::spec_node_views(p.adding))
            + crate::pb::spec_enc_u32(p.leader.0.0) + crate::pb::spec_enc_u32(p.leader_epoch.0)
            + crate::pb::spec_enc_u32(p.partition_epoch.0) + crate::pb::spec_enc_uuid_array(
            p.directories,
        ) + seq![0u8],
    }
}

/// The wire form of one record's body: the attribute byte, the two deltas,
/// the key behind its length (negative one for absent), the value behind its
/// length, and a zero header count.
pub open spec fn spec_enc_record(r: RecordView) -> Seq<u8> {
    seq![r.attributes.0] + crate::pb::spec_enc_svarint(r.timestamp_delta.0)
        + crate::pb::spec_enc_svarint(r.offset_delta.0) + (match r.key {
        None => crate::pb::spec_enc_svarint(-1i64),
        Some(k) => crate::pb::spec_enc_svarint(crate::pb::spec_sat_i64(k.len())) + k,
    }) + crate::pb::spec_enc_svarint(
        crate::pb::spec_sat_i64(spec_enc_record_value(r.value).len()),
    ) + spec_enc_record_value(r.value) + crate::pb::spec_enc_svarint(
        crate::pb::spec_sat_i64(r.headers.len()),
    )
}

/// The concatenated wire forms of the records, each behind its signed-varint
/// byte length.
pub open spec fn spec_enc_records(rs: Seq<RecordView>) -> Seq<u8>
    decreases rs.len(),
{
    if rs.len() == 0 {
        Seq::<u8>::empty()
    } else {
        crate::pb::spec_enc_svarint(crate::pb::spec_sat_i64(spec_enc_record(rs[0]).len()))
            + spec_enc_record(rs[0]) + spec_enc_records(rs.skip(1))
    }
}

/// The span of a batch that its checksum covers: the attribute word through
/// the records, with absent producer fields written as all ones.
#[verifier::opaque]
pub open spec fn spec_enc_batch_span(b: BatchView) -> Seq<u8> {
    crate::pb::spec_enc_u16(b.attributes) + crate::pb::spec_enc_u32(b.last_offset_delta)
        + crate::pb::spec_enc_u64(b.base_timestamp) + crate::pb::spec_enc_u64(b.max_timestamp)
        + crate::pb::spec_enc_u64(
        match b.producer_id {
            None => 0xffff_ffff_ffff_ffffu64,
            Some(v) => v,
        },
    ) + crate::pb::spec_enc_u16(
        match b.producer_epoch {
            None => 0xffffu16,
            Some(v) => v,
        },
    ) + crate::pb::spec_enc_u32(
        match b.base_sequence {
            None => 0xffff_ffffu32,
            Some(v) => v,
        },
    ) + crate::pb::spec_enc_u32(crate::pb::spec_sat_u32(b.records.len()))
        + spec_enc_records(b.records)
}

/// The wire form of a batch: its offset, the length of what follows, the
/// partition leader epoch, the magic byte, the checksum freshly computed
/// over the span, then the span.
#[verifier::opaque]
pub open spec fn spec_enc_batch(b: BatchView) -> Seq<u8> {
    crate::pb::spec_enc_u64(b.batch_offset.0) + crate::pb::spec_enc_u32(
        crate::pb::spec_sat_u32((9 + spec_enc_batch_span(b).len()) as nat),
    ) + crate::pb::spec_enc_u32(b.partition_leader_epoch) + seq![b.magic_byte]
        + crate::pb::spec_enc_u32(crc32c_of(spec_enc_batch_span(b))) + spec_enc_batch_span(b)
}

/// The concatenated wire forms of the batches.
pub open spec fn spec_enc_batches(bs: Seq<BatchView>) -> Seq<u8>
    decreases bs.len(),
{
    if bs.len() == 0 {
        Seq::<u8>::empty()
    } else {
        spec_enc_batch(bs[0]) + spec_enc_batches(bs.skip(1))
    }
}

fn enc_directories(out: &mut Vec<u8>, ds: &Vec<Directory>)
    ensures
        final(out)@ == old(out)@ + crate::pb::spec_enc_uuid_array(
            ds@.map_values(|d: Directory| d@),
        ),
{
    let ghost views = ds@.map_values(|d: Directory| d@);
    let mut prefix = VarInt::encode(crate::pb::len_plus_one(ds.len()));
    let ghost pre = out@;
    out.append(&mut prefix);
    let ghost mid = out@;
    let mut i: usize = 0;
    while i < ds.len()
        invariant
            i <= ds@.len(),
            views == ds@.map_values(|d: Directory| d@),
            out@ == mid + crate::pb::spec_enc_uuids(views.take(i as int)),
        decreases ds@.len() - i,
    {
        crate::pb::append_bytes(out, ds[i].0.as_slice());
        i = i + 1;
        proof {
            crate::pb::lemma_enc_uuids_snoc(views.take(i as int - 1), views[i as int - 1]);
            assert(views.take(i as int) =~= views.take(i as int - 1).push(views[i as int - 1]));
        }
    }
    proof {
        assert(views.take(views.len() as int) =~= views);
        assert(out@ =~= pre + crate::pb::spec_enc_uuid_array(views));
    }
}

impl RecordValue {
    /// Appends the wire form of this value to `out`.
    #[verifier::rlimit(100)]
    pub fn encode(&self, out: &mut Vec<u8>)
        ensures
            final(out)@ == old(out)@ + spec_enc_record_value(self@),
    {
        let ghost pre = out@;
        match self {
            RecordValue::FeatureLevelRecord(b) => {
                crate::pb::append_bytes(out, b.0.as_slice());
            },
            RecordValue::Raw(b) => {
                crate::pb::append_bytes(out, b.0.as_slice());
            },
            RecordValue::TopicRecord(t) => {
                out.push(t.0.0);
                out.push(0x02u8);
                out.push(t.1.0);
                crate::pb::enc_compact_string(out, t.2.0.as_str());
                crate::pb::append_bytes(out, t.3.0.as_slice());
                out.push(0u8);
                assert(out@ =~= pre + spec_enc_record_value(self@));
            },
            RecordValue::PartitionRecord(p) => {
                out.push(p.0.0);
                out.push(0x03u8);
                out.push(p.1.0);
                crate::pb::enc_u32(out, p.2.0);
                crate::pb::append_bytes(out, p.3.0.as_slice());
                crate::partition::enc_node_array(out, &p.7);
                crate::partition::enc_node_array(out, &p.8);
                crate::partition::enc_node_array(out, &p.10);
                crate::partition::enc_node_array(out, &p.9);
                crate::pb::enc_u32(out, p.4.0.0);
                crate::pb::enc_u32(out, p.5.0);
                crate::pb::enc_u32(out, p.6.0);
                enc_directories(out, &p.11);
                out.push(0u8);
                assert(out@ =~= pre + spec_enc_record_value(self@));
            },
        }
    }
}

impl Record {
    /// The wire form of this record's body.
    pub fn to_bytes(&self) -> (r: Vec<u8>)
        ensures
            r@ == spec_enc_record(self@),
    {
        let mut out: Vec<u8> = Vec::new();
        out.push(self.attributes.0);
        let mut ts = SignedVarInt::encode(self.timestamp_delta.0);
        out.append(&mut ts);
        let mut od = SignedVarInt::encode(self.offset_delta.0);
        out.append(&mut od);
        match &self.key {
            None => {
                let mut none_len = SignedVarInt::encode(-1);
                out.append(&mut none_len);
            },
            Some(k) => {
                let mut klen = SignedVarInt::encode(crate::pb::sat_i64(k.0.len()));
                out.append(&mut klen);
                crate::pb::append_bytes(&mut out, k.0.as_slice());
            },
        }
        let mut vb: Vec<u8> = Vec::new();
        self.value.encode(&mut vb);
        let mut vlen = SignedVarInt::encode(crate::pb::sat_i64(vb.len()));
        out.append(&mut vlen);
        out.append(&mut vb);
        let mut hc = SignedVarInt::encode(crate::pb::sat_i64(self.headers.len()));
        out.append(&mut hc);
        assert(out@ =~= spec_enc_record(self@));
        out
    }
}

/// The concatenated wire forms of the records, each behind its byte length.
fn enc_record_list(rs: &Vec<Record>) -> (r: Vec<u8>)
    ensures
        r@ == spec_enc_records(rs@.map_values(|x: Record| x@)),
{
    let ghost views = rs@.map_values(|x: Record| x@);
    let mut out: Vec<u8> = Vec::new();
    let mut i: usize = 0;
    while i < rs.len()
        invariant
            i <= rs@.len(),
            views == rs@.map_values(|x: Record| x@),
            out@ == spec_enc_records(views.take(i as int)),
        decreases rs@.len() - i,
    {
        let rb = rs[i].to_bytes();
        let mut prefix = SignedVarInt::encode(crate::pb::sat_i64(rb.len()));
        out.append(&mut prefix);
        let mut body = rb;
        out.append(&mut body);
        i = i + 1;
        proof {
            lemma_enc_records_snoc(views.take(i as int - 1), views[i as int - 1]);
            assert(views.take(i as int) =~= views.take(i as int - 1).push(views[i as int - 1]));
        }
    }
    proof {
        assert(views.take(views.len() as int) =~= views);
    }
    out
}

/// Appending one record to the list appends its length and bytes to the
/// encoding.
proof fn lemma_enc_records_snoc(rs: Seq<RecordView>, r: RecordView)
    ensures
        spec_enc_records(rs.push(r)) == spec_enc_records(rs) + crate::pb::spec_enc_svarint(
            crate::pb::spec_sat_i64(spec_enc_record(r).len()),
        ) + spec_enc_record(r),
    decreases rs.len(),
{
    let p = rs.push(r);
    let pfx = crate::pb::spec_enc_svarint(crate::pb::spec_sat_i64(spec_enc_record(r).len()));
    let body = spec_enc_record(r);
    assert(p.len() == rs.len() + 1);
    if rs.len() == 0 {
        assert(p[0] == r);
        assert(p.skip(1) =~= Seq::<RecordView>::empty());
        assert(spec_enc_records(p) == pfx + body + spec_enc_records(Seq::<RecordView>::empty()));
        assert(pfx + body + Seq::<u8>::empty() =~= pfx + body);
        assert(spec_enc_records(rs) + pfx =~= pfx);
    } else {
        let x = crate::pb::spec_enc_svarint(crate::pb::spec_sat_i64(spec_enc_record(rs[0]).len()))
            + spec_enc_record(rs[0]);
        let y = spec_enc_records(rs.skip(1));
        assert(p[0] == rs[0]);
        assert(p.skip(1) =~= rs.skip(1).push(r));
        lemma_enc_records_snoc(rs.skip(1), r);
        assert(spec_enc_records(p) == x + (y + pfx + body));
        assert(spec_enc_records(rs) == x + y);
        vstd::seq_lib::lemma_concat_associative(x, y + pfx, body);
        vstd::seq_lib::lemma_concat_associative(x, y, pfx);
        assert(spec_enc_records(p) == x + y + pfx + body);
    }
}

/// The checksum-covered span does not read the batch offset: two batches
/// that agree on everything else share it.
proof fn lemma_span_ignores_offset(a: BatchView, b: BatchView)
    requires
        a.attributes == b.attributes,
        a.last_offset_delta == b.last_offset_delta,
        a.base_timestamp == b.base_timestamp,
        a.max_timestamp == b.max_timestamp,
        a.producer_id == b.producer_id,
        a.producer_epoch == b.producer_epoch,
        a.base_sequence == b.base_sequence,
        a.records == b.records,
    ensures
        spec_enc_batch_span(a) == spec_enc_batch_span(b),
{
    reveal(spec_enc_batch_span);
}

impl Batch {
    /// The checksum-covered span of this batch: the attribute word through
    /// the records.
    fn span_bytes(&self) -> (r: Vec<u8>)
        ensures
            r@ == spec_enc_batch_span(self@),
    {
        proof {
            reveal(spec_enc_batch_span);
        }
        let mut out: Vec<u8> = Vec::new();
        crate::pb::enc_u16(&mut out, self.attributes);
        crate::pb::enc_u32(&mut out, self.last_offset_delta);
        crate::pb::enc_u64(&mut out, self.base_timestamp);
        crate::pb::enc_u64(&mut out, self.max_timestamp);
        crate::pb::enc_u64(
            &mut out,
            match self.producer_id {
                None => 0xffff_ffff_ffff_ffffu64,
                Some(v) => v,
            },
        );
        crate::pb::enc_u16(
            &mut out,
            match self.producer_epoch {
                None => 0xffffu16,
                Some(v) => v,
            },
        );
        crate::pb::enc_u32(
            &mut out,
            match self.base_sequence {
                None => 0xffff_ffffu32,
                Some(v) => v,
            },
        );
        crate::pb::enc_u32(&mut out, crate::pb::sat_u32(self.records.len()));
        let mut records = enc_record_list(&self.records);
        out.append(&mut records);
        assert(out@ =~= spec_enc_batch_span(self@));
        out
    }

    /// The wire form of this batch, its checksum freshly computed, written
    /// as if it sat at the given offset.
    pub fn to_bytes_at(&self, offset: u64) -> (r: Vec<u8>)
        ensures
            r@ == spec_enc_batch(
                BatchView { batch_offset: BatchOffset(offset), ..self@ },
            ),
    {
        let ghost target = BatchView { batch_offset: BatchOffset(offset), ..self@ };
        proof {
            reveal(spec_enc_batch);
        }
        let span = self.span_bytes();
        proof {
            lemma_span_ignores_offset(target, self@);
        }
        let crc = crc32c(&span);
        let n = span.len() as u64;
        let len32: u32 = if n <= 0xffff_fff6u64 {
            (n + 9) as u32
        } else {
            0xffff_ffffu32
        };
        proof {
            assert(len32 == crate::pb::spec_sat_u32((9 + span@.len()) as nat));
        }
        let mut out: Vec<u8> = Vec::new();
        crate::pb::enc_u64(&mut out, offset);
        proof {
            assert(Seq::<u8>::empty() + crate::pb::spec_enc_u64(offset) =~= crate::pb::spec_enc_u64(
                offset,
            ));
        }
        crate::pb::enc_u32(&mut out, len32);
        crate::pb::enc_u32(&mut out, self.partition_leader_epoch);
        let ghost prefix = out@;
        out.push(self.magic_byte);
        proof {
            assert(out@ =~= prefix + seq![self.magic_byte]);
        }
        crate::pb::enc_u32(&mut out, crc);
        let mut body = span;
        out.append(&mut body);
        proof {
            assert(out@ == crate::pb::spec_enc_u64(offset) + crate::pb::spec_enc_u32(len32)
                + crate::pb::spec_enc_u32(self.partition_leader_epoch) + seq![self.magic_byte]
                + crate::pb::spec_enc_u32(crc) + spec_enc_batch_span(target));
        }
        out
    }

    /// The wire form of this batch, its checksum freshly computed.
    pub fn to_bytes(&self) -> (r: Vec<u8>)
        ensures
            r@ == spec_enc_batch(self@),
    {
        let r = self.to_bytes_at(self.batch_offset.0);
        proof {
            assert((BatchView { batch_offset: self.batch_offset, ..self@ }) == self@);
        }
        r
    }

    /// This batch, moved to sit at another offset.
    pub fn set_offset(self, v: BatchOffset) -> (r: Batch)
        ensures
            r@ == (BatchView { batch_offset: v, ..self@ }),
    {
        Batch { batch_offset: v, ..self }
    }
}

// ---------------------------------------------------------------------------
// Reading typed values back out
// ---------------------------------------------------------------------------

/// The topic id a record value names: topic and partition records name one,
/// other values none.
pub open spec fn spec_value_topic_id(v: RecordValueView) -> Option<Seq<u8>> {
    match v {
        RecordValueView::TopicRecord(t) => Some(t.id),
        RecordValueView::PartitionRecord(p) => Some(p.topic_id),
        _ => None,
    }
}

/// The topic name a record value carries: only topic records carry one.
pub open spec fn spec_value_name(v: RecordValueView) -> Option<Seq<char>> {
    match v {
        RecordValueView::TopicRecord(t) => Some(t.name),
        _ => None,
    }
}

impl RecordValue {
    /// This value's topic record, if it is one.
    pub fn topic_record(&self) -> (r: Option<&TopicRecordValue>)
        ensures
            match r {
                Some(t) => self@ == RecordValueView::TopicRecord(t@),
                None => !(self@ is TopicRecord),
            },
    {
        match self {
            RecordValue::TopicRecord(t) => Some(t),
            _ => None,
        }
    }

    /// This value's partition record, if it is one.
    pub fn partition_record(&self) -> (r: Option<&PartitionRecordValue>)
        ensures
            match r {
                Some(p) => self@ == RecordValueView::PartitionRecord(p@),
                None => !(self@ is PartitionRecord),
            },
    {
        match self {
            RecordValue::PartitionRecord(p) => Some(p),
            _ => None,
        }
    }

    /// This value's feature-level record, if it is one.
    pub fn feature_level_record(&self) -> (r: Option<&FeatureLevelRecordValue>)
        ensures
            match r {
                Some(b) => self@ == RecordValueView::FeatureLevelRecord(b@),
                None => !(self@ is FeatureLevelRecord),
            },
    {
        match self {
            RecordValue::FeatureLevelRecord(b) => Some(b),
            _ => None,
        }
    }

    /// This value's raw bytes, if it is of no recognised kind.
    pub fn raw(&self) -> (r: Option<&RawValue>)
        ensures
            match r {
                Some(b) => self@ == RecordValueView::Raw(b@),
                None => !(self@ is Raw),
            },
    {
        match self {
            RecordValue::Raw(b) => Some(b),
            _ => None,
        }
    }

    /// The topic id this value names, if it names one.
    pub fn topic_id(&self) -> (r: Option<TopicId>)
        ensures
            match r {
                Some(id) => spec_value_topic_id(self@) == Some(id@),
                None => spec_value_topic_id(self@) is None,
            },
    {
        match self {
            RecordValue::TopicRecord(t) => Some(TopicId(vstd::slice::slice_to_vec(
                t.3.0.as_slice(),
            ))),
            RecordValue::PartitionRecord(p) => Some(TopicId(vstd::slice::slice_to_vec(
                p.3.0.as_slice(),
            ))),
            _ => None,
        }
    }

    /// The topic name this value carries, if it carries one.
    pub fn name(&self) -> (r: Option<TopicName>)
        ensures
            match r {
                Some(n) => spec_value_name(self@) == Some(n@),
                None => spec_value_name(self@) is None,
            },
    {
        match self {
            RecordValue::TopicRecord(t) => Some(TopicName(t.2.0.clone())),
            _ => None,
        }
    }
}

impl Record {
    /// Whether this record carries a partition record value.
    pub fn is_partition_record(&self) -> (r: bool)
        ensures
            r == (self@.value is PartitionRecord),
    {
        match self.value {
            RecordValue::PartitionRecord(_) => true,
            _ => false,
        }
    }

    /// Whether this record carries a topic record value.
    pub fn is_topic_record(&self) -> (r: bool)
        ensures
            r == (self@.value is TopicRecord),
    {
        match self.value {
            RecordValue::TopicRecord(_) => true,
            _ => false,
        }
    }

    /// The topic id this record's value names, if it names one.
    pub fn topic_id(&self) -> (r: Option<TopicId>)
        ensures
            match r {
                Some(id) => spec_value_topic_id(self@.value) == Some(id@),
                None => spec_value_topic_id(self@.value) is None,
            },
    {
        self.value.topic_id()
    }
}

// ---------------------------------------------------------------------------
// The loaded metadata log and its queries
// ---------------------------------------------------------------------------

/// The topic id the first matching topic record maps the name to, scanning
/// records in order.
pub open spec fn spec_find_topic_id_recs(rs: Seq<RecordView>, name: Seq<char>) -> Option<Seq<u8>>
    decreases rs.len(),
{
    if rs.len() == 0 {
        None
    } else if spec_value_name(rs[0].value) == Some(name) && spec_value_topic_id(rs[0].value)
        is Some {
        spec_value_topic_id(rs[0].value)
    } else {
        spec_find_topic_id_recs(rs.skip(1), name)
    }
}

/// The topic id the metadata maps the name to, scanning batches in order.
pub open spec fn spec_find_topic_id(bs: Seq<BatchView>, name: Seq<char>) -> Option<Seq<u8>>
    decreases bs.len(),
{
    if bs.len() == 0 {
        None
    } else {
        match spec_find_topic_id_recs(bs[0].records, name) {
            Some(id) => Some(id),
            None => spec_find_topic_id(bs.skip(1), name),
        }
    }
}

/// The topic name the first matching topic record gives the id, scanning
/// records in order.
pub open spec fn spec_find_topic_name_recs(rs: Seq<RecordView>, id: Seq<u8>) -> Option<Seq<char>>
    decreases rs.len(),
{
    if rs.len() == 0 {
        None
    } else if spec_value_topic_id(rs[0].value) == Some(id) && spec_value_name(rs[0].value)
        is Some {
        spec_value_name(rs[0].value)
    } else {
        spec_find_topic_name_recs(rs.skip(1), id)
    }
}

/// The topic name the metadata gives the id, scanning batches in order.
pub open spec fn spec_find_topic_name(bs: Seq<BatchView>, id: Seq<u8>) -> Option<Seq<char>>
    decreases bs.len(),
{
    if bs.len() == 0 {
        None
    } else {
        match spec_find_topic_name_recs(bs[0].records, id) {
            Some(n) => Some(n),
            None => spec_find_topic_name(bs.skip(1), id),
        }
    }
}

/// Every partition record of the topic, in record order.
pub open spec fn spec_find_partitions_recs(rs: Seq<RecordView>, id: Seq<u8>) -> Seq<
    PartitionRecordView,
>
    decreases rs.len(),
{
    if rs.len() == 0 {
        Seq::<PartitionRecordView>::empty()
    } else {
        let tail = spec_find_partitions_recs(rs.skip(1), id);
        match rs[0].value {
            RecordValueView::PartitionRecord(p) => if p.topic_id == id {
                seq![p] + tail
            } else {
                tail
            },
            _ => tail,
        }
    }
}

/// Every partition record of the topic, in batch and record order.
pub open spec fn spec_find_partitions(bs: Seq<BatchView>, id: Seq<u8>) -> Seq<PartitionRecordView>
    decreases bs.len(),
{
    if bs.len() == 0 {
        Seq::<PartitionRecordView>::empty()
    } else {
        spec_find_partitions_recs(bs[0].records, id) + spec_find_partitions(bs.skip(1), id)
    }
}

/// Whether some record of the list names the topic id.
pub open spec fn spec_recs_mention_id(rs: Seq<RecordView>, id: Seq<u8>) -> bool
    decreases rs.len(),
{
    if rs.len() == 0 {
        false
    } else {
        spec_value_topic_id(rs[0].value) == Some(id) || spec_recs_mention_id(rs.skip(1), id)
    }
}

/// The first batch holding a record that names the topic id.
pub open spec fn spec_find_batch(bs: Seq<BatchView>, id: Seq<u8>) -> Option<BatchView>
    decreases bs.len(),
{
    if bs.len() == 0 {
        None
    } else if spec_recs_mention_id(bs[0].records, id) {
        Some(bs[0])
    } else {
        spec_find_batch(bs.skip(1), id)
    }
}

// ---------------------------------------------------------------------------
// What the queries answer
// ---------------------------------------------------------------------------

/// The name-and-id pair a record carries, when it is a topic record.
pub open spec fn rec_topic_pair(r: RecordView) -> Option<(Seq<char>, Seq<u8>)> {
    match r.value {
        RecordValueView::TopicRecord(t) => Some((t.name, t.id)),
        _ => None,
    }
}

/// Whether a record is a topic record spelling the name.
pub open spec fn rec_has_name(r: RecordView, name: Seq<char>) -> bool {
    match rec_topic_pair(r) {
        Some(p) => p.0 == name,
        None => false,
    }
}

/// Whether a record is a topic record carrying the id.
pub open spec fn rec_has_id(r: RecordView, id: Seq<u8>) -> bool {
    match rec_topic_pair(r) {
        Some(p) => p.1 == id,
        None => false,
    }
}

/// Whether some topic record of the metadata carries the name-and-id pair.
pub open spec fn topic_pair_occurs(m: Seq<BatchView>, name: Seq<char>, id: Seq<u8>) -> bool {
    exists|i: int, j: int|
        0 <= i < m.len() && 0 <= j < m[i].records.len() && #[trigger] rec_topic_pair(
            m[i].records[j],
        ) == Some((name, id))
}

proof fn lemma_fti_recs_char(rs: Seq<RecordView>, name: Seq<char>)
    ensures
        match spec_find_topic_id_recs(rs, name) {
            Some(id) => exists|j: int|
                0 <= j < rs.len() && #[trigger] rec_topic_pair(rs[j]) == Some((name, id)),
            None => forall|j: int| 0 <= j < rs.len() ==> !rec_has_name(#[trigger] rs[j], name),
        },
    decreases rs.len(),
{
    if rs.len() == 0 {
    } else {
        let c0 = spec_value_name(rs[0].value) == Some(name) && spec_value_topic_id(rs[0].value)
            is Some;
        if c0 {
            assert(rec_topic_pair(rs[0]) == Some(
                (name, spec_value_topic_id(rs[0].value).unwrap()),
            ));
        } else {
            lemma_fti_recs_char(rs.skip(1), name);
            assert(!rec_has_name(rs[0], name)) by {
                if rec_has_name(rs[0], name) {
                    assert(spec_value_name(rs[0].value) == Some(name));
                    assert(spec_value_topic_id(rs[0].value) is Some);
                }
            }
            match spec_find_topic_id_recs(rs.skip(1), name) {
                Some(id) => {
                    let j = choose|j: int|
                        0 <= j < rs.skip(1).len() && #[trigger] rec_topic_pair(rs.skip(1)[j])
                            == Some((name, id));
                    assert(rs.skip(1)[j] == rs[j + 1]);
                },
                None => {
                    assert forall|j: int| 0 <= j < rs.len() implies !rec_has_name(
                        #[trigger] rs[j],
                        name,
                    ) by {
                        if j > 0 {
                            assert(rs.skip(1)[j - 1] == rs[j]);
                        }
                    }
                },
            }
        }
    }
}

proof fn lemma_fti_char(m: Seq<BatchView>, name: Seq<char>)
    ensures
        match spec_find_topic_id(m, name) {
            Some(id) => topic_pair_occurs(m, name, id),
            None => forall|i: int, j: int|
                0 <= i < m.len() && 0 <= j < m[i].records.len() ==> !rec_has_name(
                    #[trigger] m[i].records[j],
                    name,
                ),
        },
    decreases m.len(),
{
    if m.len() == 0 {
    } else {
        lemma_fti_recs_char(m[0].records, name);
        match spec_find_topic_id_recs(m[0].records, name) {
            Some(id) => {
                let j = choose|j: int|
                    0 <= j < m[0].records.len() && #[trigger] rec_topic_pair(m[0].records[j])
                        == Some((name, id));
                assert(rec_topic_pair(m[0].records[j]) == Some((name, id)));
                assert(topic_pair_occurs(m, name, id));
            },
            None => {
                lemma_fti_char(m.skip(1), name);
                match spec_find_topic_id(m.skip(1), name) {
                    Some(id) => {
                        let (i, j): (int, int) = choose|i: int, j: int|
                            0 <= i < m.skip(1).len() && 0 <= j < m.skip(1)[i].records.len()
                                && #[trigger] rec_topic_pair(m.skip(1)[i].records[j]) == Some(
                                (name, id),
                            );
                        assert(m.skip(1)[i] == m[i + 1]);
                        assert(topic_pair_occurs(m, name, id));
                    },
                    None => {
                        assert forall|i: int, j: int|
                            0 <= i < m.len() && 0 <= j < m[i].records.len() implies !rec_has_name(
                            #[trigger] m[i].records[j],
                            name,
                        ) by {
                            if i > 0 {
                                assert(m.skip(1)[i - 1] == m[i]);
                            }
                        }
                    },
                }
            },
        }
    }
}

proof fn lemma_ftn_recs_char(rs: Seq<RecordView>, id: Seq<u8>)
    ensures
        match spec_find_topic_name_recs(rs, id) {
            Some(name) => exists|j: int|
                0 <= j < rs.len() && #[trigger] rec_topic_pair(rs[j]) == Some((name, id)),
            None => forall|j: int| 0 <= j < rs.len() ==> !rec_has_id(#[trigger] rs[j], id),
        },
    decreases rs.len(),
{
    if rs.len() == 0 {
    } else {
        let c0 = spec_value_topic_id(rs[0].value) == Some(id) && spec_value_name(rs[0].value)
            is Some;
        if c0 {
            assert(rec_topic_pair(rs[0]) == Some((spec_value_name(rs[0].value).unwrap(), id)));
        } else {
            lemma_ftn_recs_char(rs.skip(1), id);
            assert(!rec_has_id(rs[0], id)) by {
                if rec_has_id(rs[0], id) {
                    assert(spec_value_topic_id(rs[0].value) == Some(id));
                    assert(spec_value_name(rs[0].value) is Some);
                }
            }
            match spec_find_topic_name_recs(rs.skip(1), id) {
                Some(name) => {
                    let j = choose|j: int|
                        0 <= j < rs.skip(1).len() && #[trigger] rec_topic_pair(rs.skip(1)[j])
                            == Some((name, id));
                    assert(rs.skip(1)[j] == rs[j + 1]);
                },
                None => {
                    assert forall|j: int| 0 <= j < rs.len() implies !rec_has_id(
                        #[trigger] rs[j],
                        id,
                    ) by {
                        if j > 0 {
                            assert(rs.skip(1)[j - 1] == rs[j]);
                        }
                    }
                },
            }
        }
    }
}

proof fn lemma_ftn_char(m: Seq<BatchView>, id: Seq<u8>)
    ensures
        match spec_find_topic_name(m, id) {
            Some(name) => topic_pair_occurs(m, name, id),
            None => forall|i: int, j: int|
                0 <= i < m.len() && 0 <= j < m[i].records.len() ==> !rec_has_id(
                    #[trigger] m[i].records[j],
                    id,
                ),
        },
    decreases m.len(),
{
    if m.len() == 0 {
    } else {
        lemma_ftn_recs_char(m[0].records, id);
        match spec_find_topic_name_recs(m[0].records, id) {
            Some(name) => {
                let j = choose|j: int|
                    0 <= j < m[0].records.len() && #[trigger] rec_topic_pair(m[0].records[j])
                        == Some((name, id));
                assert(topic_pair_occurs(m, name, id));
            },
            None => {
                lemma_ftn_char(m.skip(1), id);
                match spec_find_topic_name(m.skip(1), id) {
                    Some(name) => {
                        let (i, j): (int, int) = choose|i: int, j: int|
                            0 <= i < m.skip(1).len() && 0 <= j < m.skip(1)[i].records.len()
                                && #[trigger] rec_topic_pair(m.skip(1)[i].records[j]) == Some(
                                (name, id),
                            );
                        assert(m.skip(1)[i] == m[i + 1]);
                        assert(topic_pair_occurs(m, name, id));
                    },
                    None => {
                        assert forall|i: int, j: int|
                            0 <= i < m.len() && 0 <= j < m[i].records.len() implies !rec_has_id(
                            #[trigger] m[i].records[j],
                            id,
                        ) by {
                            if i > 0 {
                                assert(m.skip(1)[i - 1] == m[i]);
                            }
                        }
                    },
                }
            },
        }
    }
}

/// Every topic record of a loaded log resolves back from its id: as long as
/// no two topic records share an id, which a loaded log guarantees, looking
/// the record's id up gives the record's name.
pub proof fn lemma_topic_id_resolves(m: Seq<BatchView>, name: Seq<char>, id: Seq<u8>)
    requires
        topic_pair_occurs(m, name, id),
        forall|n1: Seq<char>, n2: Seq<char>, i: Seq<u8>|
            topic_pair_occurs(m, n1, i) && topic_pair_occurs(m, n2, i) ==> n1 == n2,
    ensures
        spec_find_topic_name(m, id) == Some(name),
{
    lemma_ftn_char(m, id);
    match spec_find_topic_name(m, id) {
        Some(n2) => {
            assert(topic_pair_occurs(m, n2, id));
            assert(n2 == name);
        },
        None => {
            let (i, j): (int, int) = choose|i: int, j: int|
                0 <= i < m.len() && 0 <= j < m[i].records.len() && #[trigger] rec_topic_pair(
                    m[i].records[j],
                ) == Some((name, id));
            assert(rec_has_id(m[i].records[j], id));
        },
    }
}

/// Every topic record of a loaded log is found by its name: as long as no
/// two topic records spell one name with different ids, looking the record's
/// name up gives the record's id. Without that premise the claim fails: of
/// two topic records spelling one name with two ids, a scan in record order
/// can only ever answer with the first.
pub proof fn lemma_topic_name_resolves(m: Seq<BatchView>, name: Seq<char>, id: Seq<u8>)
    requires
        topic_pair_occurs(m, name, id),
        forall|n: Seq<char>, id1: Seq<u8>, id2: Seq<u8>|
            topic_pair_occurs(m, n, id1) && topic_pair_occurs(m, n, id2) ==> id1 == id2,
    ensures
        spec_find_topic_id(m, name) == Some(id),
{
    lemma_fti_char(m, name);
    match spec_find_topic_id(m, name) {
        Some(id2) => {
            assert(topic_pair_occurs(m, name, id2));
            assert(id2 == id);
        },
        None => {
            let (i, j): (int, int) = choose|i: int, j: int|
                0 <= i < m.len() && 0 <= j < m[i].records.len() && #[trigger] rec_topic_pair(
                    m[i].records[j],
                ) == Some((name, id));
            assert(rec_has_name(m[i].records[j], name));
        },
    }
}

proof fn lemma_find_partitions_recs_exact(rs: Seq<RecordView>, id: Seq<u8>, p: PartitionRecordView)
    ensures
        spec_find_partitions_recs(rs, id).contains(p) <==> (p.topic_id == id && exists|j: int|
            0 <= j < rs.len() && #[trigger] rs[j].value == RecordValueView::PartitionRecord(p)),
    decreases rs.len(),
{
    if rs.len() == 0 {
        assert(!spec_find_partitions_recs(rs, id).contains(p));
    } else {
        lemma_find_partitions_recs_exact(rs.skip(1), id, p);
        let tail = spec_find_partitions_recs(rs.skip(1), id);
        let whole = spec_find_partitions_recs(rs, id);
        match rs[0].value {
            RecordValueView::PartitionRecord(q) => {
                if q.topic_id == id {
                    assert(whole == seq![q] + tail);
                    assert(whole.contains(p) <==> (p == q || tail.contains(p))) by {
                        if whole.contains(p) {
                            let k = choose|k: int| 0 <= k < whole.len() && whole[k] == p;
                            if k == 0 {
                            } else {
                                assert(tail[k - 1] == p);
                            }
                        }
                        if p == q {
                            assert(whole[0] == p);
                        }
                        if tail.contains(p) {
                            let k = choose|k: int| 0 <= k < tail.len() && tail[k] == p;
                            assert(whole[k + 1] == p);
                        }
                    }
                } else {
                    assert(whole == tail);
                }
            },
            _ => {
                assert(whole == tail);
            },
        }
        assert(whole.contains(p) <==> (p.topic_id == id && exists|j: int|
            0 <= j < rs.len() && #[trigger] rs[j].value == RecordValueView::PartitionRecord(
                p,
            ))) by {
            if whole.contains(p) {
                if tail.contains(p) {
                    let j = choose|j: int|
                        0 <= j < rs.skip(1).len() && #[trigger] rs.skip(1)[j].value
                            == RecordValueView::PartitionRecord(p);
                    assert(rs.skip(1)[j] == rs[j + 1]);
                    assert(rs[j + 1].value == RecordValueView::PartitionRecord(p));
                } else {
                    assert(rs[0].value == RecordValueView::PartitionRecord(p));
                }
            }
            if p.topic_id == id && exists|j: int|
                0 <= j < rs.len() && #[trigger] rs[j].value == RecordValueView::PartitionRecord(
                    p,
                ) {
                let j = choose|j: int|
                    0 <= j < rs.len() && #[trigger] rs[j].value
                        == RecordValueView::PartitionRecord(p);
                if j == 0 {
                } else {
                    assert(rs.skip(1)[j - 1] == rs[j]);
                    assert(tail.contains(p));
                }
            }
        }
    }
}

/// The partitions query answers with exactly the partition records of the
/// topic: a partition record value is in its result just when some record of
/// the metadata carries it with the asked id.
pub proof fn lemma_find_partitions_exact(m: Seq<BatchView>, id: Seq<u8>, p: PartitionRecordView)
    ensures
        spec_find_partitions(m, id).contains(p) <==> (p.topic_id == id && exists|i: int, j: int|
            0 <= i < m.len() && 0 <= j < m[i].records.len() && #[trigger] m[i].records[j].value
                == RecordValueView::PartitionRecord(p)),
    decreases m.len(),
{
    if m.len() == 0 {
        assert(!spec_find_partitions(m, id).contains(p));
    } else {
        lemma_find_partitions_recs_exact(m[0].records, id, p);
        lemma_find_partitions_exact(m.skip(1), id, p);
        let head = spec_find_partitions_recs(m[0].records, id);
        let tail = spec_find_partitions(m.skip(1), id);
        let whole = spec_find_partitions(m, id);
        assert(whole == head + tail);
        assert(whole.contains(p) <==> (head.contains(p) || tail.contains(p))) by {
            if whole.contains(p) {
                let k = choose|k: int| 0 <= k < whole.len() && whole[k] == p;
                if k < head.len() {
                    assert(head[k] == p);
                } else {
                    assert(tail[k - head.len()] == p);
                }
            }
            if head.contains(p) {
                let k = choose|k: int| 0 <= k < head.len() && head[k] == p;
                assert(whole[k] == p);
            }
            if tail.contains(p) {
                let k = choose|k: int| 0 <= k < tail.len() && tail[k] == p;
                assert(whole[head.len() + k] == p);
            }
        }
        assert(whole.contains(p) <==> (p.topic_id == id && exists|i: int, j: int|
            0 <= i < m.len() && 0 <= j < m[i].records.len() && #[trigger] m[i].records[j].value
                == RecordValueView::PartitionRecord(p))) by {
            if whole.contains(p) {
                if head.contains(p) {
                    let j = choose|j: int|
                        0 <= j < m[0].records.len() && #[trigger] m[0].records[j].value
                            == RecordValueView::PartitionRecord(p);
                    assert(m[0].records[j].value == RecordValueView::PartitionRecord(p));
                } else {
                    let (i, j): (int, int) = choose|i: int, j: int|
                        0 <= i < m.skip(1).len() && 0 <= j < m.skip(1)[i].records.len()
                            && #[trigger] m.skip(1)[i].records[j].value
                            == RecordValueView::PartitionRecord(p);
                    assert(m.skip(1)[i] == m[i + 1]);
                    assert(m[i + 1].records[j].value == RecordValueView::PartitionRecord(p));
                }
            }
            if p.topic_id == id && exists|i: int, j: int|
                0 <= i < m.len() && 0 <= j < m[i].records.len() && #[trigger] m[i].records[j].value
                    == RecordValueView::PartitionRecord(p) {
                let (i, j): (int, int) = choose|i: int, j: int|
                    0 <= i < m.len() && 0 <= j < m[i].records.len()
                        && #[trigger] m[i].records[j].value == RecordValueView::PartitionRecord(
                        p,
                    );
                if i == 0 {
                    assert(head.contains(p));
                } else {
                    assert(m.skip(1)[i - 1] == m[i]);
                    assert(tail.contains(p));
                }
            }
        }
    }
}

/// The cluster metadata: every batch of the metadata log, in order.
#[derive(Debug, Clone)]
pub struct Meta(pub Vec<Batch>);

impl View for Meta {
    type V = Seq<BatchView>;

    open spec fn view(&self) -> Seq<BatchView> {
        self.0@.map_values(|b: Batch| b@)
    }
}

/// One partition's log: its batches, in order.
#[derive(Debug, Clone)]
pub struct Log(pub Vec<Batch>);

impl View for Log {
    type V = Seq<BatchView>;

    open spec fn view(&self) -> Seq<BatchView> {
        self.0@.map_values(|b: Batch| b@)
    }
}

impl Log {
    /// Wraps loaded batches.
    pub fn new(v: Vec<Batch>) -> (r: Log)
        ensures
            r@ == v@.map_values(|b: Batch| b@),
    {
        Log(v)
    }

    /// The wrapped batches.
    pub fn batches(&self) -> (r: &Vec<Batch>)
        ensures
            r@.map_values(|b: Batch| b@) == self@,
    {
        &self.0
    }
}

fn find_topic_id_in_records(rs: &Vec<Record>, i: usize, name: &TopicName) -> (r: Option<TopicId>)
    requires
        i <= rs@.len(),
    ensures
        match r {
            Some(id) => spec_find_topic_id_recs(
                rs@.map_values(|x: Record| x@).skip(i as int),
                name@,
            ) == Some(id@),
            None => spec_find_topic_id_recs(rs@.map_values(|x: Record| x@).skip(i as int), name@)
                is None,
        },
    decreases rs@.len() - i,
{
    let ghost views = rs@.map_values(|x: Record| x@);
    if i >= rs.len() {
        proof {
            assert(views.skip(i as int) =~= Seq::<RecordView>::empty());
        }
        None
    } else {
        proof {
            assert(views.skip(i as int)[0] == views[i as int]);
            assert(views.skip(i as int).skip(1) =~= views.skip(i as int + 1));
        }
        let matched: bool = match rs[i].value.name() {
            Some(n) => n.matches(name),
            None => false,
        };
        if matched {
            match rs[i].value.topic_id() {
                Some(id) => Some(id),
                None => find_topic_id_in_records(rs, i + 1, name),
            }
        } else {
            find_topic_id_in_records(rs, i + 1, name)
        }
    }
}

fn find_topic_name_in_records(rs: &Vec<Record>, i: usize, id: &TopicId) -> (r: Option<TopicName>)
    requires
        i <= rs@.len(),
    ensures
        match r {
            Some(n) => spec_find_topic_name_recs(
                rs@.map_values(|x: Record| x@).skip(i as int),
                id@,
            ) == Some(n@),
            None => spec_find_topic_name_recs(rs@.map_values(|x: Record| x@).skip(i as int), id@)
                is None,
        },
    decreases rs@.len() - i,
{
    let ghost views = rs@.map_values(|x: Record| x@);
    if i >= rs.len() {
        proof {
            assert(views.skip(i as int) =~= Seq::<RecordView>::empty());
        }
        None
    } else {
        proof {
            assert(views.skip(i as int)[0] == views[i as int]);
            assert(views.skip(i as int).skip(1) =~= views.skip(i as int + 1));
        }
        let matched: bool = match rs[i].value.topic_id() {
            Some(t) => t.matches(id),
            None => false,
        };
        if matched {
            match rs[i].value.name() {
                Some(n) => Some(n),
                None => find_topic_name_in_records(rs, i + 1, id),
            }
        } else {
            find_topic_name_in_records(rs, i + 1, id)
        }
    }
}

impl Meta {
    /// Wraps loaded batches.
    pub fn new(v: Vec<Batch>) -> (r: Meta)
        ensures
            r@ == v@.map_values(|b: Batch| b@),
    {
        Meta(v)
    }

    /// The topic id the metadata maps the name to: the first topic record
    /// spelling the name, scanned in batch and record order.
    pub fn find_topic_id(&self, topic_name: &TopicName) -> (r: Option<TopicId>)
        ensures
            match r {
                Some(id) => spec_find_topic_id(self@, topic_name@) == Some(id@),
                None => spec_find_topic_id(self@, topic_name@) is None,
            },
    {
        proof {
            assert(self@.skip(0) =~= self@);
        }
        self.find_topic_id_from(0, topic_name)
    }

    fn find_topic_id_from(&self, i: usize, topic_name: &TopicName) -> (r: Option<TopicId>)
        requires
            i <= self.0@.len(),
        ensures
            match r {
                Some(id) => spec_find_topic_id(self@.skip(i as int), topic_name@) == Some(id@),
                None => spec_find_topic_id(self@.skip(i as int), topic_name@) is None,
            },
        decreases self.0@.len() - i,
    {
        if i >= self.0.len() {
            proof {
                assert(self@.skip(i as int) =~= Seq::<BatchView>::empty());
            }
            None
        } else {
            proof {
                assert(self@.skip(i as int)[0] == self@[i as int]);
                assert(self@.skip(i as int).skip(1) =~= self@.skip(i as int + 1));
            }
            match find_topic_id_in_records(&self.0[i].records, 0, topic_name) {
                Some(id) => {
                    proof {
                        let rviews = self.0@[i as int].records@.map_values(|x: Record| x@);
                        assert(rviews.skip(0) =~= rviews);
                    }
                    Some(id)
                },
                None => {
                    proof {
                        let rviews = self.0@[i as int].records@.map_values(|x: Record| x@);
                        assert(rviews.skip(0) =~= rviews);
                    }
                    self.find_topic_id_from(i + 1, topic_name)
                },
            }
        }
    }

    /// The topic name the metadata gives the id: the first topic record
    /// carrying the id, scanned in batch and record order.
    pub fn find_topic_name(&self, topic_id: &TopicId) -> (r: Option<TopicName>)
        ensures
            match r {
                Some(n) => spec_find_topic_name(self@, topic_id@) == Some(n@),
                None => spec_find_topic_name(self@, topic_id@) is None,
            },
    {
        proof {
            assert(self@.skip(0) =~= self@);
        }
        self.find_topic_name_from(0, topic_id)
    }

    fn find_topic_name_from(&self, i: usize, topic_id: &TopicId) -> (r: Option<TopicName>)
        requires
            i <= self.0@.len(),
        ensures
            match r {
                Some(n) => spec_find_topic_name(self@.skip(i as int), topic_id@) == Some(n@),
                None => spec_find_topic_name(self@.skip(i as int), topic_id@) is None,
            },
        decreases self.0@.len() - i,
    {
        if i >= self.0.len() {
            proof {
                assert(self@.skip(i as int) =~= Seq::<BatchView>::empty());
            }
            None
        } else {
            proof {
                assert(self@.skip(i as int)[0] == self@[i as int]);
                assert(self@.skip(i as int).skip(1) =~= self@.skip(i as int + 1));
            }
            match find_topic_name_in_records(&self.0[i].records, 0, topic_id) {
                Some(n) => {
                    proof {
                        let rviews = self.0@[i as int].records@.map_values(|x: Record| x@);
                        assert(rviews.skip(0) =~= rviews);
                    }
                    Some(n)
                },
                None => {
                    proof {
                        let rviews = self.0@[i as int].records@.map_values(|x: Record| x@);
                        assert(rviews.skip(0) =~= rviews);
                    }
                    self.find_topic_name_from(i + 1, topic_id)
                },
            }
        }
    }
}

// ---------------------------------------------------------------------------
// Copying records, and reading a batch's records back out
// ---------------------------------------------------------------------------

fn copy_vec<T: Copy>(xs: &Vec<T>) -> (r: Vec<T>)
    ensures
        r@ == xs@,
{
    let mut out: Vec<T> = Vec::new();
    let mut i: usize = 0;
    while i < xs.len()
        invariant
            i <= xs@.len(),
            out@ == xs@.take(i as int),
        decreases xs@.len() - i,
    {
        out.push(xs[i]);
        i = i + 1;
        proof {
            assert(out@ =~= xs@.take(i as int));
        }
    }
    proof {
        assert(out@ =~= xs@);
    }
    out
}

fn copy_directories(ds: &Vec<Directory>) -> (r: Vec<Directory>)
    ensures
        r@.map_values(|d: Directory| d@) == ds@.map_values(|d: Directory| d@),
{
    let ghost target = ds@.map_values(|d: Directory| d@);
    let mut out: Vec<Directory> = Vec::new();
    let mut i: usize = 0;
    while i < ds.len()
        invariant
            i <= ds@.len(),
            target == ds@.map_values(|d: Directory| d@),
            out@.len() == i,
            forall|j: int| 0 <= j < i ==> #[trigger] out@[j]@ == target[j],
        decreases ds@.len() - i,
    {
        out.push(Directory(vstd::slice::slice_to_vec(ds[i].0.as_slice())));
        i = i + 1;
    }
    proof {
        let m = out@.map_values(|d: Directory| d@);
        assert forall|j: int| 0 <= j < out@.len() implies #[trigger] m[j] == target[j] by {
            assert(out@[j]@ == target[j]);
        }
        assert(m =~= target);
    }
    out
}

impl RecordValue {
    /// A fresh value holding the same content.
    pub fn duplicate(&self) -> (r: RecordValue)
        ensures
            r@ == self@,
    {
        match self {
            RecordValue::FeatureLevelRecord(b) => RecordValue::FeatureLevelRecord(
                FeatureLevelRecordValue(vstd::slice::slice_to_vec(b.0.as_slice())),
            ),
            RecordValue::Raw(b) => RecordValue::Raw(
                RawValue(vstd::slice::slice_to_vec(b.0.as_slice())),
            ),
            RecordValue::TopicRecord(t) => RecordValue::TopicRecord(
                TopicRecordValue(
                    t.0,
                    t.1,
                    TopicName(t.2.0.clone()),
                    TopicId(vstd::slice::slice_to_vec(t.3.0.as_slice())),
                ),
            ),
            RecordValue::PartitionRecord(p) => {
                let copied = PartitionRecordValue(
                    p.0,
                    p.1,
                    p.2,
                    TopicId(vstd::slice::slice_to_vec(p.3.0.as_slice())),
                    p.4,
                    p.5,
                    p.6,
                    copy_vec(&p.7),
                    copy_vec(&p.8),
                    copy_vec(&p.9),
                    copy_vec(&p.10),
                    copy_directories(&p.11),
                );
                RecordValue::PartitionRecord(copied)
            },
        }
    }
}

impl Record {
    /// A fresh record holding the same content.
    pub fn duplicate(&self) -> (r: Record)
        ensures
            r@ == self@,
    {
        Record {
            attributes: self.attributes,
            timestamp_delta: self.timestamp_delta,
            offset_delta: self.offset_delta,
            key: match &self.key {
                None => None,
                Some(k) => Some(RecordKey(vstd::slice::slice_to_vec(k.0.as_slice()))),
            },
            value: self.value.duplicate(),
            headers: copy_vec(&self.headers),
        }
    }
}

/// The records of a list that the matching decision keeps, in order.
pub open spec fn spec_filter_by_keep(rs: Seq<RecordView>, keep: Seq<bool>) -> Seq<RecordView>
    recommends
        keep.len() == rs.len(),
    decreases rs.len(),
{
    if rs.len() == 0 {
        Seq::<RecordView>::empty()
    } else {
        let tail = spec_filter_by_keep(rs.skip(1), keep.skip(1));
        if keep[0] {
            seq![rs[0]] + tail
        } else {
            tail
        }
    }
}

/// Appending one record and its decision appends the record to the filtered
/// list exactly when the decision keeps it.
proof fn lemma_filter_by_keep_snoc(rs: Seq<RecordView>, keep: Seq<bool>, r: RecordView, k: bool)
    requires
        keep.len() == rs.len(),
    ensures
        spec_filter_by_keep(rs.push(r), keep.push(k)) == spec_filter_by_keep(rs, keep) + (if k {
            seq![r]
        } else {
            Seq::<RecordView>::empty()
        }),
    decreases rs.len(),
{
    let pr = rs.push(r);
    let pk = keep.push(k);
    let fin: Seq<RecordView> = if k {
        seq![r]
    } else {
        Seq::<RecordView>::empty()
    };
    assert(pr.len() == rs.len() + 1);
    if rs.len() == 0 {
        assert(pr[0] == r);
        assert(pk[0] == k);
        assert(pr.skip(1) =~= Seq::<RecordView>::empty());
        assert(spec_filter_by_keep(pr.skip(1), pk.skip(1)) =~= Seq::<RecordView>::empty());
        assert(spec_filter_by_keep(rs, keep) =~= Seq::<RecordView>::empty());
        assert(spec_filter_by_keep(pr, pk) =~= spec_filter_by_keep(rs, keep) + fin);
    } else {
        assert(pr[0] == rs[0]);
        assert(pk[0] == keep[0]);
        assert(pr.skip(1) =~= rs.skip(1).push(r));
        assert(pk.skip(1) =~= keep.skip(1).push(k));
        lemma_filter_by_keep_snoc(rs.skip(1), keep.skip(1), r, k);
        if keep[0] {
            vstd::seq_lib::lemma_concat_associative(
                seq![rs[0]],
                spec_filter_by_keep(rs.skip(1), keep.skip(1)),
                fin,
            );
        }
    }
}

impl Batch {
    /// The values of this batch's records, in order, freshly copied.
    pub fn records(&self) -> (r: Vec<RecordValue>)
        ensures
            r@.map_values(|v: RecordValue| v@) == self@.records.map_values(
                |rec: RecordView| rec.value,
            ),
    {
        let ghost target = self@.records.map_values(|rec: RecordView| rec.value);
        let mut out: Vec<RecordValue> = Vec::new();
        let mut i: usize = 0;
        while i < self.records.len()
            invariant
                i <= self.records@.len(),
                target == self@.records.map_values(|rec: RecordView| rec.value),
                out@.len() == i,
                forall|j: int| 0 <= j < i ==> #[trigger] out@[j]@ == target[j],
            decreases self.records@.len() - i,
        {
            let one = self.records[i].value.duplicate();
            proof {
                assert(self@.records[i as int] == self.records@[i as int]@);
                assert(one@ == target[i as int]);
            }
            out.push(one);
            i = i + 1;
        }
        proof {
            let m = out@.map_values(|v: RecordValue| v@);
            assert forall|j: int| 0 <= j < out@.len() implies #[trigger] m[j] == target[j] by {
                assert(out@[j]@ == target[j]);
            }
            assert(m =~= target);
        }
        out
    }

    /// This batch with only the records the decision keeps, its stored
    /// checksum dropped, everything else as it was. Which records stay is
    /// whatever the handed-in decision answered for each record in order.
    pub fn filter_records<F: Fn(&Record) -> bool>(&self, f: F) -> (r: Batch)
        requires
            forall|i: int|
                0 <= i < self.records@.len() ==> #[trigger] call_requires(
                    f,
                    (&self.records@[i],),
                ),
        ensures
            r@.batch_offset == self@.batch_offset,
            r@.partition_leader_epoch == self@.partition_leader_epoch,
            r@.magic_byte == self@.magic_byte,
            r@.crc is None,
            r@.attributes == self@.attributes,
            r@.last_offset_delta == self@.last_offset_delta,
            r@.base_timestamp == self@.base_timestamp,
            r@.max_timestamp == self@.max_timestamp,
            r@.producer_id == self@.producer_id,
            r@.producer_epoch == self@.producer_epoch,
            r@.base_sequence == self@.base_sequence,
            exists|keep: Seq<bool>|
                keep.len() == self.records@.len() && (forall|i: int|
                    0 <= i < keep.len() ==> #[trigger] call_ensures(
                        f,
                        (&self.records@[i],),
                        keep[i],
                    )) && r@.records == spec_filter_by_keep(self@.records, keep),
    {
        let ghost mut keep: Seq<bool> = Seq::empty();
        let ghost mut filtered: Seq<RecordView> = Seq::empty();
        let mut out: Vec<Record> = Vec::new();
        let mut i: usize = 0;
        while i < self.records.len()
            invariant
                i <= self.records@.len(),
                forall|j: int|
                    0 <= j < self.records@.len() ==> #[trigger] call_requires(
                        f,
                        (&self.records@[j],),
                    ),
                keep.len() == i,
                forall|j: int|
                    0 <= j < i ==> #[trigger] call_ensures(f, (&self.records@[j],), keep[j]),
                filtered == spec_filter_by_keep(self@.records.take(i as int), keep),
                out@.len() == filtered.len(),
                forall|j: int| 0 <= j < out@.len() ==> #[trigger] out@[j]@ == filtered[j],
            decreases self.records@.len() - i,
        {
            let decision = f(&self.records[i]);
            let ghost keep0 = keep;
            let ghost rv = self@.records[i as int];
            proof {
                keep = keep.push(decision);
                lemma_filter_by_keep_snoc(
                    self@.records.take(i as int),
                    keep0,
                    rv,
                    decision,
                );
                assert(self@.records.take(i as int + 1) =~= self@.records.take(i as int).push(
                    rv,
                ));
                assert(keep =~= keep0.push(decision));
            }
            if decision {
                let one = self.records[i].duplicate();
                proof {
                    assert(self@.records[i as int] == self.records@[i as int]@);
                    assert(filtered + seq![rv] =~= filtered.push(rv));
                    filtered = filtered.push(rv);
                }
                out.push(one);
            } else {
                proof {
                    assert(filtered + Seq::<RecordView>::empty() =~= filtered);
                }
            }
            i = i + 1;
        }
        let r = Batch {
            batch_offset: self.batch_offset,
            partition_leader_epoch: self.partition_leader_epoch,
            magic_byte: self.magic_byte,
            crc: None,
            attributes: self.attributes,
            last_offset_delta: self.last_offset_delta,
            base_timestamp: self.base_timestamp,
            max_timestamp: self.max_timestamp,
            producer_id: self.producer_id,
            producer_epoch: self.producer_epoch,
            base_sequence: self.base_sequence,
            records: out,
        };
        proof {
            assert(self@.records.take(self@.records.len() as int) =~= self@.records);
            let m = r.records@.map_values(|x: Record| x@);
            assert forall|j: int| 0 <= j < r.records@.len() implies #[trigger] m[j] == filtered[j]
                by {
                assert(r.records@[j]@ == filtered[j]);
            }
            assert(m =~= filtered);
            assert(keep.len() == self.records@.len() && (forall|i2: int|
                0 <= i2 < keep.len() ==> #[trigger] call_ensures(
                    f,
                    (&self.records@[i2],),
                    keep[i2],
                )) && r@.records == spec_filter_by_keep(self@.records, keep));
        }
        r
    }
}

// ---------------------------------------------------------------------------
// The batch codec round trip
// ---------------------------------------------------------------------------

/// A topic value the encoder can write back exactly: its name's UTF-8 form
/// short enough for a compact prefix, its id sixteen bytes.
pub open spec fn wf_topic_view(t: TopicRecordView) -> bool {
    &&& vstd::utf8::encode_utf8(t.name).len() + 1 <= u64::MAX
    &&& t.id.len() == 16
}

/// A partition value the encoder can write back exactly: its id sixteen
/// bytes, each node list short enough for a compact prefix, each directory
/// sixteen bytes.
pub open spec fn wf_partition_view(p: PartitionRecordView) -> bool {
    &&& p.topic_id.len() == 16
    &&& p.replicas.len() + 1 <= u64::MAX
    &&& p.isrs.len() + 1 <= u64::MAX
    &&& p.adding.len() + 1 <= u64::MAX
    &&& p.removing.len() + 1 <= u64::MAX
    &&& p.directories.len() + 1 <= u64::MAX
    &&& forall|i: int| 0 <= i < p.directories.len() ==> #[trigger] p.directories[i].len() == 16
}

/// A record value whose wire form reads back as itself: typed values well
/// formed, raw bytes that the type-tag dispatch leaves raw, feature-level
/// bytes that it recognises.
pub open spec fn wf_record_value(v: RecordValueView) -> bool {
    match v {
        RecordValueView::FeatureLevelRecord(b) => b.len() >= 2 && b[1] == 0x0c,
        RecordValueView::Raw(b) => b.len() < 2 || (b[1] != 0x02 && b[1] != 0x03 && b[1] != 0x0c),
        RecordValueView::TopicRecord(t) => wf_topic_view(t),
        RecordValueView::PartitionRecord(p) => wf_partition_view(p),
    }
}

/// A record whose wire form reads back as itself: a well-formed value whose
/// encoding fits a signed length prefix, a key that fits one, and no
/// headers, which is all a decoded record ever carries.
pub open spec fn wf_record(r: RecordView) -> bool {
    &&& wf_record_value(r.value)
    &&& spec_enc_record_value(r.value).len() <= i64::MAX
    &&& (r.key matches Some(k) ==> k.len() <= i64::MAX)
    &&& r.headers.len() == 0
}

/// A batch whose wire form reads back as itself: well-formed records whose
/// framed encodings fit their prefixes, a span that fits the four-byte
/// length, and no producer field spelled like the absent sentinel.
pub open spec fn wf_batch(b: BatchView) -> bool {
    &&& forall|i: int| 0 <= i < b.records.len() ==> #[trigger] wf_record(b.records[i])
    &&& forall|i: int|
        0 <= i < b.records.len() ==> #[trigger] spec_enc_record(b.records[i]).len() <= i64::MAX
    &&& 9 + spec_enc_batch_span(b).len() <= u32::MAX
    &&& b.producer_id != Some(0xffff_ffff_ffff_ffffu64)
    &&& b.producer_epoch != Some(0xffffu16)
    &&& b.base_sequence != Some(0xffff_ffffu32)
}

/// The batch as its re-encoded form reads back: everything kept, the
/// checksum freshly computed over the span.
pub open spec fn spec_recrc(b: BatchView) -> BatchView {
    BatchView { crc: Some(CRC(crc32c_of(spec_enc_batch_span(b)))), ..b }
}

/// Decoding the encoding of a well-formed topic value gives it back.
proof fn lemma_topic_value_round_trip(t: TopicRecordView)
    requires
        wf_topic_view(t),
    ensures
        spec_dec_topic_value(spec_enc_record_value(RecordValueView::TopicRecord(t))) == Ok::<
            _,
            Error,
        >(t),
{
    let e = spec_enc_record_value(RecordValueView::TopicRecord(t));
    let cs = crate::pb::spec_enc_compact_string(t.name);
    let head = seq![t.frame_version.0, 0x02u8, t.value_version.0];
    assert(e == head + cs + t.id + seq![0u8]);
    assert(e[0] == t.frame_version.0);
    assert(e.skip(1) =~= seq![0x02u8, t.value_version.0] + cs + t.id + seq![0u8]);
    assert(e.skip(1)[0] == 0x02u8);
    assert(e.skip(1).skip(1) =~= seq![t.value_version.0] + cs + t.id + seq![0u8]);
    assert(e.skip(1).skip(1)[0] == t.value_version.0);
    assert(e.skip(1).skip(1).skip(1) =~= cs + (t.id + seq![0u8]));
    crate::pb::lemma_compact_string_round_trip(t.name, t.id + seq![0u8]);
    assert((t.id + seq![0u8]).take(16) =~= t.id);
}

/// Decoding the encoding of a well-formed partition value gives it back.
#[verifier::spinoff_prover]
#[verifier::rlimit(100)]
proof fn lemma_partition_value_round_trip(p: PartitionRecordView)
    requires
        wf_partition_view(p),
    ensures
        spec_dec_partition_value(spec_enc_record_value(RecordValueView::PartitionRecord(p)))
            == Ok::<_, Error>(p),
{
    let e = spec_enc_record_value(RecordValueView::PartitionRecord(p));
    let reps = crate::pb::spec_enc_u32_array(crate::partition::spec_node_views(p.replicas));
    let isrs = crate::pb::spec_enc_u32_array(crate::partition::spec_node_views(p.isrs));
    let rems = crate::pb::spec_enc_u32_array(crate::partition::spec_node_views(p.removing));
    let adds = crate::pb::spec_enc_u32_array(crate::partition::spec_node_views(p.adding));
    let dirs = crate::pb::spec_enc_uuid_array(p.directories);
    let idx = crate::pb::spec_enc_u32(p.partition_index.0);
    let lead = crate::pb::spec_enc_u32(p.leader.0.0);
    let lep = crate::pb::spec_enc_u32(p.leader_epoch.0);
    let pep = crate::pb::spec_enc_u32(p.partition_epoch.0);
    assert(e == seq![p.frame_version.0, 0x03u8, p.value_version.0] + idx + p.topic_id + reps
        + isrs + rems + adds + lead + lep + pep + dirs + seq![0u8]);
    assert(e[0] == p.frame_version.0);
    assert(e.skip(1)[0] == 0x03u8);
    assert(e.skip(1).skip(1)[0] == p.value_version.0);
    let r3 = e.skip(1).skip(1).skip(1);
    assert(r3 =~= idx + (p.topic_id + (reps + (isrs + (rems + (adds + (lead + (lep + (pep + (dirs
        + seq![0u8]))))))))));
    crate::pb::lemma_u32_round_trip(
        p.partition_index.0,
        p.topic_id + (reps + (isrs + (rems + (adds + (lead + (lep + (pep + (dirs + seq![0u8])))))))),
    );
    let r4 = p.topic_id + (reps + (isrs + (rems + (adds + (lead + (lep + (pep + (dirs
        + seq![0u8]))))))));
    assert(r4.take(16) =~= p.topic_id);
    assert(r4.skip(16) =~= reps + (isrs + (rems + (adds + (lead + (lep + (pep + (dirs
        + seq![0u8]))))))));
    crate::pb::lemma_u32_array_round_trip(
        crate::partition::spec_node_views(p.replicas),
        isrs + (rems + (adds + (lead + (lep + (pep + (dirs + seq![0u8])))))),
    );
    crate::pb::lemma_u32_array_round_trip(
        crate::partition::spec_node_views(p.isrs),
        rems + (adds + (lead + (lep + (pep + (dirs + seq![0u8]))))),
    );
    crate::pb::lemma_u32_array_round_trip(
        crate::partition::spec_node_views(p.removing),
        adds + (lead + (lep + (pep + (dirs + seq![0u8])))),
    );
    crate::pb::lemma_u32_array_round_trip(
        crate::partition::spec_node_views(p.adding),
        lead + (lep + (pep + (dirs + seq![0u8]))),
    );
    crate::pb::lemma_u32_round_trip(p.leader.0.0, lep + (pep + (dirs + seq![0u8])));
    crate::pb::lemma_u32_round_trip(p.leader_epoch.0, pep + (dirs + seq![0u8]));
    crate::pb::lemma_u32_round_trip(p.partition_epoch.0, dirs + seq![0u8]);
    crate::pb::lemma_uuid_array_round_trip(p.directories, seq![0u8]);
    let back = spec_dec_partition_value(e);
    assert(crate::partition::spec_node_views(p.replicas).map_values(
        |x: u32| ReplicaNode(NodeId(x)),
    ) =~= p.replicas);
    assert(crate::partition::spec_node_views(p.isrs).map_values(|x: u32| ISRNode(NodeId(x)))
        =~= p.isrs);
    assert(crate::partition::spec_node_views(p.adding).map_values(
        |x: u32| AddingReplica(NodeId(x)),
    ) =~= p.adding);
    assert(crate::partition::spec_node_views(p.removing).map_values(
        |x: u32| RemovingReplica(NodeId(x)),
    ) =~= p.removing);
    assert(back == Ok::<_, Error>(p));
}

/// Decoding the encoding of a well-formed record value gives it back.
proof fn lemma_record_value_round_trip(v: RecordValueView)
    requires
        wf_record_value(v),
    ensures
        spec_dec_record_value(spec_enc_record_value(v)) == Ok::<_, Error>(v),
{
    let e = spec_enc_record_value(v);
    match v {
        RecordValueView::FeatureLevelRecord(_b) => {},
        RecordValueView::Raw(_b) => {},
        RecordValueView::TopicRecord(t) => {
            let cs = crate::pb::spec_enc_compact_string(t.name);
            assert(e == seq![t.frame_version.0, 0x02u8, t.value_version.0] + cs + t.id
                + seq![0u8]);
            assert(e.len() >= 2);
            assert(e[1] == 0x02u8);
            lemma_topic_value_round_trip(t);
        },
        RecordValueView::PartitionRecord(p) => {
            assert(e.len() >= 2);
            assert(e[1] == 0x03u8);
            lemma_partition_value_round_trip(p);
        },
    }
}

/// Decoding the encoding of a well-formed record gives it back.
#[verifier::spinoff_prover]
#[verifier::rlimit(100)]
proof fn lemma_record_round_trip(r: RecordView)
    requires
        wf_record(r),
    ensures
        spec_dec_record(spec_enc_record(r)) == Ok::<_, Error>(r),
{
    let e = spec_enc_record(r);
    let ts = crate::pb::spec_enc_svarint(r.timestamp_delta.0);
    let od = crate::pb::spec_enc_svarint(r.offset_delta.0);
    let keypart = match r.key {
        None => crate::pb::spec_enc_svarint(-1i64),
        Some(k) => crate::pb::spec_enc_svarint(crate::pb::spec_sat_i64(k.len())) + k,
    };
    let vb = spec_enc_record_value(r.value);
    let vlenb = crate::pb::spec_enc_svarint(crate::pb::spec_sat_i64(vb.len()));
    let hc = crate::pb::spec_enc_svarint(crate::pb::spec_sat_i64(r.headers.len()));
    assert(e == seq![r.attributes.0] + ts + od + keypart + vlenb + vb + hc);
    assert(e[0] == r.attributes.0);
    assert(e.skip(1) =~= ts + (od + (keypart + (vlenb + (vb + hc)))));
    crate::pb::lemma_svarint_round_trip(
        r.timestamp_delta.0,
        od + (keypart + (vlenb + (vb + hc))),
    );
    crate::pb::lemma_svarint_round_trip(r.offset_delta.0, keypart + (vlenb + (vb + hc)));
    let after_key: Seq<u8> = vlenb + (vb + hc);
    match r.key {
        None => {
            assert(keypart + (vlenb + (vb + hc)) =~= crate::pb::spec_enc_svarint(-1i64)
                + after_key);
            crate::pb::lemma_svarint_round_trip(-1i64, after_key);
        },
        Some(k) => {
            assert(keypart + (vlenb + (vb + hc)) =~= crate::pb::spec_enc_svarint(
                crate::pb::spec_sat_i64(k.len()),
            ) + (k + after_key));
            crate::pb::lemma_svarint_round_trip(
                crate::pb::spec_sat_i64(k.len()),
                k + after_key,
            );
            assert((k + after_key).take(k.len() as int) =~= k);
            assert((k + after_key).skip(k.len() as int) =~= after_key);
        },
    }
    assert(after_key =~= vlenb + (vb + hc));
    crate::pb::lemma_svarint_round_trip(crate::pb::spec_sat_i64(vb.len()), vb + hc);
    assert((vb + hc).take(vb.len() as int) =~= vb);
    assert((vb + hc).skip(vb.len() as int) =~= hc);
    lemma_record_value_round_trip(r.value);
    crate::pb::lemma_svarint_round_trip_whole(crate::pb::spec_sat_i64(r.headers.len()));
    assert(r.headers =~= Seq::<Header>::empty());
    assert(spec_dec_record(e) == Ok::<_, Error>(r));
}

/// Decoding the framed encodings of well-formed records gives them back.
#[verifier::spinoff_prover]
#[verifier::rlimit(100)]
proof fn lemma_records_round_trip(rs: Seq<RecordView>)
    requires
        forall|i: int| 0 <= i < rs.len() ==> #[trigger] wf_record(rs[i]),
        forall|i: int| 0 <= i < rs.len() ==> #[trigger] spec_enc_record(rs[i]).len() <= i64::MAX,
    ensures
        spec_dec_records(spec_enc_records(rs)) == Ok::<_, Error>(rs),
    decreases rs.len(),
{
    if rs.len() == 0 {
        assert(rs =~= Seq::<RecordView>::empty());
    } else {
        let rb = spec_enc_record(rs[0]);
        let pfx = crate::pb::spec_enc_svarint(crate::pb::spec_sat_i64(rb.len()));
        let tail = spec_enc_records(rs.skip(1));
        assert(spec_enc_records(rs) == pfx + rb + tail);
        assert(spec_enc_records(rs) =~= pfx + (rb + tail));
        assert(rb.len() >= 1);
        assert(spec_enc_records(rs).len() != 0);
        crate::pb::lemma_svarint_round_trip(crate::pb::spec_sat_i64(rb.len()), rb + tail);
        assert((rb + tail).take(rb.len() as int) =~= rb);
        assert((rb + tail).skip(rb.len() as int) =~= tail);
        lemma_record_round_trip(rs[0]);
        lemma_records_round_trip(rs.skip(1));
        assert(seq![rs[0]] + rs.skip(1) =~= rs);
    }
}

/// Decoding a well-formed batch's encoding, followed by anything, gives the
/// batch back with its checksum freshly computed, and leaves the rest
/// untouched.
#[verifier::spinoff_prover]
#[verifier::rlimit(100)]
pub proof fn lemma_batch_round_trip(b: BatchView, rest: Seq<u8>)
    requires
        wf_batch(b),
    ensures
        spec_dec_batch(spec_enc_batch(b) + rest) == Ok::<_, Error>((spec_recrc(b), rest)),
{
    reveal(spec_enc_batch);
    let span = spec_enc_batch_span(b);
    let crc = crc32c_of(span);
    let blen = (9 + span.len()) as u32;
    let inner = crate::pb::spec_enc_u32(b.partition_leader_epoch) + seq![b.magic_byte]
        + crate::pb::spec_enc_u32(crc) + span;
    let m1 = crate::pb::spec_enc_u32(blen) + (inner + rest);
    assert(spec_enc_batch(b) + rest =~= crate::pb::spec_enc_u64(b.batch_offset.0) + m1);
    crate::pb::lemma_u64_round_trip(b.batch_offset.0, m1);
    crate::pb::lemma_u32_round_trip(blen, inner + rest);
    assert(inner.len() == blen);
    assert((inner + rest).take(blen as int) =~= inner);
    assert((inner + rest).skip(blen as int) =~= rest);
    lemma_batch_body_round_trip(b);
    assert(spec_dec_batch(spec_enc_batch(b) + rest) == Ok::<_, Error>((spec_recrc(b), rest)));
}

/// Decoding a well-formed batch's span gives the batch back, with the
/// already-read fields in place.
#[verifier::spinoff_prover]
#[verifier::rlimit(100)]
proof fn lemma_batch_tail_round_trip(b: BatchView, crc: u32)
    requires
        wf_batch(b),
        b.crc == Some(CRC(crc)),
    ensures
        spec_dec_batch_tail(
            b.batch_offset.0,
            b.partition_leader_epoch,
            b.magic_byte,
            crc,
            spec_enc_batch_span(b),
        ) == Ok::<_, Error>(b),
{
    reveal(spec_enc_batch_span);
    let pid = match b.producer_id {
        None => 0xffff_ffff_ffff_ffffu64,
        Some(v) => v,
    };
    let pep = match b.producer_epoch {
        None => 0xffffu16,
        Some(v) => v,
    };
    let bseq = match b.base_sequence {
        None => 0xffff_ffffu32,
        Some(v) => v,
    };
    let m9 = spec_enc_records(b.records);
    let m8 = crate::pb::spec_enc_u32(crate::pb::spec_sat_u32(b.records.len())) + m9;
    let m7 = crate::pb::spec_enc_u32(bseq) + m8;
    let m6 = crate::pb::spec_enc_u16(pep) + m7;
    let m5 = crate::pb::spec_enc_u64(pid) + m6;
    let m4 = crate::pb::spec_enc_u64(b.max_timestamp) + m5;
    let m3 = crate::pb::spec_enc_u64(b.base_timestamp) + m4;
    let m2 = crate::pb::spec_enc_u32(b.last_offset_delta) + m3;
    assert(spec_enc_batch_span(b) =~= crate::pb::spec_enc_u16(b.attributes) + m2);
    crate::pb::lemma_u16_round_trip(b.attributes, m2);
    crate::pb::lemma_u32_round_trip(b.last_offset_delta, m3);
    crate::pb::lemma_u64_round_trip(b.base_timestamp, m4);
    crate::pb::lemma_u64_round_trip(b.max_timestamp, m5);
    crate::pb::lemma_u64_round_trip(pid, m6);
    crate::pb::lemma_u16_round_trip(pep, m7);
    crate::pb::lemma_u32_round_trip(bseq, m8);
    crate::pb::lemma_u32_round_trip(crate::pb::spec_sat_u32(b.records.len()), m9);
    lemma_records_round_trip(b.records);
    assert(spec_dec_batch_tail(
        b.batch_offset.0,
        b.partition_leader_epoch,
        b.magic_byte,
        crc,
        spec_enc_batch_span(b),
    ) =~= Ok::<_, Error>(b));
}

/// Decoding a well-formed batch's content gives the batch back with its
/// checksum freshly computed.
#[verifier::spinoff_prover]
#[verifier::rlimit(100)]
proof fn lemma_batch_body_round_trip(b: BatchView)
    requires
        wf_batch(b),
    ensures
        spec_dec_batch_body(
            b.batch_offset.0,
            crate::pb::spec_enc_u32(b.partition_leader_epoch) + seq![b.magic_byte]
                + crate::pb::spec_enc_u32(crc32c_of(spec_enc_batch_span(b)))
                + spec_enc_batch_span(b),
        ) == Ok::<_, Error>(spec_recrc(b)),
{
    let span = spec_enc_batch_span(b);
    let crc = crc32c_of(span);
    let inner = crate::pb::spec_enc_u32(b.partition_leader_epoch) + seq![b.magic_byte]
        + crate::pb::spec_enc_u32(crc) + span;
    let m1 = crate::pb::spec_enc_u32(crc) + span;
    let m0 = seq![b.magic_byte] + m1;
    assert(inner =~= crate::pb::spec_enc_u32(b.partition_leader_epoch) + m0);
    crate::pb::lemma_u32_round_trip(b.partition_leader_epoch, m0);
    assert(m0.skip(1) =~= m1);
    crate::pb::lemma_u32_round_trip(crc, span);
    assert(span + Seq::<u8>::empty() =~= span);
    let rb = spec_recrc(b);
    assert(spec_enc_batch_span(rb) == span) by {
        lemma_span_ignores_offset(rb, b);
    }
    assert(wf_batch(rb));
    lemma_batch_tail_round_trip(rb, crc);
    assert(spec_dec_batch_body(b.batch_offset.0, inner) == Ok::<_, Error>(spec_recrc(b)));
}

/// A batch's wire form is never empty.
proof fn lemma_enc_batch_nonempty(b: BatchView)
    ensures
        spec_enc_batch(b).len() >= 8,
{
    reveal(spec_enc_batch);
}

#[verifier::spinoff_prover]
#[verifier::rlimit(100)]
pub proof fn lemma_batches_round_trip(bs: Seq<BatchView>)
    requires
        forall|i: int| 0 <= i < bs.len() ==> #[trigger] wf_batch(bs[i]),
    ensures
        spec_dec_batches(spec_enc_batches(bs)) == Ok::<_, Error>(
            bs.map_values(|b: BatchView| spec_recrc(b)),
        ),
    decreases bs.len(),
{
    if bs.len() == 0 {
        assert(spec_dec_batches(spec_enc_batches(bs)) == Ok::<_, Error>(
            Seq::<BatchView>::empty(),
        ));
        assert(bs.map_values(|b: BatchView| spec_recrc(b)) =~= Seq::<BatchView>::empty());
    } else {
        let head = spec_enc_batch(bs[0]);
        let tail = spec_enc_batches(bs.skip(1));
        assert(spec_enc_batches(bs) == head + tail);
        lemma_enc_batch_nonempty(bs[0]);
        assert(spec_enc_batches(bs).len() != 0);
        lemma_batch_round_trip(bs[0], tail);
        lemma_batches_round_trip(bs.skip(1));
        assert(seq![spec_recrc(bs[0])] + bs.skip(1).map_values(|b: BatchView| spec_recrc(b))
            =~= bs.map_values(|b: BatchView| spec_recrc(b)));
    }
}

/// Re-encoding what a well-formed batch stream decodes to, and decoding
/// again, changes nothing: decoded batches whose stored checksums match
/// their spans read back exactly.
#[verifier::spinoff_prover]
#[verifier::rlimit(100)]
pub proof fn lemma_batch_stream_round_trip(bs: Seq<BatchView>)
    requires
        forall|i: int| 0 <= i < bs.len() ==> #[trigger] wf_batch(bs[i]),
        forall|i: int|
            0 <= i < bs.len() ==> #[trigger] bs[i].crc == Some(
                CRC(crc32c_of(spec_enc_batch_span(bs[i]))),
            ),
    ensures
        spec_dec_batches(spec_enc_batches(bs)) == Ok::<_, Error>(bs),
{
    lemma_batches_round_trip(bs);
    let mapped = bs.map_values(|b: BatchView| spec_recrc(b));
    assert forall|i: int| 0 <= i < bs.len() implies #[trigger] mapped[i] == bs[i] by {
        assert(spec_enc_batch_span(spec_recrc(bs[i])) == spec_enc_batch_span(bs[i])) by {
            lemma_span_ignores_offset(spec_recrc(bs[i]), bs[i]);
        }
        assert(spec_recrc(bs[i]) =~= bs[i]);
    }
    assert(mapped =~= bs);
}

fn partitions_in_records<'a>(rs: &'a Vec<Record>, i: usize, id: &TopicId) -> (r: Vec<
    &'a PartitionRecordValue,
>)
    requires
        i <= rs@.len(),
    ensures
        r@.map_values(|p: &PartitionRecordValue| p@) == spec_find_partitions_recs(
            rs@.map_values(|x: Record| x@).skip(i as int),
            id@,
        ),
    decreases rs@.len() - i,
{
    let ghost views = rs@.map_values(|x: Record| x@);
    if i >= rs.len() {
        let empty: Vec<&'a PartitionRecordValue> = Vec::new();
        proof {
            assert(views.skip(i as int) =~= Seq::<RecordView>::empty());
            assert(empty@.map_values(|p: &PartitionRecordValue| p@) =~= Seq::<
                PartitionRecordView,
            >::empty());
        }
        empty
    } else {
        proof {
            assert(views.skip(i as int)[0] == views[i as int]);
            assert(views.skip(i as int).skip(1) =~= views.skip(i as int + 1));
        }
        let tail = partitions_in_records(rs, i + 1, id);
        match &rs[i].value {
            RecordValue::PartitionRecord(p) => {
                if p.3.matches(id) {
                    let ghost pv = p@;
                    let ghost tv = tail@.map_values(|q: &PartitionRecordValue| q@);
                    let mut out: Vec<&'a PartitionRecordValue> = Vec::new();
                    out.push(p);
                    let mut t = tail;
                    out.append(&mut t);
                    proof {
                        assert(out@.map_values(|q: &PartitionRecordValue| q@) =~= seq![pv] + tv);
                    }
                    out
                } else {
                    tail
                }
            },
            _ => tail,
        }
    }
}

fn records_mention_id(rs: &Vec<Record>, i: usize, id: &TopicId) -> (r: bool)
    requires
        i <= rs@.len(),
    ensures
        r == spec_recs_mention_id(rs@.map_values(|x: Record| x@).skip(i as int), id@),
    decreases rs@.len() - i,
{
    let ghost views = rs@.map_values(|x: Record| x@);
    if i >= rs.len() {
        proof {
            assert(views.skip(i as int) =~= Seq::<RecordView>::empty());
        }
        false
    } else {
        proof {
            assert(views.skip(i as int)[0] == views[i as int]);
            assert(views.skip(i as int).skip(1) =~= views.skip(i as int + 1));
        }
        let here: bool = match rs[i].value.topic_id() {
            Some(t) => t.matches(id),
            None => false,
        };
        if here {
            true
        } else {
            records_mention_id(rs, i + 1, id)
        }
    }
}

impl Meta {
    /// Every partition record of the topic, in batch and record order.
    pub fn find_partitions<'a>(&'a self, topic_id: &TopicId) -> (r: Vec<
        &'a PartitionRecordValue,
    >)
        ensures
            r@.map_values(|p: &PartitionRecordValue| p@) == spec_find_partitions(
                self@,
                topic_id@,
            ),
    {
        proof {
            assert(self@.skip(0) =~= self@);
        }
        self.find_partitions_from(0, topic_id)
    }

    fn find_partitions_from<'a>(&'a self, i: usize, topic_id: &TopicId) -> (r: Vec<
        &'a PartitionRecordValue,
    >)
        requires
            i <= self.0@.len(),
        ensures
            r@.map_values(|p: &PartitionRecordValue| p@) == spec_find_partitions(
                self@.skip(i as int),
                topic_id@,
            ),
        decreases self.0@.len() - i,
    {
        if i >= self.0.len() {
            let empty: Vec<&'a PartitionRecordValue> = Vec::new();
            proof {
                assert(self@.skip(i as int) =~= Seq::<BatchView>::empty());
                assert(empty@.map_values(|p: &PartitionRecordValue| p@) =~= Seq::<
                    PartitionRecordView,
                >::empty());
            }
            empty
        } else {
            proof {
                assert(self@.skip(i as int)[0] == self@[i as int]);
                assert(self@.skip(i as int).skip(1) =~= self@.skip(i as int + 1));
                let rviews = self.0@[i as int].records@.map_values(|x: Record| x@);
                assert(rviews.skip(0) =~= rviews);
            }
            let mut head = partitions_in_records(&self.0[i].records, 0, topic_id);
            let ghost hv = head@.map_values(|q: &PartitionRecordValue| q@);
            let mut tail = self.find_partitions_from(i + 1, topic_id);
            let ghost tv = tail@.map_values(|q: &PartitionRecordValue| q@);
            head.append(&mut tail);
            proof {
                assert(head@.map_values(|q: &PartitionRecordValue| q@) =~= hv + tv);
            }
            head
        }
    }

    /// The first batch holding a record that names the topic id.
    pub fn find_batch<'a>(&'a self, topic_id: &TopicId) -> (r: Option<&'a Batch>)
        ensures
            match r {
                Some(b) => spec_find_batch(self@, topic_id@) == Some(b@),
                None => spec_find_batch(self@, topic_id@) is None,
            },
    {
        proof {
            assert(self@.skip(0) =~= self@);
        }
        self.find_batch_from(0, topic_id)
    }

    fn find_batch_from<'a>(&'a self, i: usize, topic_id: &TopicId) -> (r: Option<&'a Batch>)
        requires
            i <= self.0@.len(),
        ensures
            match r {
                Some(b) => spec_find_batch(self@.skip(i as int), topic_id@) == Some(b@),
                None => spec_find_batch(self@.skip(i as int), topic_id@) is None,
            },
        decreases self.0@.len() - i,
    {
        if i >= self.0.len() {
            proof {
                assert(self@.skip(i as int) =~= Seq::<BatchView>::empty());
            }
            None
        } else {
            proof {
                assert(self@.skip(i as int)[0] == self@[i as int]);
                assert(self@.skip(i as int).skip(1) =~= self@.skip(i as int + 1));
                let rviews = self.0@[i as int].records@.map_values(|x: Record| x@);
                assert(rviews.skip(0) =~= rviews);
            }
            if records_mention_id(&self.0[i].records, 0, topic_id) {
                Some(&self.0[i])
            } else {
                self.find_batch_from(i + 1, topic_id)
            }
        }
    }
}

} // verus!
