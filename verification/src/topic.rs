//! Topic names and ids, and the per-topic descriptor that a topic-metadata
//! response carries.

use vstd::prelude::*;
use vstd::string::StringExecFns;

use crate::error::Error;
use crate::partition::{spec_enc_partition, Partition};
use crate::pb::{
    enc_compact_string, enc_u32, spec_enc_compact_string, spec_enc_u16, spec_enc_u32,
};
use crate::types::{ErrorCode, TagBuffer};

verus! {

/// A topic's name, UTF-8.
#[derive(Debug, Clone)]
pub struct TopicName(pub String);

impl View for TopicName {
    type V = Seq<char>;

    open spec fn view(&self) -> Seq<char> {
        self.0@
    }
}

impl TopicName {
    /// Wraps a topic name.
    pub fn new(v: String) -> (r: TopicName)
        ensures
            r@ == v@,
    {
        TopicName(v)
    }

    /// Wraps a borrowed topic name.
    pub fn from_str(name: &str) -> (r: TopicName)
        ensures
            r@ == name@,
    {
        TopicName(String::from_str(name))
    }

    /// The wrapped name.
    pub fn value(&self) -> (r: &String)
        ensures
            r@ == self@,
    {
        &self.0
    }

    /// Whether two topic names spell the same word.
    pub fn matches(&self, other: &TopicName) -> (r: bool)
        ensures
            r == (self@ == other@),
    {
        self.0 == other.0
    }
}

impl crate::pb::ToCompactString for TopicName {
    open spec fn compact_view(&self) -> Seq<char> {
        self@
    }

    fn to_compact_string(&self) -> (r: Vec<u8>)
        ensures
            r@ == spec_enc_compact_string(self@),
    {
        let mut out: Vec<u8> = Vec::new();
        enc_compact_string(&mut out, self.0.as_str());
        out
    }
}

/// A topic's id: sixteen raw bytes, all zero meaning unknown.
#[derive(Debug, Clone, PartialEq, Eq)]
pub struct TopicId(pub Vec<u8>);

impl View for TopicId {
    type V = Seq<u8>;

    open spec fn view(&self) -> Seq<u8> {
        self.0@
    }
}

impl TopicId {
    /// A sixteen-byte id.
    pub open spec fn wf(&self) -> bool {
        self@.len() == 16
    }

    /// Wraps an id, which must be sixteen bytes.
    pub fn new(v: Vec<u8>) -> (r: TopicId)
        requires
            v@.len() == 16,
        ensures
            r@ == v@,
            r.wf(),
    {
        TopicId(v)
    }

    /// Reads an id from a byte slice; anything but sixteen bytes is refused.
    pub fn mk(v: &[u8]) -> (r: Result<TopicId, Error>)
        ensures
            match r {
                Ok(id) => v@.len() == 16 && id@ == v@ && id.wf(),
                Err(e) => v@.len() != 16 && e == Error::BadLength,
            },
    {
        if v.len() == 16 {
            Ok(TopicId(vstd::slice::slice_to_vec(v)))
        } else {
            Err(Error::BadLength)
        }
    }

    /// The reserved all-zero id.
    pub fn zero() -> (r: TopicId)
        ensures
            r@ =~= Seq::<u8>::new(16, |i: int| 0u8),
            r.wf(),
    {
        let mut v: Vec<u8> = Vec::new();
        let mut i: usize = 0;
        while i < 16
            invariant
                i <= 16,
                v@ =~= Seq::<u8>::new(i as nat, |j: int| 0u8),
            decreases 16 - i,
        {
            v.push(0u8);
            i = i + 1;
            proof {
                assert(v@ =~= Seq::<u8>::new(i as nat, |j: int| 0u8));
            }
        }
        TopicId(v)
    }

    /// The wrapped bytes.
    pub fn value(&self) -> (r: &Vec<u8>)
        ensures
            r@ == self@,
    {
        &self.0
    }

    /// Whether two ids name the same topic.
    pub fn matches(&self, other: &TopicId) -> (r: bool)
        ensures
            r == (self@ == other@),
    {
        let a = &self.0;
        let b = &other.0;
        if a.len() != b.len() {
            return false;
        }
        let mut i: usize = 0;
        while i < a.len()
            invariant
                a@ == self@,
                b@ == other@,
                i <= a@.len(),
                a@.len() == b@.len(),
                forall|j: int| 0 <= j < i ==> a@[j] == b@[j],
            decreases a@.len() - i,
        {
            if a[i] != b[i] {
                proof {
                    assert(a@ != b@) by {
                        if a@ == b@ {
                            assert(a@[i as int] == b@[i as int]);
                        }
                    }
                }
                return false;
            }
            i = i + 1;
        }
        proof {
            assert(a@ =~= b@);
        }
        true
    }
}

/// The operations bitmap a topic-metadata response advertises.
#[derive(Debug, Clone, Copy, PartialEq, Eq, Structural)]
pub struct TopicAuthorizedOperations(pub u32);

impl TopicAuthorizedOperations {
    /// Wraps an operations bitmap.
    pub fn new(v: u32) -> (r: TopicAuthorizedOperations)
        ensures
            r == TopicAuthorizedOperations(v),
    {
        TopicAuthorizedOperations(v)
    }

    /// The wrapped bitmap.
    pub fn value(&self) -> (r: u32)
        ensures
            r == self.0,
    {
        self.0
    }
}

/// The per-topic descriptor of a topic-metadata response.
#[derive(Debug, Clone)]
pub struct Topic {
    pub error_code: ErrorCode,
    pub name: TopicName,
    pub id: TopicId,
    pub is_internal: bool,
    pub partitions: Vec<Partition>,
    pub topic_authorized_operations: TopicAuthorizedOperations,
    pub tag_buffer: TagBuffer,
}

/// What a `Topic` holds, over mathematical sequences.
pub struct TopicView {
    pub error_code: ErrorCode,
    pub name: Seq<char>,
    pub id: Seq<u8>,
    pub is_internal: bool,
    pub partitions: Seq<crate::partition::PartitionView>,
    pub topic_authorized_operations: TopicAuthorizedOperations,
    pub tag_buffer: TagBuffer,
}

impl View for Topic {
    type V = TopicView;

    open spec fn view(&self) -> TopicView {
        TopicView {
            error_code: self.error_code,
            name: self.name@,
            id: self.id@,
            is_internal: self.is_internal,
            partitions: self.partitions@.map_values(|p: Partition| p@),
            topic_authorized_operations: self.topic_authorized_operations,
            tag_buffer: self.tag_buffer,
        }
    }
}

/// The concatenated wire forms of the partition descriptors.
pub open spec fn spec_enc_partitions(ps: Seq<crate::partition::PartitionView>) -> Seq<u8>
    decreases ps.len(),
{
    if ps.len() == 0 {
        Seq::<u8>::empty()
    } else {
        spec_enc_partition(ps[0]) + spec_enc_partitions(ps.skip(1))
    }
}

/// The wire form of a per-topic descriptor: the error code, the name as a
/// compact string, the sixteen id bytes, the internal flag, one more than the
/// partition count in one byte, the partition descriptors, the operations
/// bitmap, and a tag buffer.
pub open spec fn spec_enc_topic(t: TopicView) -> Seq<u8> {
    spec_enc_u16(t.error_code.spec_value() as u16) + spec_enc_compact_string(t.name) + t.id + seq![
        if t.is_internal {
            1u8
        } else {
            0u8
        },
    ] + seq![(((t.partitions.len() % 0x100) + 1) % 0x100) as u8] + spec_enc_partitions(
        t.partitions,
    ) + spec_enc_u32(t.topic_authorized_operations.0) + seq![t.tag_buffer.0]
}

/// Appending one descriptor to the list appends its bytes to the encoding.
proof fn lemma_enc_partitions_snoc(
    ps: Seq<crate::partition::PartitionView>,
    p: crate::partition::PartitionView,
)
    ensures
        spec_enc_partitions(ps.push(p)) == spec_enc_partitions(ps) + spec_enc_partition(p),
    decreases ps.len(),
{
    let w = ps.push(p);
    assert(w.len() == ps.len() + 1);
    if ps.len() == 0 {
        assert(w[0] == p);
        assert(w.skip(1) =~= Seq::<crate::partition::PartitionView>::empty());
        assert(spec_enc_partitions(w) == spec_enc_partition(p) + spec_enc_partitions(
            Seq::<crate::partition::PartitionView>::empty(),
        ));
        assert(spec_enc_partitions(w) =~= spec_enc_partitions(ps) + spec_enc_partition(p));
    } else {
        assert(w[0] == ps[0]);
        assert(w.skip(1) =~= ps.skip(1).push(p));
        lemma_enc_partitions_snoc(ps.skip(1), p);
        assert(spec_enc_partitions(w) == spec_enc_partition(ps[0]) + spec_enc_partitions(
            ps.skip(1).push(p),
        ));
        assert(spec_enc_partitions(w) =~= spec_enc_partitions(ps) + spec_enc_partition(p));
    }
}

impl Topic {
    /// Packs a descriptor for a known topic: no error, not internal, the
    /// fixed operations bitmap.
    pub fn new(name: TopicName, id: TopicId, partitions: Vec<Partition>) -> (r: Topic)
        ensures
            r@.error_code == ErrorCode::NoError,
            r@.name == name@,
            r@.id == id@,
            r@.is_internal == false,
            r@.partitions == partitions@.map_values(|p: Partition| p@),
            r@.topic_authorized_operations == TopicAuthorizedOperations(0x0df8),
            r@.tag_buffer == TagBuffer(0),
    {
        Topic {
            error_code: ErrorCode::NoError,
            name,
            id,
            is_internal: false,
            partitions,
            topic_authorized_operations: TopicAuthorizedOperations(0x0df8),
            tag_buffer: TagBuffer::zero(),
        }
    }

    /// Packs the descriptor for a topic that is not known: the unknown-topic
    /// error, the all-zero id, and no partitions.
    pub fn unknown(name: TopicName) -> (r: Topic)
        ensures
            r@.error_code == ErrorCode::UnknownTopicOrPartition,
            r@.name == name@,
            r@.id =~= Seq::<u8>::new(16, |i: int| 0u8),
            r@.is_internal == false,
            r@.partitions =~= Seq::<crate::partition::PartitionView>::empty(),
            r@.topic_authorized_operations == TopicAuthorizedOperations(0),
            r@.tag_buffer == TagBuffer(0),
    {
        Topic {
            error_code: ErrorCode::UnknownTopicOrPartition,
            name,
            id: TopicId::zero(),
            is_internal: false,
            partitions: Vec::new(),
            topic_authorized_operations: TopicAuthorizedOperations(0),
            tag_buffer: TagBuffer::zero(),
        }
    }

    /// The concatenated wire forms of this descriptor's partitions.
    fn encode_partitions(&self) -> (r: Vec<u8>)
        ensures
            r@ == spec_enc_partitions(self.partitions@.map_values(|p: Partition| p@)),
    {
        let ghost views = self.partitions@.map_values(|p: Partition| p@);
        let mut out: Vec<u8> = Vec::new();
        let mut i: usize = 0;
        while i < self.partitions.len()
            invariant
                i <= self.partitions@.len(),
                views == self.partitions@.map_values(|p: Partition| p@),
                out@ == spec_enc_partitions(views.take(i as int)),
            decreases self.partitions@.len() - i,
        {
            self.partitions[i].encode(&mut out);
            i = i + 1;
            proof {
                lemma_enc_partitions_snoc(views.take(i as int - 1), views[i as int - 1]);
                assert(views.take(i as int) =~= views.take(i as int - 1).push(views[i as int - 1]));
            }
        }
        proof {
            assert(views.take(views.len() as int) =~= views);
        }
        out
    }

    /// Appends the wire form of this descriptor to `out`.
    #[verifier::rlimit(50)]
    pub fn encode(&self, out: &mut Vec<u8>)
        ensures
            final(out)@ == old(out)@ + spec_enc_topic(self@),
    {
        let ghost pre = out@;
        crate::pb::enc_u16(out, self.error_code.value() as u16);
        enc_compact_string(out, self.name.0.as_str());
        let mut id_bytes = self.id.0.clone();
        out.append(&mut id_bytes);
        out.push(if self.is_internal { 1u8 } else { 0u8 });
        out.push((((self.partitions.len() % 0x100) + 1) % 0x100) as u8);
        let mut pbytes = self.encode_partitions();
        out.append(&mut pbytes);
        enc_u32(out, self.topic_authorized_operations.0);
        out.push(self.tag_buffer.0);
        assert(out@ =~= pre + spec_enc_topic(self@));
    }
}

} // verus!
