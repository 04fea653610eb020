//! The node-id family of strong types, and the per-partition descriptor that
//! a topic-metadata response carries.

use vstd::prelude::*;

use crate::pb::{enc_u16, enc_u32, spec_enc_u16, spec_enc_u32, spec_enc_u32_array, ToArray};
use crate::types::{ErrorCode, TagBuffer};

verus! {

/// A broker node's id.
#[derive(Debug, Clone, Copy, PartialEq, Eq, Structural)]
pub struct NodeId(pub u32);

impl NodeId {
    /// Wraps a node id.
    pub fn new(v: u32) -> (r: NodeId)
        ensures
            r == NodeId(v),
    {
        NodeId(v)
    }

    /// The wrapped id.
    pub fn value(&self) -> (r: u32)
        ensures
            r == self.0,
    {
        self.0
    }
}

/// The node leading a partition.
#[derive(Debug, Clone, Copy, PartialEq, Eq, Structural)]
pub struct Leader(pub NodeId);

impl Leader {
    /// Wraps a leader's node id.
    pub fn new(v: NodeId) -> (r: Leader)
        ensures
            r == Leader(v),
    {
        Leader(v)
    }

    /// The wrapped node id.
    pub fn value(&self) -> (r: NodeId)
        ensures
            r == self.0,
    {
        self.0
    }
}

/// A node holding a replica of a partition.
#[derive(Debug, Clone, Copy, PartialEq, Eq, Structural)]
pub struct ReplicaNode(pub NodeId);

impl ReplicaNode {
    /// Wraps a replica's node id.
    pub fn new(v: NodeId) -> (r: ReplicaNode)
        ensures
            r == ReplicaNode(v),
    {
        ReplicaNode(v)
    }

    /// The wrapped node id.
    pub fn value(&self) -> (r: NodeId)
        ensures
            r == self.0,
    {
        self.0
    }
}

/// A node in a partition's in-sync replica set.
#[derive(Debug, Clone, Copy, PartialEq, Eq, Structural)]
pub struct ISRNode(pub NodeId);

impl ISRNode {
    /// Wraps an in-sync replica's node id.
    pub fn new(v: NodeId) -> (r: ISRNode)
        ensures
            r == ISRNode(v),
    {
        ISRNode(v)
    }

    /// The wrapped node id.
    pub fn value(&self) -> (r: NodeId)
        ensures
            r == self.0,
    {
        self.0
    }
}

/// A node eligible to lead a partition.
#[derive(Debug, Clone, Copy, PartialEq, Eq, Structural)]
pub struct EligibleLeaderReplicas(pub NodeId);

impl EligibleLeaderReplicas {
    /// Wraps an eligible leader's node id.
    pub fn new(v: NodeId) -> (r: EligibleLeaderReplicas)
        ensures
            r == EligibleLeaderReplicas(v),
    {
        EligibleLeaderReplicas(v)
    }

    /// The wrapped node id.
    pub fn value(&self) -> (r: NodeId)
        ensures
            r == self.0,
    {
        self.0
    }
}

/// A node last known to be an eligible leader replica.
#[derive(Debug, Clone, Copy, PartialEq, Eq, Structural)]
pub struct LastKnownELR(pub NodeId);

impl LastKnownELR {
    /// Wraps the node id.
    pub fn new(v: NodeId) -> (r: LastKnownELR)
        ensures
            r == LastKnownELR(v),
    {
        LastKnownELR(v)
    }

    /// The wrapped node id.
    pub fn value(&self) -> (r: NodeId)
        ensures
            r == self.0,
    {
        self.0
    }
}

/// A node whose replica of a partition is offline.
#[derive(Debug, Clone, Copy, PartialEq, Eq, Structural)]
pub struct OfflineReplica(pub NodeId);

impl OfflineReplica {
    /// Wraps the node id.
    pub fn new(v: NodeId) -> (r: OfflineReplica)
        ensures
            r == OfflineReplica(v),
    {
        OfflineReplica(v)
    }

    /// The wrapped node id.
    pub fn value(&self) -> (r: NodeId)
        ensures
            r == self.0,
    {
        self.0
    }
}

/// A node whose replica is being removed from a partition.
#[derive(Debug, Clone, Copy, PartialEq, Eq, Structural)]
pub struct RemovingReplica(pub NodeId);

impl RemovingReplica {
    /// Wraps the node id.
    pub fn new(v: NodeId) -> (r: RemovingReplica)
        ensures
            r == RemovingReplica(v),
    {
        RemovingReplica(v)
    }

    /// The wrapped node id.
    pub fn value(&self) -> (r: NodeId)
        ensures
            r == self.0,
    {
        self.0
    }
}

/// A node whose replica is being added to a partition.
#[derive(Debug, Clone, Copy, PartialEq, Eq, Structural)]
pub struct AddingReplica(pub NodeId);

impl AddingReplica {
    /// Wraps the node id.
    pub fn new(v: NodeId) -> (r: AddingReplica)
        ensures
            r == AddingReplica(v),
    {
        AddingReplica(v)
    }

    /// The wrapped node id.
    pub fn value(&self) -> (r: NodeId)
        ensures
            r == self.0,
    {
        self.0
    }
}

/// A partition's index within its topic.
#[derive(Debug, Clone, Copy, PartialEq, Eq, Structural)]
pub struct PartitionIndex(pub u32);

impl PartitionIndex {
    /// Wraps a partition index.
    pub fn new(v: u32) -> (r: PartitionIndex)
        ensures
            r == PartitionIndex(v),
    {
        PartitionIndex(v)
    }

    /// The wrapped index.
    pub fn value(&self) -> (r: u32)
        ensures
            r == self.0,
    {
        self.0
    }
}

/// The leader epoch a partition is at.
#[derive(Debug, Clone, Copy, PartialEq, Eq, Structural)]
pub struct LeaderEpoch(pub u32);

impl LeaderEpoch {
    /// Wraps a leader epoch.
    pub fn new(v: u32) -> (r: LeaderEpoch)
        ensures
            r == LeaderEpoch(v),
    {
        LeaderEpoch(v)
    }

    /// The wrapped epoch.
    pub fn value(&self) -> (r: u32)
        ensures
            r == self.0,
    {
        self.0
    }
}

/// The partition epoch a partition is at.
#[derive(Debug, Clone, Copy, PartialEq, Eq, Structural)]
pub struct PartitionEpoch(pub u32);

impl PartitionEpoch {
    /// Wraps a partition epoch.
    pub fn new(v: u32) -> (r: PartitionEpoch)
        ensures
            r == PartitionEpoch(v),
    {
        PartitionEpoch(v)
    }

    /// The wrapped epoch.
    pub fn value(&self) -> (r: u32)
        ensures
            r == self.0,
    {
        self.0
    }
}

/// The leader epoch a fetch client last saw.
#[derive(Debug, Clone, Copy, PartialEq, Eq, Structural)]
pub struct CurrentLeaderEpoch(pub u32);

impl CurrentLeaderEpoch {
    /// Wraps a leader epoch.
    pub fn new(v: u32) -> (r: CurrentLeaderEpoch)
        ensures
            r == CurrentLeaderEpoch(v),
    {
        CurrentLeaderEpoch(v)
    }

    /// The wrapped epoch.
    pub fn value(&self) -> (r: u32)
        ensures
            r == self.0,
    {
        self.0
    }
}

/// The offset a fetch starts from.
#[derive(Debug, Clone, Copy, PartialEq, Eq, Structural)]
pub struct FetchOffset(pub u64);

impl FetchOffset {
    /// Wraps an offset.
    pub fn new(v: u64) -> (r: FetchOffset)
        ensures
            r == FetchOffset(v),
    {
        FetchOffset(v)
    }

    /// The wrapped offset.
    pub fn value(&self) -> (r: u64)
        ensures
            r == self.0,
    {
        self.0
    }
}

/// The epoch of the last batch a fetch client saw.
#[derive(Debug, Clone, Copy, PartialEq, Eq, Structural)]
pub struct LastFetchEpoch(pub u32);

impl LastFetchEpoch {
    /// Wraps an epoch.
    pub fn new(v: u32) -> (r: LastFetchEpoch)
        ensures
            r == LastFetchEpoch(v),
    {
        LastFetchEpoch(v)
    }

    /// The wrapped epoch.
    pub fn value(&self) -> (r: u32)
        ensures
            r == self.0,
    {
        self.0
    }
}

/// Where a partition's log begins.
#[derive(Debug, Clone, Copy, PartialEq, Eq, Structural)]
pub struct LogStartOffset(pub u64);

impl LogStartOffset {
    /// Wraps an offset.
    pub fn new(v: u64) -> (r: LogStartOffset)
        ensures
            r == LogStartOffset(v),
    {
        LogStartOffset(v)
    }

    /// The wrapped offset.
    pub fn value(&self) -> (r: u64)
        ensures
            r == self.0,
    {
        self.0
    }
}

/// The most bytes one partition may contribute to a fetch.
#[derive(Debug, Clone, Copy, PartialEq, Eq, Structural)]
pub struct PartitionMaxBytes(pub u32);

impl PartitionMaxBytes {
    /// Wraps a byte bound.
    pub fn new(v: u32) -> (r: PartitionMaxBytes)
        ensures
            r == PartitionMaxBytes(v),
    {
        PartitionMaxBytes(v)
    }

    /// The wrapped bound.
    pub fn value(&self) -> (r: u32)
        ensures
            r == self.0,
    {
        self.0
    }
}

/// The rack a fetch client sits in.
#[derive(Debug, Clone)]
pub struct RackId(pub String);

impl View for RackId {
    type V = Seq<char>;

    open spec fn view(&self) -> Seq<char> {
        self.0@
    }
}

impl RackId {
    /// Wraps a rack name.
    pub fn new(v: String) -> (r: RackId)
        ensures
            r@ == v@,
    {
        RackId(v)
    }

    /// The wrapped name.
    pub fn value(&self) -> (r: &String)
        ensures
            r@ == self@,
    {
        &self.0
    }
}

/// A directory holding a partition's data, named by sixteen raw bytes.
#[derive(Debug, Clone, PartialEq, Eq)]
pub struct Directory(pub Vec<u8>);

impl View for Directory {
    type V = Seq<u8>;

    open spec fn view(&self) -> Seq<u8> {
        self.0@
    }
}

impl Directory {
    /// Wraps a directory id, which must be sixteen bytes.
    pub fn new(v: Vec<u8>) -> (r: Directory)
        requires
            v@.len() == 16,
        ensures
            r@ == v@,
    {
        Directory(v)
    }

    /// The wrapped bytes.
    pub fn value(&self) -> (r: &Vec<u8>)
        ensures
            r@ == self@,
    {
        &self.0
    }
}

/// A wrapped node id, read as the plain `u32` the wire carries.
pub trait AsNodeU32 {
    /// The plain node id inside.
    spec fn node_view(&self) -> u32;

    /// The plain node id inside.
    fn node_value(&self) -> (r: u32)
        ensures
            r == self.node_view(),
    ;
}

impl AsNodeU32 for ReplicaNode {
    open spec fn node_view(&self) -> u32 {
        self.0.0
    }

    fn node_value(&self) -> (r: u32)
        ensures
            r == self.node_view(),
    {
        self.0.0
    }
}

impl AsNodeU32 for ISRNode {
    open spec fn node_view(&self) -> u32 {
        self.0.0
    }

    fn node_value(&self) -> (r: u32)
        ensures
            r == self.node_view(),
    {
        self.0.0
    }
}

impl AsNodeU32 for EligibleLeaderReplicas {
    open spec fn node_view(&self) -> u32 {
        self.0.0
    }

    fn node_value(&self) -> (r: u32)
        ensures
            r == self.node_view(),
    {
        self.0.0
    }
}

impl AsNodeU32 for LastKnownELR {
    open spec fn node_view(&self) -> u32 {
        self.0.0
    }

    fn node_value(&self) -> (r: u32)
        ensures
            r == self.node_view(),
    {
        self.0.0
    }
}

impl AsNodeU32 for OfflineReplica {
    open spec fn node_view(&self) -> u32 {
        self.0.0
    }

    fn node_value(&self) -> (r: u32)
        ensures
            r == self.node_view(),
    {
        self.0.0
    }
}

impl AsNodeU32 for AddingReplica {
    open spec fn node_view(&self) -> u32 {
        self.0.0
    }

    fn node_value(&self) -> (r: u32)
        ensures
            r == self.node_view(),
    {
        self.0.0
    }
}

impl AsNodeU32 for RemovingReplica {
    open spec fn node_view(&self) -> u32 {
        self.0.0
    }

    fn node_value(&self) -> (r: u32)
        ensures
            r == self.node_view(),
    {
        self.0.0
    }
}

/// The plain node ids inside a list of wrapped ones.
pub open spec fn spec_node_views<T: AsNodeU32>(xs: Seq<T>) -> Seq<u32> {
    xs.map_values(|x: T| x.node_view())
}

/// Appends the compact-array bytes of a list of wrapped node ids to `out`.
pub fn enc_node_array<T: AsNodeU32>(out: &mut Vec<u8>, xs: &Vec<T>)
    ensures
        final(out)@ == old(out)@ + spec_enc_u32_array(spec_node_views(xs@)),
{
    let mut vals: Vec<u32> = Vec::new();
    let mut i: usize = 0;
    while i < xs.len()
        invariant
            i <= xs@.len(),
            vals@ == spec_node_views(xs@).take(i as int),
        decreases xs@.len() - i,
    {
        vals.push(xs[i].node_value());
        i = i + 1;
        proof {
            assert(vals@ =~= spec_node_views(xs@).take(i as int));
        }
    }
    proof {
        assert(vals@ =~= spec_node_views(xs@));
    }
    match vals.to_pb_array() {
        Ok(mut bytes) => {
            let ghost pre = out@;
            out.append(&mut bytes);
            assert(out@ =~= pre + spec_enc_u32_array(spec_node_views(xs@)));
        },
        Err(_) => {
            proof {
                assert(false);
            }
        },
    }
}

/// The per-partition descriptor of a topic-metadata response.
#[derive(Debug, Clone)]
pub struct Partition {
    pub error_code: ErrorCode,
    pub partition_index: PartitionIndex,
    pub leader_id: Leader,
    pub leader_epoch: LeaderEpoch,
    pub replica_nodes: Vec<ReplicaNode>,
    pub isr_nodes: Vec<ISRNode>,
    pub eligible_leader_replicas: Vec<EligibleLeaderReplicas>,
    pub last_known_elrs: Vec<LastKnownELR>,
    pub offline_replicas: Vec<OfflineReplica>,
    pub tag_buffer: TagBuffer,
}

/// What a `Partition` holds, over mathematical sequences.
pub struct PartitionView {
    pub error_code: ErrorCode,
    pub partition_index: PartitionIndex,
    pub leader_id: Leader,
    pub leader_epoch: LeaderEpoch,
    pub replica_nodes: Seq<ReplicaNode>,
    pub isr_nodes: Seq<ISRNode>,
    pub eligible_leader_replicas: Seq<EligibleLeaderReplicas>,
    pub last_known_elrs: Seq<LastKnownELR>,
    pub offline_replicas: Seq<OfflineReplica>,
    pub tag_buffer: TagBuffer,
}

impl View for Partition {
    type V = PartitionView;

    open spec fn view(&self) -> PartitionView {
        PartitionView {
            error_code: self.error_code,
            partition_index: self.partition_index,
            leader_id: self.leader_id,
            leader_epoch: self.leader_epoch,
            replica_nodes: self.replica_nodes@,
            isr_nodes: self.isr_nodes@,
            eligible_leader_replicas: self.eligible_leader_replicas@,
            last_known_elrs: self.last_known_elrs@,
            offline_replicas: self.offline_replicas@,
            tag_buffer: self.tag_buffer,
        }
    }
}

/// The wire form of a per-partition descriptor: a no-error code, the index,
/// leader and leader epoch, then the five node lists as compact arrays, then
/// a tag buffer.
pub open spec fn spec_enc_partition(p: PartitionView) -> Seq<u8> {
    spec_enc_u16(ErrorCode::NoError.spec_value() as u16) + spec_enc_u32(p.partition_index.0)
        + spec_enc_u32(p.leader_id.0.0) + spec_enc_u32(p.leader_epoch.0) + spec_enc_u32_array(
        spec_node_views(p.replica_nodes),
    ) + spec_enc_u32_array(spec_node_views(p.isr_nodes)) + spec_enc_u32_array(
        spec_node_views(p.eligible_leader_replicas),
    ) + spec_enc_u32_array(spec_node_views(p.last_known_elrs)) + spec_enc_u32_array(
        spec_node_views(p.offline_replicas),
    ) + seq![0u8]
}

impl Partition {
    /// Packs a partition descriptor, with no error and an empty tag buffer.
    pub fn new(
        partition_index: PartitionIndex,
        leader_id: Leader,
        leader_epoch: LeaderEpoch,
        replica_nodes: Vec<ReplicaNode>,
        isr_nodes: Vec<ISRNode>,
        eligible_leader_replicas: Vec<EligibleLeaderReplicas>,
        last_known_elrs: Vec<LastKnownELR>,
        offline_replicas: Vec<OfflineReplica>,
    ) -> (r: Partition)
        ensures
            r@ == (PartitionView {
                error_code: ErrorCode::NoError,
                partition_index,
                leader_id,
                leader_epoch,
                replica_nodes: replica_nodes@,
                isr_nodes: isr_nodes@,
                eligible_leader_replicas: eligible_leader_replicas@,
                last_known_elrs: last_known_elrs@,
                offline_replicas: offline_replicas@,
                tag_buffer: TagBuffer(0),
            }),
    {
        Partition {
            error_code: ErrorCode::NoError,
            partition_index,
            leader_id,
            leader_epoch,
            replica_nodes,
            isr_nodes,
            eligible_leader_replicas,
            last_known_elrs,
            offline_replicas,
            tag_buffer: TagBuffer::zero(),
        }
    }

    /// Appends the wire form of this descriptor to `out`.
    pub fn encode(&self, out: &mut Vec<u8>)
        ensures
            final(out)@ == old(out)@ + spec_enc_partition(self@),
    {
        let ghost pre = out@;
        enc_u16(out, ErrorCode::NoError.value() as u16);
        enc_u32(out, self.partition_index.0);
        enc_u32(out, self.leader_id.0.0);
        enc_u32(out, self.leader_epoch.0);
        enc_node_array(out, &self.replica_nodes);
        enc_node_array(out, &self.isr_nodes);
        enc_node_array(out, &self.eligible_leader_replicas);
        enc_node_array(out, &self.last_known_elrs);
        enc_node_array(out, &self.offline_replicas);
        out.push(0u8);
        assert(out@ =~= pre + spec_enc_partition(self@));
    }
}

} // verus!
