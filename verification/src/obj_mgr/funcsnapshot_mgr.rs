//! Snapshot records: the sizes of an instance's persisted state, per
//! resource class.

use vstd::prelude::*;

use crate::resource::Standby;

verus! {

/// The sum of the per-GPU state sizes.
pub open spec fn spec_gpu_mem_total(s: Seq<(i32, u64)>) -> int
    decreases s.len(),
{
    if s.len() == 0 {
        0int
    } else {
        spec_gpu_mem_total(s.drop_last()) + s.last().1
    }
}

/// What a snapshot of an instance contains: host memory, process
/// checkpoint, fat binaries and the GPU memory images, keyed by GPU id.
#[derive(Debug, Clone, Default)]
pub struct SnapshotInfo {
    pub hostMemSize: u64,
    pub processCheckpointSize: u64,
    pub fatbinSize: u64,
    pub gpuMemSizes: Vec<(i32, u64)>,
    pub standby: Standby,
}

impl SnapshotInfo {
    /// The snapshot sizes grouped by standby resource class: process
    /// checkpoint is pageable, host memory is pinned, and the GPU images
    /// are summed.
    pub fn SnapshotStandyInfo(&self) -> (r: SnapshotStandyInfo)
        requires
            spec_gpu_mem_total(self.gpuMemSizes@) <= u64::MAX,
        ensures
            r.pageable == self.processCheckpointSize,
            r.pinned == self.hostMemSize,
            r.gpu == spec_gpu_mem_total(self.gpuMemSizes@),
    {
        let mut gpu: u64 = 0;
        let mut i: usize = 0;
        while i < self.gpuMemSizes.len()
            invariant
                i <= self.gpuMemSizes@.len(),
                gpu == spec_gpu_mem_total(self.gpuMemSizes@.take(i as int)),
                spec_gpu_mem_total(self.gpuMemSizes@) <= u64::MAX,
            decreases self.gpuMemSizes@.len() - i,
        {
            proof {
                assert(self.gpuMemSizes@.take(i + 1).drop_last() =~= self.gpuMemSizes@.take(
                    i as int,
                ));
                assert(self.gpuMemSizes@.take(i + 1).last() == self.gpuMemSizes@[i as int]);
                lemma_gpu_mem_total_take_le(self.gpuMemSizes@, i + 1);
                lemma_gpu_mem_total_nonneg(self.gpuMemSizes@.take(i as int));
            }
            gpu = gpu + self.gpuMemSizes[i].1;
            i = i + 1;
        }
        proof {
            assert(self.gpuMemSizes@.take(self.gpuMemSizes@.len() as int) =~= self.gpuMemSizes@);
        }
        SnapshotStandyInfo {
            pageable: self.processCheckpointSize,
            gpu,
            pinned: self.hostMemSize,
        }
    }
}

pub proof fn lemma_gpu_mem_total_nonneg(s: Seq<(i32, u64)>)
    ensures
        0 <= spec_gpu_mem_total(s),
    decreases s.len(),
{
    if s.len() > 0 {
        lemma_gpu_mem_total_nonneg(s.drop_last());
    }
}

/// A prefix sum never exceeds the total.
pub proof fn lemma_gpu_mem_total_take_le(s: Seq<(i32, u64)>, i: int)
    requires
        0 <= i <= s.len(),
    ensures
        spec_gpu_mem_total(s.take(i)) <= spec_gpu_mem_total(s),
    decreases s.len(),
{
    if i == s.len() {
        assert(s.take(i) =~= s);
    } else {
        let d = s.drop_last();
        assert(s.take(i) =~= d.take(i));
        lemma_gpu_mem_total_take_le(d, i);
    }
}

/// Snapshot sizes by standby resource class.
#[derive(Debug, Clone, Copy, Default, PartialEq, Eq, Structural)]
pub struct SnapshotStandyInfo {
    pub pageable: u64,
    pub pinned: u64,
    pub gpu: u64,
}

/// The identity of a snapshot image.
#[derive(Debug, PartialEq, Eq, Default, Clone)]
pub struct SnapshotMeta {
    pub imagename: String,
    pub buildId: Vec<u8>,
}

/// A snapshot record: which function it belongs to, where it was taken,
/// and what it contains.
#[derive(Clone, Debug, Default)]
pub struct ContainerSnapshot {
    pub funckey: String,
    pub nodename: String,
    pub state: SnapshotState,
    pub meta: SnapshotMeta,
    pub info: SnapshotInfo,
}

/// Whether a snapshot is fully persisted yet.
#[derive(Clone, Debug, Copy, PartialEq, Eq, Structural)]
pub enum SnapshotState {
    Loading,
    Ready,
}

impl Default for SnapshotState {
    fn default() -> (r: Self)
        ensures
            r is Loading,
    {
        SnapshotState::Loading
    }
}

} // verus!
