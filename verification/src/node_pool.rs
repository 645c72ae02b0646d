//! Node-level capacity: CPU, memory and the GPU slot pool of one node,
//! allocated and released as one atomic unit.
//!
//! CPU is compared by `CanAlloc` but deliberately never decremented by
//! `Alloc`/`Add`/`Sub`: CPU capacity is advisory on this platform, and the
//! asymmetry is preserved here on purpose.

use vstd::prelude::*;

use crate::common::Error;
use crate::resource::{GPUType, Resources};
use crate::slot_pool::{
    spec_add_post, spec_alloc_granted, spec_sub_post, GPUResourceMap,
};

verus! {

/// One node's capacity, or a granted subset of it.
#[derive(Debug)]
pub struct NodeResources {
    pub nodename: String,
    /// 1/1000 CPU cores.
    pub cpu: u64,
    /// MB of memory.
    pub memory: u64,
    pub gpuType: GPUType,
    pub gpus: GPUResourceMap,
    pub maxContextCnt: u64,
}

impl Clone for NodeResources {
    fn clone(&self) -> (r: Self)
        ensures
            r.nodename@ == self.nodename@,
            r.cpu == self.cpu,
            r.memory == self.memory,
            r.gpuType == self.gpuType,
            r.gpus.totalSlotCnt == self.gpus.totalSlotCnt,
            r.gpus.map@ == self.gpus.map@,
            r.gpus.slotSize == self.gpus.slotSize,
            r.maxContextCnt == self.maxContextCnt,
    {
        NodeResources {
            nodename: self.nodename.clone(),
            cpu: self.cpu,
            memory: self.memory,
            gpuType: self.gpuType.clone(),
            gpus: self.gpus.clone(),
            maxContextCnt: self.maxContextCnt,
        }
    }
}

impl Default for NodeResources {
    fn default() -> (r: Self)
        ensures
            r.nodename@ == Seq::<char>::empty(),
            r.cpu == 0,
            r.memory == 0,
            r.gpuType.0@ == "Any"@,
            r.gpus.totalSlotCnt == 0,
            r.gpus.map@.len() == 0,
            r.gpus.slotSize == 0,
            r.maxContextCnt == 0,
            r.wf(),
    {
        NodeResources {
            nodename: String::new(),
            cpu: 0,
            memory: 0,
            gpuType: GPUType::default(),
            gpus: GPUResourceMap::default(),
            maxContextCnt: 0,
        }
    }
}

impl NodeResources {
    /// Well-formedness: the embedded slot pool is well-formed.
    pub open spec fn wf(self) -> bool {
        self.gpus.wf()
    }

    /// Whether the node can serve `req`: enough CPU (compared only), enough
    /// memory, a matching GPU type, and enough qualifying GPUs.
    pub open spec fn spec_can_alloc(self, req: Resources) -> bool {
        &&& self.cpu >= req.cpu
        &&& self.memory >= req.memory
        &&& self.gpuType.spec_can_alloc(req.gpu.type_)
        &&& self.gpus.spec_can_alloc(req.gpu)
    }

    pub fn New(
        nodename: &str,
        cpu: u64,
        memory: u64,
        gpuType: GPUType,
        gpus: GPUResourceMap,
        maxContextPerGpu: u64,
    ) -> (r: Self)
        ensures
            r.nodename@ == nodename@,
            r.cpu == cpu,
            r.memory == memory,
            r.gpuType == gpuType,
            r.gpus == gpus,
            r.maxContextCnt == maxContextPerGpu,
    {
        NodeResources {
            nodename: nodename.to_owned(),
            cpu,
            memory,
            gpuType,
            gpus,
            maxContextCnt: maxContextPerGpu,
        }
    }

    /// An explicit deep copy.
    pub fn Copy(&self) -> (r: Self)
        ensures
            r.nodename@ == self.nodename@,
            r.cpu == self.cpu,
            r.memory == self.memory,
            r.gpuType == self.gpuType,
            r.gpus.totalSlotCnt == self.gpus.totalSlotCnt,
            r.gpus.map@ == self.gpus.map@,
            r.gpus.slotSize == self.gpus.slotSize,
            r.maxContextCnt == self.maxContextCnt,
    {
        NodeResources {
            nodename: self.nodename.clone(),
            cpu: self.cpu,
            memory: self.memory,
            gpuType: self.gpuType.clone(),
            gpus: self.gpus.clone(),
            maxContextCnt: self.maxContextCnt,
        }
    }

    /// The GPU-only projection of this capacity: CPU and memory zeroed, the
    /// slot pool kept.  Used when hibernating or waking only the GPU-memory
    /// resident state.
    pub fn GPUResource(&self) -> (r: Self)
        ensures
            r.nodename@ == Seq::<char>::empty(),
            r.cpu == 0,
            r.memory == 0,
            r.gpuType == self.gpuType,
            r.gpus.totalSlotCnt == self.gpus.totalSlotCnt,
            r.gpus.map@ == self.gpus.map@,
            r.gpus.slotSize == self.gpus.slotSize,
            r.maxContextCnt == self.maxContextCnt,
    {
        NodeResources {
            nodename: String::new(),
            cpu: 0,
            memory: 0,
            gpuType: self.gpuType.clone(),
            gpus: self.gpus.clone(),
            maxContextCnt: self.maxContextCnt,
        }
    }

    pub fn CanAlloc(&self, req: &Resources) -> (r: bool)
        requires
            self.wf(),
            req.gpu.gpuCount > 0 ==> self.gpus.need_computable(req.gpu.vRam),
        ensures
            r == self.spec_can_alloc(*req),
    {
        self.cpu >= req.cpu && self.memory >= req.memory && self.gpuType.CanAlloc(&req.gpu.type_)
            && self.gpus.CanAlloc(&req.gpu)
    }

    /// Return a previously granted subset to this pool.  Memory is released
    /// and the GPU grant merged back; CPU stays untouched by design.
    pub fn Sub(&mut self, other: &Self) -> (r: Result<(), Error>)
        requires
            old(self).wf(),
            other.wf(),
            old(self).memory >= other.memory,
            other.gpus.slotSize == 0 || old(self).gpus.slotSize == other.gpus.slotSize,
            forall|k: i32| #![auto]
                other.gpus.gpus_map().contains_key(k) ==> old(
                    self,
                ).gpus.gpus_map().contains_key(k) && old(self).gpus.gpus_map()[k].contextCnt
                    >= other.gpus.gpus_map()[k].contextCnt && old(
                    self,
                ).gpus.gpus_map()[k].slotCnt >= other.gpus.gpus_map()[k].slotCnt,
        ensures
            final(self).wf(),
            r is Ok,
            final(self).nodename == old(self).nodename,
            final(self).cpu == old(self).cpu,
            final(self).gpuType == old(self).gpuType,
            final(self).maxContextCnt == old(self).maxContextCnt,
            final(self).memory == old(self).memory - other.memory,
            final(self).gpus.totalSlotCnt == old(self).gpus.totalSlotCnt,
            final(self).gpus.slotSize == old(self).gpus.slotSize,
            spec_sub_post(
                old(self).gpus.gpus_map(),
                other.gpus.gpus_map(),
                final(self).gpus.gpus_map(),
            ),
    {
        self.memory = self.memory - other.memory;
        self.gpus.Sub(&other.gpus);
        Ok(())
    }

    /// The cgroup quota for a restored container: the requested CPU and
    /// memory against this node, with no GPU grant recorded.
    pub fn ResourceQuota(&self, resource: &Resources) -> (r: Self)
        ensures
            r.nodename@ == self.nodename@,
            r.cpu == resource.cpu,
            r.memory == resource.memory,
            r.gpuType == self.gpuType,
            r.gpus.totalSlotCnt == 0,
            r.gpus.map@.len() == 0,
            r.gpus.slotSize == 0,
            r.maxContextCnt == self.maxContextCnt,
    {
        NodeResources {
            nodename: self.nodename.clone(),
            cpu: resource.cpu,
            memory: resource.memory,
            gpuType: self.gpuType.clone(),
            gpus: GPUResourceMap::default(),
            maxContextCnt: self.maxContextCnt,
        }
    }

    /// Atomically take `req` from this node.  On failure nothing changes;
    /// on success the memory is reserved, the GPU grant is carved out of the
    /// slot pool, and the returned snapshot describes exactly what was
    /// granted.
    pub fn Alloc(&mut self, req: &Resources) -> (r: Result<NodeResources, Error>)
        requires
            old(self).wf(),
            req.gpu.gpuCount > 0 ==> old(self).gpus.need_computable(req.gpu.vRam),
        ensures
            final(self).wf(),
            r is Ok <==> old(self).spec_can_alloc(*req),
            !old(self).spec_can_alloc(*req) ==> (r matches Err(
                Error::SchedulerNoEnoughResource(_),
            )) && *final(self) == *old(self),
            old(self).spec_can_alloc(*req) ==> (r matches Ok(g) && {
                &&& g.wf()
                &&& g.nodename@ == old(self).nodename@
                &&& g.cpu == req.cpu
                &&& g.memory == req.memory
                &&& g.gpuType == old(self).gpuType
                &&& g.maxContextCnt == old(self).maxContextCnt
                &&& final(self).nodename == old(self).nodename
                &&& final(self).cpu == old(self).cpu
                &&& final(self).memory == old(self).memory - req.memory
                &&& final(self).gpuType == old(self).gpuType
                &&& final(self).maxContextCnt == old(self).maxContextCnt
                &&& spec_alloc_granted(old(self).gpus, req.gpu, g.gpus, final(self).gpus)
            }),
    {
        if !self.CanAlloc(req) {
            return Err(
                Error::SchedulerNoEnoughResource(
                    "NodeResources::alloc fail: not enough available resource".to_owned(),
                ),
            );
        }

        // CPU is compared but never decremented: it is treated as
        // best-effort capacity.
        self.memory = self.memory - req.memory;
        let gpus = match self.gpus.Alloc(&req.gpu) {
            Ok(gpus) => gpus,
            Err(_) => vstd::pervasive::unreached(),
        };

        Ok(
            NodeResources {
                nodename: self.nodename.clone(),
                cpu: req.cpu,
                memory: req.memory,
                gpuType: self.gpuType.clone(),
                gpus,
                maxContextCnt: self.maxContextCnt,
            },
        )
    }

    /// Merge a freed grant back into this node.  The grant must carry the
    /// same GPU type; handing back anything else is a caller-side protocol
    /// violation.
    pub fn Add(&mut self, free: &NodeResources) -> (r: Result<(), Error>)
        requires
            old(self).wf(),
            free.wf(),
            old(self).gpuType.0@ == free.gpuType.0@,
            old(self).memory + free.memory <= u64::MAX,
            forall|k: i32| #![auto]
                free.gpus.gpus_map().contains_key(k) && old(
                    self,
                ).gpus.gpus_map().contains_key(k) ==> old(self).gpus.gpus_map()[k].contextCnt
                    + free.gpus.gpus_map()[k].contextCnt <= u64::MAX && old(
                    self,
                ).gpus.gpus_map()[k].slotCnt + free.gpus.gpus_map()[k].slotCnt <= u32::MAX,
        ensures
            final(self).wf(),
            r is Ok,
            final(self).nodename == old(self).nodename,
            final(self).cpu == old(self).cpu,
            final(self).gpuType == old(self).gpuType,
            final(self).maxContextCnt == old(self).maxContextCnt,
            final(self).memory == old(self).memory + free.memory,
            final(self).gpus.totalSlotCnt == old(self).gpus.totalSlotCnt,
            final(self).gpus.slotSize == if old(self).gpus.slotSize == 0 {
                free.gpus.slotSize
            } else {
                old(self).gpus.slotSize
            },
            spec_add_post(
                old(self).gpus.gpus_map(),
                free.gpus.gpus_map(),
                final(self).gpus.gpus_map(),
            ),
    {
        self.gpus.Add(&free.gpus);
        self.memory = self.memory + free.memory;
        Ok(())
    }

    /// A copy of the node's slot pool.
    pub fn Gpus(&self) -> (r: GPUResourceMap)
        ensures
            r.totalSlotCnt == self.gpus.totalSlotCnt,
            r.map@ == self.gpus.map@,
            r.slotSize == self.gpus.slotSize,
    {
        self.gpus.clone()
    }
}

/// Allocating `req` from a node and then adding the returned grant back
/// restores the node exactly: the memory, every per-GPU budget, the slot
/// size and the total slot count all return to their pre-allocation values.
pub proof fn lemma_node_alloc_then_add_restores(
    n0: NodeResources,
    req: Resources,
    grant: NodeResources,
    n1: NodeResources,
    n2: NodeResources,
)
    requires
        req.gpu.gpuCount > 0 ==> n0.gpus.need_computable(req.gpu.vRam),
        // What `n0.Alloc(req)` promises of the grant and the mutated node.
        grant.memory == req.memory,
        spec_alloc_granted(n0.gpus, req.gpu, grant.gpus, n1.gpus),
        n1.memory == n0.memory - req.memory,
        // What `n1.Add(grant)` promises of the restored node.
        n2.memory == n1.memory + grant.memory,
        n2.gpus.totalSlotCnt == n1.gpus.totalSlotCnt,
        n2.gpus.slotSize == if n1.gpus.slotSize == 0 {
            grant.gpus.slotSize
        } else {
            n1.gpus.slotSize
        },
        spec_add_post(n1.gpus.gpus_map(), grant.gpus.gpus_map(), n2.gpus.gpus_map()),
    ensures
        n2.memory == n0.memory,
        n2.gpus.gpus_map() == n0.gpus.gpus_map(),
        n2.gpus.totalSlotCnt == n0.gpus.totalSlotCnt,
        n2.gpus.slotSize == n0.gpus.slotSize,
        n0.wf() && n2.wf() ==> n2.gpus.map@ == n0.gpus.map@,
{
    crate::slot_pool::lemma_alloc_then_add_restores(n0.gpus, req.gpu, grant.gpus, n1.gpus, n2.gpus);
}

/// The capacity view an external scheduler sees: the node's total capacity
/// and what is still available on it.
#[derive(Debug, Clone)]
pub struct NodeResourcesStatus {
    pub total: NodeResources,
    pub available: NodeResources,
}

impl NodeResourcesStatus {
    /// Whether the node currently has room to run the task.
    pub fn IsAvailable(&self, req: &Resources) -> (r: bool)
        requires
            self.available.wf(),
            req.gpu.gpuCount > 0 ==> self.available.gpus.need_computable(req.gpu.vRam),
        ensures
            r == self.available.spec_can_alloc(*req),
    {
        self.available.CanAlloc(req)
    }

    /// Whether the node could ever run the task, were it empty.
    pub fn IsFeasible(&self, req: &Resources) -> (r: bool)
        requires
            self.total.wf(),
            req.gpu.gpuCount > 0 ==> self.total.gpus.need_computable(req.gpu.vRam),
        ensures
            r == self.total.spec_can_alloc(*req),
    {
        self.total.CanAlloc(req)
    }
}

} // verus!
