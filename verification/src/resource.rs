//! Basic resource vocabulary: GPU types, per-request resource asks, and the
//! standby policy that decides where a dormant instance's state is kept.

use vstd::prelude::*;

use crate::common::Error;

verus! {

/// Maximum number of physical GPUs a node can expose.
pub const MAX_GPU_COUNT: usize = 8;

/// Identifier of a physical GPU on one node.
pub type GPUId = u8;

/// An opaque GPU model label.  The wildcard label `"Any"` matches every
/// concrete type.
#[derive(Debug)]
pub struct GPUType(pub String);

impl Clone for GPUType {
    fn clone(&self) -> (r: Self)
        ensures
            r == *self,
    {
        GPUType(self.0.clone())
    }
}

impl PartialEq for GPUType {
    fn eq(&self, other: &Self) -> (r: bool) {
        self.0 == other.0
    }
}

impl vstd::std_specs::cmp::PartialEqSpecImpl for GPUType {
    open spec fn obeys_eq_spec() -> bool {
        true
    }

    open spec fn eq_spec(&self, other: &Self) -> bool {
        self.0@ == other.0@
    }
}

impl Default for GPUType {
    fn default() -> (r: Self)
        ensures
            r.0@ == "Any"@,
    {
        Self::Any()
    }
}

impl GPUType {
    /// The wildcard type, matched by every pool.
    pub fn Any() -> (r: Self)
        ensures
            r.0@ == "Any"@,
    {
        GPUType("Any".to_owned())
    }

    /// Whether this label is the wildcard.
    pub open spec fn spec_is_any(self) -> bool {
        self.0@ == "Any"@
    }

    /// Whether a pool of this type can serve a request for type `req`:
    /// the request is the wildcard, or the labels are equal.
    pub open spec fn spec_can_alloc(self, req: GPUType) -> bool {
        req.spec_is_any() || self.0@ == req.0@
    }

    pub fn CanAlloc(&self, req: &Self) -> (r: bool)
        ensures
            r == self.spec_can_alloc(*req),
    {
        let any = "Any".to_owned();
        if req.0 == any {
            return true;
        }

        self.0 == req.0
    }
}

/// Interface for component-wise resource arithmetic.
pub trait ResourceTrait {
    fn Equ(&self, other: &Self);

    fn GreaterOrEqu(&self, other: &Self) -> bool;

    fn Sub(&mut self, other: &Self) -> Result<(), Error>;

    fn Add(&mut self, other: &Self) -> Result<(), Error>;
}

/// The set of physical GPUs of one type available on a node.
#[derive(Debug, Clone)]
pub struct NodeGPUResource {
    pub type_: GPUType,
    pub gpus: std::collections::BTreeSet<GPUId>,
}

impl NodeGPUResource {
    pub fn New(gpuType: GPUType, gpus: &[GPUId]) -> (r: Self)
        ensures
            r.type_ == gpuType,
            forall|id: GPUId| r.gpus@.contains(id) <==> gpus@.contains(id),
    {
        let mut set: std::collections::BTreeSet<GPUId> = std::collections::BTreeSet::new();
        let mut i: usize = 0;
        while i < gpus.len()
            invariant
                i <= gpus@.len(),
                forall|id: GPUId|
                    set@.contains(id) <==> exists|j: int| 0 <= j < i && gpus@[j] == id,
            decreases gpus@.len() - i,
        {
            let id = gpus[i];
            set.insert(id);
            i = i + 1;
        }

        NodeGPUResource { type_: gpuType, gpus: set }
    }
}

/// The GPU portion of a resource request: how many GPUs, of which type, and
/// how much vRAM (MB) on each.
#[derive(Debug)]
pub struct GPUResource {
    pub type_: GPUType,
    pub gpuCount: u64,
    pub vRam: u64,
}

impl Clone for GPUResource {
    fn clone(&self) -> (r: Self)
        ensures
            r == *self,
    {
        GPUResource { type_: self.type_.clone(), gpuCount: self.gpuCount, vRam: self.vRam }
    }
}

impl Default for GPUResource {
    fn default() -> (r: Self)
        ensures
            r.type_.0@ == "Any"@,
            r.gpuCount == 0,
            r.vRam == 0,
    {
        GPUResource { type_: GPUType::Any(), gpuCount: 0, vRam: 0 }
    }
}

/// Component-wise subtraction of a GPU ask.  A subtrahend with no GPUs or no
/// vRAM is a no-op; otherwise the GPU counts must agree and only the vRAM is
/// reduced.
pub open spec fn spec_gpu_sub(a: GPUResource, b: GPUResource) -> GPUResource {
    if b.gpuCount == 0 || b.vRam == 0 {
        a
    } else {
        GPUResource { type_: a.type_, gpuCount: a.gpuCount, vRam: (a.vRam - b.vRam) as u64 }
    }
}

impl GPUResource {
    pub fn Sub(&mut self, other: &GPUResource)
        requires
            (other.gpuCount != 0 && other.vRam != 0) ==> (old(self).gpuCount == other.gpuCount
                && old(self).vRam >= other.vRam),
        ensures
            *final(self) == spec_gpu_sub(*old(self), *other),
    {
        if other.gpuCount == 0 || other.vRam == 0 {
            return ;
        }
        self.vRam = self.vRam - other.vRam;
    }
}

/// How much of a GPU a workload occupies.
#[derive(Debug, Clone, Copy)]
pub enum GPUUage {
    vRam(u64),
    Full,
}

impl Default for GPUUage {
    fn default() -> (r: Self)
        ensures
            r is Full,
    {
        GPUUage::Full
    }
}

/// The resource kinds tracked per node.
#[derive(Debug, Clone, Copy, PartialEq, Eq, Structural)]
pub enum ResourceType {
    CPU,
    Mem,
    GPU,
}

/// Either an automatically chosen GPU set or an explicit one.
#[derive(Debug, Clone)]
pub enum GPUSet {
    Auto,
    GPUSet(std::collections::BTreeSet<GPUId>),
}

impl Default for GPUSet {
    fn default() -> (r: Self)
        ensures
            r is Auto,
    {
        GPUSet::Auto
    }
}

/// Raw, user-facing resource configuration of a workload.
#[derive(Debug, Clone)]
pub struct ResourceConfig {
    /// 1/1000 CPU cores.
    pub cpu: u64,
    /// MB of memory.
    pub memory: u64,
    pub gpuType: GPUType,
    pub gpus: GPUSet,
    /// MB of vRAM per GPU.
    pub vRam: u64,
    /// MB of vRAM overhead per driver context.
    pub contextOverhead: u64,
    pub maxContextPerGPU: u64,
}

impl ResourceConfig {
    /// The configured per-GPU context cap, defaulting to one.
    pub fn MaxContextPerGPU(&self) -> (r: u64)
        ensures
            r == if self.maxContextPerGPU == 0 {
                1u64
            } else {
                self.maxContextPerGPU
            },
    {
        if self.maxContextPerGPU == 0 {
            return 1;
        }

        self.maxContextPerGPU
    }
}

/// One planned placement on a physical GPU.
#[derive(Debug, Clone, Copy)]
pub struct GPUAllocation {
    pub gpuId: GPUId,
    pub usage: u8,
}

/// A full resource request: CPU, memory and the GPU ask.
#[derive(Debug)]
pub struct Resources {
    /// 1/1000 CPU cores.
    pub cpu: u64,
    /// MB of memory.
    pub memory: u64,
    pub gpu: GPUResource,
}

impl Clone for Resources {
    fn clone(&self) -> (r: Self)
        ensures
            r == *self,
    {
        Resources { cpu: self.cpu, memory: self.memory, gpu: self.gpu.clone() }
    }
}

impl Default for Resources {
    fn default() -> (r: Self)
        ensures
            r.cpu == 0,
            r.memory == 0,
            r.gpu.type_.0@ == "Any"@,
            r.gpu.gpuCount == 0,
            r.gpu.vRam == 0,
    {
        Resources { cpu: 0, memory: 0, gpu: GPUResource::default() }
    }
}

/// Component-wise subtraction of two requests.
pub open spec fn spec_resources_sub(a: Resources, b: Resources) -> Resources {
    Resources {
        cpu: (a.cpu - b.cpu) as u64,
        memory: (a.memory - b.memory) as u64,
        gpu: spec_gpu_sub(a.gpu, b.gpu),
    }
}

impl Resources {
    /// Fill in the defaults for an unspecified CPU (0.1 cores) or memory
    /// (500 MB) ask.
    pub fn SetDefault(&mut self)
        ensures
            final(self).cpu == if old(self).cpu == 0 {
                100u64
            } else {
                old(self).cpu
            },
            final(self).memory == if old(self).memory == 0 {
                500u64
            } else {
                old(self).memory
            },
            final(self).gpu == old(self).gpu,
    {
        if self.cpu == 0 {
            self.cpu = 100;
        }

        if self.memory == 0 {
            self.memory = 500;
        }
    }

    /// The GPU portion of this request, with CPU and memory zeroed.
    pub fn GPUResource(&self) -> (r: Self)
        ensures
            r.cpu == 0,
            r.memory == 0,
            r.gpu == self.gpu,
    {
        Resources { cpu: 0, memory: 0, gpu: self.gpu.clone() }
    }

    pub fn Sub(&mut self, other: &Self)
        requires
            old(self).cpu >= other.cpu,
            old(self).memory >= other.memory,
            (other.gpu.gpuCount != 0 && other.gpu.vRam != 0) ==> (old(self).gpu.gpuCount
                == other.gpu.gpuCount && old(self).gpu.vRam >= other.gpu.vRam),
        ensures
            *final(self) == spec_resources_sub(*old(self), *other),
    {
        self.cpu = self.cpu - other.cpu;
        self.memory = self.memory - other.memory;
        self.gpu.Sub(&other.gpu);
    }
}

/// Where one kind of dormant state is kept: spilled to a local file, kept
/// resident in memory, or offloaded to a blob store.
#[derive(Debug, Clone, Copy, PartialEq, Eq, Structural)]
pub enum StandbyType {
    File,
    Mem,
    Blob,
}

impl Default for StandbyType {
    fn default() -> (r: Self)
        ensures
            r is File,
    {
        StandbyType::File
    }
}

/// The resolved standby kind: `Blob` degrades to `File` when no blob store
/// is configured; the other kinds pass through unchanged.
pub open spec fn spec_standby_resolve(t: StandbyType, blobStoreEnable: bool) -> StandbyType {
    match t {
        StandbyType::Mem => StandbyType::Mem,
        StandbyType::File => StandbyType::File,
        StandbyType::Blob => if blobStoreEnable {
            StandbyType::Blob
        } else {
            StandbyType::File
        },
    }
}

impl StandbyType {
    /// Resolve the configured kind against the blob-store availability.
    pub fn StandbyType(&self, blobStoreEnable: bool) -> (r: StandbyType)
        ensures
            r == spec_standby_resolve(*self, blobStoreEnable),
    {
        match self {
            StandbyType::Mem => StandbyType::Mem,
            StandbyType::File => StandbyType::File,
            StandbyType::Blob => {
                if blobStoreEnable {
                    StandbyType::Blob
                } else {
                    StandbyType::File
                }
            },
        }
    }

    pub fn String(&self) -> (r: String)
        ensures
            r@ == match self {
                StandbyType::Mem => "mem"@,
                StandbyType::File => "file"@,
                StandbyType::Blob => "blob"@,
            },
    {
        match self {
            StandbyType::Mem => "mem".to_owned(),
            StandbyType::File => "file".to_owned(),
            StandbyType::Blob => "blob".to_owned(),
        }
    }

    /// Parse a standby kind, defaulting to `File` on anything unrecognized.
    pub fn New(s: &str) -> (r: Self)
        ensures
            r == if s@ == "mem"@ {
                StandbyType::Mem
            } else if s@ == "file"@ {
                StandbyType::File
            } else if s@ == "blob"@ {
                StandbyType::Blob
            } else {
                StandbyType::File
            },
    {
        let t = s.to_owned();
        if t == "mem".to_owned() {
            StandbyType::Mem
        } else if t == "file".to_owned() {
            StandbyType::File
        } else if t == "blob".to_owned() {
            StandbyType::Blob
        } else {
            StandbyType::File
        }
    }
}

/// The standby policy of a workload, one kind per resource class.
#[derive(Debug, Clone, Copy, PartialEq, Eq, Structural)]
pub struct Standby {
    pub gpuMem: StandbyType,
    pub pageableMem: StandbyType,
    pub pinndMem: StandbyType,
}

impl Default for Standby {
    fn default() -> (r: Self)
        ensures
            r.gpuMem is File,
            r.pageableMem is File,
            r.pinndMem is File,
    {
        Standby { gpuMem: StandbyType::File, pageableMem: StandbyType::File, pinndMem: StandbyType::File }
    }
}

impl Standby {
    /// The resolved standby kind for GPU memory.
    pub fn GpuMemKeepalive(&self, blobStoreEnable: bool) -> (r: StandbyType)
        ensures
            r == spec_standby_resolve(self.gpuMem, blobStoreEnable),
    {
        self.gpuMem.StandbyType(blobStoreEnable)
    }
}

} // verus!
