//! Function definitions and the per-function resource calculus: the full
//! ("snapshot"), dormant ("restore") and incremental ("resume") footprints
//! of a workload, as a function of its standby policy.

use vstd::prelude::*;

use crate::resource::{spec_standby_resolve, GPUResource, Resources, Standby, StandbyType};

verus! {

/// The identity of a function package.
#[derive(Debug, Default)]
pub struct FuncPackageId {
    pub namespace: String,
    pub name: String,
}

/// A host-path mount of a function container.
#[derive(Debug, Default, Clone)]
pub struct Mount {
    pub hostpath: String,
    pub mountpath: String,
}

/// The scheme of an HTTP endpoint.
#[derive(Debug, Clone, Copy, PartialEq, Eq, Structural)]
pub enum URIScheme {
    Http,
    Https,
}

impl Default for URIScheme {
    fn default() -> (r: Self)
        ensures
            r is Http,
    {
        URIScheme::Http
    }
}

/// An HTTP endpoint of a function, with its readiness probe path.
#[derive(Debug, Clone)]
pub struct HttpEndpoint {
    pub port: u16,
    pub schema: URIScheme,
    pub probe: String,
}

impl Default for HttpEndpoint {
    fn default() -> (r: Self)
        ensures
            r.port == 80,
            r.schema is Http,
            r.probe@ == "/health"@,
    {
        HttpEndpoint { port: 80, schema: URIScheme::Http, probe: "/health".to_owned() }
    }
}

/// A sample invocation of a function, for display to users.
#[derive(Debug, Clone)]
pub struct SampleCall {
    pub apiType: ApiType,
    pub path: String,
    pub prompt: String,
    pub body: std::collections::BTreeMap<String, String>,
}

impl Default for SampleCall {
    fn default() -> (r: Self)
        ensures
            r.apiType is OpenAI,
            r.path@ == "/v1/completions"@,
            r.prompt@ == "Seattle is a"@,
    {
        let mut map: std::collections::BTreeMap<String, String> = std::collections::BTreeMap::new();
        map.insert("name".to_owned(), "Unknown".to_owned());
        map.insert("max_tokens".to_owned(), "1000".to_owned());
        map.insert("temperature".to_owned(), "0".to_owned());
        map.insert("stream".to_owned(), "true".to_owned());

        SampleCall {
            apiType: ApiType::OpenAI,
            path: "/v1/completions".to_owned(),
            prompt: "Seattle is a".to_owned(),
            body: map,
        }
    }
}

/// The wire API a function speaks.
#[derive(Debug, Clone, Copy, PartialEq, Eq, Structural)]
pub enum ApiType {
    OpenAI,
    Standard,
    Llava,
    Text2Image,
}

impl Default for ApiType {
    fn default() -> (r: Self)
        ensures
            r is OpenAI,
    {
        ApiType::OpenAI
    }
}

/// The declared shape of a function: container image, endpoints, resources
/// and standby policy.
#[derive(Debug, Clone)]
pub struct FuncSpec {
    pub image: String,
    pub commands: Vec<String>,
    pub envs: Vec<(String, String)>,
    pub mounts: Vec<Mount>,
    pub endpoint: HttpEndpoint,
    pub version: i64,
    pub entrypoint: Vec<String>,
    pub resources: Resources,
    pub standby: Standby,
    pub probe: HttpEndpoint,
    pub sampleCall: SampleCall,
}

impl Default for FuncSpec {
    fn default() -> (r: Self)
        ensures
            r.version == 0,
            r.resources.cpu == 0,
            r.resources.memory == 0,
            r.standby.gpuMem is File,
            r.standby.pageableMem is File,
            r.standby.pinndMem is File,
    {
        FuncSpec {
            image: String::new(),
            commands: Vec::new(),
            envs: Vec::new(),
            mounts: Vec::new(),
            endpoint: HttpEndpoint::default(),
            version: 0,
            entrypoint: Vec::new(),
            resources: Resources::default(),
            standby: Standby::default(),
            probe: HttpEndpoint::default(),
            sampleCall: SampleCall::default(),
        }
    }
}

/// The host memory a dormant instance of `f` keeps reserved: its full
/// memory ask when the GPU state stays resident in host memory, otherwise
/// only the fixed overhead of a dormant container shell.
pub open spec fn spec_restore_memory(f: FuncSpec, blobStoreEnable: bool) -> u64 {
    if spec_standby_resolve(f.standby.gpuMem, blobStoreEnable) is Mem {
        f.resources.memory
    } else {
        FuncSpec::HIBERNATE_CONTAINER_MEM_OVERHEAD
    }
}

impl FuncSpec {
    /// Memory footprint (MB) of a hibernated container shell.
    pub const HIBERNATE_CONTAINER_MEM_OVERHEAD: u64 = 500;

    /// The capacity that stays reserved while an instance is dormant.
    pub fn RestoreResource(&self, blobStoreEnable: bool) -> (r: Resources)
        ensures
            r.cpu == 0,
            r.memory == spec_restore_memory(*self, blobStoreEnable),
            r.gpu.gpuCount == 0,
            r.gpu.vRam == 0,
            r.gpu.type_.0@ == "Any"@,
    {
        match self.standby.GpuMemKeepalive(blobStoreEnable) {
            StandbyType::Mem => Resources {
                cpu: 0,
                memory: self.resources.memory,
                gpu: GPUResource::default(),
            },
            _ => Resources {
                cpu: 0,
                memory: Self::HIBERNATE_CONTAINER_MEM_OVERHEAD,
                gpu: GPUResource::default(),
            },
        }
    }

    /// The full capacity an active instance holds; a snapshot in flight
    /// still counts as fully resident.
    pub fn SnapshotResource(&self) -> (r: Resources)
        ensures
            r == self.resources,
    {
        self.resources.clone()
    }

    /// The incremental grant needed to go from dormant back to fully
    /// running: the full requirement minus the dormant footprint.
    pub fn ResumeResource(&self, blobStoreEnable: bool) -> (r: Resources)
        requires
            spec_restore_memory(*self, blobStoreEnable) <= self.resources.memory,
        ensures
            r.cpu == self.resources.cpu,
            r.memory == self.resources.memory - spec_restore_memory(*self, blobStoreEnable),
            r.gpu == self.resources.gpu,
    {
        let restoreResource = self.RestoreResource(blobStoreEnable);
        let mut req = self.resources.clone();
        req.Sub(&restoreResource);
        req
    }
}

/// The dormant footprint plus the resume delta is exactly the snapshot
/// footprint, component-wise, for every function and either blob-store
/// setting.  `restore` and `resume` are any values meeting the contracts of
/// `RestoreResource` and `ResumeResource`; the dormant footprint must fit in
/// the declared memory for the difference to exist at all.
pub proof fn lemma_restore_resume_partition(
    f: FuncSpec,
    blobStoreEnable: bool,
    restore: Resources,
    resume: Resources,
)
    requires
        spec_restore_memory(f, blobStoreEnable) <= f.resources.memory,
        restore.cpu == 0,
        restore.memory == spec_restore_memory(f, blobStoreEnable),
        restore.gpu.gpuCount == 0,
        restore.gpu.vRam == 0,
        resume.cpu == f.resources.cpu,
        resume.memory == f.resources.memory - spec_restore_memory(f, blobStoreEnable),
        resume.gpu == f.resources.gpu,
    ensures
        restore.cpu + resume.cpu == f.resources.cpu,
        restore.memory + resume.memory == f.resources.memory,
        resume.gpu == f.resources.gpu,
{
}

/// The health of a deployed function.
#[derive(Debug, Clone, Copy, PartialEq, Eq, Structural)]
pub enum FuncState {
    Normal,
    Fail,
}

impl Default for FuncState {
    fn default() -> (r: Self)
        ensures
            r is Normal,
    {
        FuncState::Normal
    }
}

/// Operational status of a function.
#[derive(Debug, Clone, Default)]
pub struct FuncStatus {
    pub state: FuncState,
    pub snapshotingFailureCnt: u64,
    pub resumingFailureCnt: u64,
}

/// A function record: its declared spec and its status.
#[derive(Debug, Clone, Default)]
pub struct FuncObject {
    pub spec: FuncSpec,
    pub status: FuncStatus,
}

} // verus!
