//! Node-side data model: hardware descriptions, pod plumbing types, and the
//! worker lease a request router uses to claim an instance.

use vstd::prelude::*;

use crate::node_pool::NodeResources;
use crate::obj_mgr::pod_mgr::PodState;

verus! {

/// Hardware and OS identity reported by a node.
#[derive(Clone, Debug, Default)]
pub struct NodeSystemInfo {
    pub architecture: String,
    pub container_runtime_version: String,
    pub kernel_version: String,
    pub machine_id: String,
    pub operating_system: String,
    pub os_image: String,
    pub system_uuid: String,
    pub boot_id: String,
}

/// One address under which a node is reachable.
#[derive(Clone, Debug, Default, PartialEq)]
pub struct NodeAddress {
    pub address: String,
    pub type_: String,
}

/// A scalar resource quantity.
#[derive(Clone, Copy, Debug, Default, PartialEq, Eq, Structural)]
pub struct Quantity(pub i64);

/// A container image known to a node.
#[derive(Clone, Debug, Default, PartialEq)]
pub struct ContainerImage {
    pub names: Vec<String>,
    pub size_bytes: i64,
}

/// The node spec portion of a node record.
#[derive(Clone, Debug, Default)]
pub struct NodeDef {
    pub node_ip: String,
    pub pod_cidr: String,
    pub unschedulable: bool,
}

/// The identity and capacity a node reports at registration.
#[derive(Clone, Debug)]
pub struct NodeInfo {
    pub architecture: String,
    pub boot_id: String,
    pub container_runtime_version: String,
    pub kernel_version: String,
    pub machine_id: String,
    pub operating_system: String,
    pub system_uuid: String,
    pub capacity: std::collections::BTreeMap<String, Quantity>,
}

pub struct QNodeInner {}

/// A function definition deployable on a node.
pub enum FuncDef {
    PythonFuncDef(PythonFuncDef),
}

pub struct PythonFuncDef {
    pub environment: String,
    pub envs: Vec<(String, String)>,
    pub workingDir: Option<String>,
    pub funcName: String,
    pub initArgments: String,
    pub resourceReq: std::collections::BTreeMap<String, Quantity>,
}

pub struct Environment {
    pub image: String,
    pub envs: std::collections::BTreeMap<String, String>,
    pub commands: Vec<String>,
    pub args: Vec<String>,
    pub working_dir: String,
    pub volume_mounts: Vec<VolumeMount>,
    pub overhead: std::collections::BTreeMap<String, Quantity>,
}

pub struct EnvDeployment {
    pub environment: String,
    pub resource: std::collections::BTreeMap<String, Quantity>,
}

pub struct FuncServiceSpec {
    pub environments: std::collections::BTreeMap<String, Environment>,
    pub functions: std::collections::BTreeMap<String, FuncDef>,
    pub httpEntryFunc: String,
}

pub struct FuncServiceDeployConfig {
    pub envDeployments: std::collections::BTreeMap<String, EnvDeployment>,
    pub funcMapping: std::collections::BTreeMap<String, String>,
}

pub struct FuncServiceInstance {}

/// The token identifying one idle period of a lease.
pub type ReturnId = u64;

/// The lease state of one worker instance.
#[derive(Debug, Clone, Copy, PartialEq, Eq, Structural)]
pub enum WorkerPodState {
    Init,
    /// Leased by one gateway.
    Working,
    /// Not leased; the payload is the token drawn when the lease went idle.
    Idle(ReturnId),
}

impl WorkerPodState {
    pub fn IsIdle(&self) -> (r: bool)
        ensures
            r == (*self is Idle),
    {
        match self {
            WorkerPodState::Idle(_) => true,
            _ => false,
        }
    }
}

/// The process-wide source of idle tokens: a monotonic counter, owned
/// explicitly and passed in by the serving context, so that the order of
/// idle events is total and tests can isolate the counter.
#[derive(Debug)]
pub struct IdleSeqNum {
    pub next: u64,
}

impl IdleSeqNum {
    pub fn New() -> (r: Self)
        ensures
            r.next == 0,
    {
        IdleSeqNum { next: 0 }
    }

    /// Draw the next token; tokens are strictly increasing.
    pub fn Fetch(&mut self) -> (r: u64)
        requires
            old(self).next < u64::MAX,
        ensures
            r == old(self).next,
            final(self).next == old(self).next + 1,
    {
        let r = self.next;
        self.next = self.next + 1;
        r
    }
}

/// The lease a request router holds on one worker instance.
#[derive(Debug)]
pub struct WorkerPod {
    pub workerState: WorkerPodState,
}

impl WorkerPod {
    /// Build the lease for an instance in lifecycle state `state`: an
    /// instance that is `Ready` or `Standby` is immediately leasable and
    /// starts `Idle` with a fresh token; any other state starts `Init`.
    pub fn NewFromState(state: PodState, seq: &mut IdleSeqNum) -> (r: Self)
        requires
            old(seq).next < u64::MAX,
        ensures
            (state == PodState::Ready || state == PodState::Standby) ==> (r.workerState
                == WorkerPodState::Idle(old(seq).next) && final(seq).next == old(seq).next + 1),
            !(state == PodState::Ready || state == PodState::Standby) ==> (r.workerState
                == WorkerPodState::Init && final(seq).next == old(seq).next),
    {
        let mut pod = WorkerPod { workerState: WorkerPodState::Init };
        if state == PodState::Ready || state == PodState::Standby {
            pod.SetIdle(seq);
        }
        pod
    }

    pub fn State(&self) -> (r: WorkerPodState)
        ensures
            r == self.workerState,
    {
        self.workerState
    }

    pub fn SetState(&mut self, state: WorkerPodState)
        ensures
            final(self).workerState == state,
    {
        self.workerState = state;
    }

    /// Release the lease: draw a fresh token, go `Idle` with it and return
    /// it.
    pub fn SetIdle(&mut self, seq: &mut IdleSeqNum) -> (r: u64)
        requires
            old(seq).next < u64::MAX,
        ensures
            r == old(seq).next,
            final(seq).next == old(seq).next + 1,
            final(self).workerState == WorkerPodState::Idle(r),
    {
        let returnId = seq.Fetch();
        self.workerState = WorkerPodState::Idle(returnId);
        returnId
    }

    /// Claim the lease: valid only from `Init` (returning 0) or `Idle`
    /// (returning the idle token).  Claiming an already-`Working` lease is a
    /// caller-side protocol violation, excluded by the precondition; a lease
    /// must be released with `SetIdle` before it can be claimed again.
    pub fn SetWorking(&mut self) -> (r: u64)
        requires
            !(old(self).workerState is Working),
        ensures
            final(self).workerState is Working,
            r == match old(self).workerState {
                WorkerPodState::Init => 0u64,
                WorkerPodState::Idle(id) => id,
                WorkerPodState::Working => 0u64,
            },
    {
        let returnId: u64 = match self.workerState {
            WorkerPodState::Working => vstd::pervasive::unreached(),
            WorkerPodState::Init => 0,
            WorkerPodState::Idle(id) => id,
        };
        self.workerState = WorkerPodState::Working;
        returnId
    }
}

/// Network status of one pod.
#[derive(Clone, Default, Debug, PartialEq)]
pub struct PodStatus {
    pub host_ip: String,
    pub pod_ip: String,
    pub pod_ips: Vec<String>,
}

/// A mounting of a volume within a container.
#[derive(Clone, Debug, Default, PartialEq)]
pub struct VolumeMount {
    pub mount_path: String,
    pub mount_propagation: Option<String>,
    pub name: String,
    pub read_only: Option<bool>,
    pub sub_path: Option<String>,
    pub sub_path_expr: Option<String>,
}

/// Compute resource requirements of a container.
#[derive(Clone, Debug, Default, PartialEq)]
pub struct ResourceRequirements {
    pub limits: std::collections::BTreeMap<String, Quantity>,
    pub requests: std::collections::BTreeMap<String, Quantity>,
}

/// A network port exposed by a container.
#[derive(Clone, Debug, Default, PartialEq)]
pub struct ContainerPort {
    pub container_port: i32,
    pub host_ip: Option<String>,
    pub host_port: Option<i32>,
    pub name: Option<String>,
    pub protocol: Option<String>,
}

/// The definition of one container of a pod.
#[derive(Default, Debug, Clone)]
pub struct ContainerDef {
    pub name: String,
    pub image: String,
    pub envs: std::collections::BTreeMap<String, String>,
    pub entrypoint: Vec<String>,
    pub commands: Vec<String>,
    pub args: Vec<String>,
    pub working_dir: String,
    pub volume_mounts: Vec<VolumeMount>,
    pub stdin: bool,
    pub stdin_once: bool,
    pub resources: NodeResources,
    pub ports: Vec<ContainerPort>,
}

} // verus!
