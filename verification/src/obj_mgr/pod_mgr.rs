//! Pod records: the lifecycle states an instance moves through and the
//! per-instance resource bookkeeping driven by residency transitions.

use vstd::prelude::*;

use crate::common::Error;
use crate::node::ContainerDef;
use crate::node_pool::NodeResources;
use crate::obj_mgr::func_mgr::{FuncSpec, HttpEndpoint};
use crate::obj_mgr::funcsnapshot_mgr::SnapshotStandyInfo;
use crate::resource::{GPUType, Resources, Standby};
use crate::slot_pool::{spec_add_post, spec_sub_post, GPUAlloc, GPUResourceMap};

verus! {

/// How a pod is being created: fresh, as a snapshot source, or restored
/// from a snapshot.
#[derive(Debug, Clone, Copy, PartialEq, Eq, Structural)]
pub enum CreatePodType {
    Normal,
    Snapshot,
    Restore,
}

impl Default for CreatePodType {
    fn default() -> (r: Self)
        ensures
            r is Normal,
    {
        CreatePodType::Normal
    }
}

/// How a pod's main process exited.
#[derive(Debug, Clone)]
pub enum ExitInfo {
    NoExit,
    Success(String),
    Error(String),
}

impl Default for ExitInfo {
    fn default() -> (r: Self)
        ensures
            r is NoExit,
    {
        ExitInfo::NoExit
    }
}

/// The spec portion of a pod record, including its per-instance resource
/// ledger: what the instance asked for (`reqResources`) and what is
/// currently granted to it (`allocResources`).
#[derive(Debug, Clone, Default)]
pub struct FuncPodSpec {
    pub funcname: String,
    pub fprevision: i64,
    pub id: String,
    pub uid: String,
    pub funcspec: FuncSpec,
    pub init_containers: Vec<ContainerDef>,
    pub containers: Vec<ContainerDef>,
    pub host_network: bool,
    pub nodename: String,
    pub host_ipc: bool,
    pub host_pid: bool,
    pub share_process_namespace: bool,
    pub deletion_grace_period_seconds: Option<i32>,
    pub termination_grace_period_seconds: Option<i32>,
    pub runtime_class_name: Option<String>,
    pub ipAddr: u32,
    pub create_type: CreatePodType,
    pub host_ip: String,
    pub pod_ip: String,
    pub pod_ips: Vec<String>,
    pub reqResources: Resources,
    pub allocResources: NodeResources,
    pub readinessProbe: HttpEndpoint,
    pub standby: Standby,
    pub snapshotStandbyInfo: SnapshotStandyInfo,
}

impl FuncPodSpec {
    /// Record the grant re-acquired while resuming or restoring this
    /// instance.
    pub fn ResumeRestore(&mut self, resources: &NodeResources) -> (r: Result<(), Error>)
        requires
            old(self).allocResources.wf(),
            resources.wf(),
            old(self).allocResources.gpuType.0@ == resources.gpuType.0@,
            old(self).allocResources.memory + resources.memory <= u64::MAX,
            forall|k: i32| #![auto]
                resources.gpus.gpus_map().contains_key(k) && old(
                    self,
                ).allocResources.gpus.gpus_map().contains_key(k) ==> old(
                    self,
                ).allocResources.gpus.gpus_map()[k].contextCnt
                    + resources.gpus.gpus_map()[k].contextCnt <= u64::MAX && old(
                    self,
                ).allocResources.gpus.gpus_map()[k].slotCnt
                    + resources.gpus.gpus_map()[k].slotCnt <= u32::MAX,
        ensures
            r is Ok,
            final(self).allocResources.wf(),
            final(self).allocResources.memory == old(self).allocResources.memory
                + resources.memory,
            spec_add_post(
                old(self).allocResources.gpus.gpus_map(),
                resources.gpus.gpus_map(),
                final(self).allocResources.gpus.gpus_map(),
            ),
    {
        self.allocResources.Add(resources)
    }

    /// Release the GPU portion of this instance's grant after its GPU
    /// memory state was hibernated to host memory: every tracked GPU budget
    /// in the ledger drops to zero, host memory stays reserved.
    pub fn MemHibernateDone(&mut self) -> (r: Result<(), Error>)
        requires
            old(self).allocResources.wf(),
        ensures
            r is Ok,
            final(self).allocResources.wf(),
            final(self).allocResources.memory == old(self).allocResources.memory,
            final(self).allocResources.gpus.gpus_map().dom() == old(
                self,
            ).allocResources.gpus.gpus_map().dom(),
            forall|k: i32| #[trigger]
                final(self).allocResources.gpus.gpus_map().contains_key(k) ==> final(self).allocResources.gpus.gpus_map()[k] == (GPUAlloc { contextCnt: 0, slotCnt: 0 }),
    {
        let gpu = self.allocResources.GPUResource();
        let r = self.allocResources.Sub(&gpu);
        proof {
            assert forall|k: i32| #[trigger]
                self.allocResources.gpus.gpus_map().contains_key(k) implies self
                .allocResources.gpus.gpus_map()[k] == (GPUAlloc {
                contextCnt: 0,
                slotCnt: 0,
            }) by {
                assert(gpu.gpus.gpus_map() == old(self).allocResources.gpus.gpus_map());
            }
        }
        r
    }

    /// Record the GPU grant re-acquired when this instance's GPU memory
    /// state is brought back from host memory.
    pub fn MemWakeup(&mut self, gpuResources: GPUResourceMap) -> (r: Result<(), Error>)
        requires
            old(self).allocResources.wf(),
            gpuResources.wf(),
            old(self).allocResources.gpuType.0@ == "Any"@,
            forall|k: i32| #![auto]
                gpuResources.gpus_map().contains_key(k) && old(
                    self,
                ).allocResources.gpus.gpus_map().contains_key(k) ==> old(
                    self,
                ).allocResources.gpus.gpus_map()[k].contextCnt
                    + gpuResources.gpus_map()[k].contextCnt <= u64::MAX && old(
                    self,
                ).allocResources.gpus.gpus_map()[k].slotCnt + gpuResources.gpus_map()[k].slotCnt
                    <= u32::MAX,
        ensures
            r is Ok,
            final(self).allocResources.wf(),
            final(self).allocResources.memory == old(self).allocResources.memory,
            spec_add_post(
                old(self).allocResources.gpus.gpus_map(),
                gpuResources.gpus_map(),
                final(self).allocResources.gpus.gpus_map(),
            ),
    {
        let ghost gm = gpuResources.gpus_map();
        let resources = NodeResources {
            nodename: self.nodename.clone(),
            cpu: 0,
            memory: 0,
            gpuType: GPUType::Any(),
            gpus: gpuResources,
            maxContextCnt: 0,
        };
        proof {
            assert(resources.gpus.gpus_map() == gm);
        }
        self.allocResources.Add(&resources)
    }
}

/// The lifecycle states of a pod, from provisioning through serving,
/// GPU-memory residency management, and teardown.
#[derive(Debug, PartialEq, Eq, PartialOrd, Ord, Clone, Copy, Structural)]
pub enum PodState {
    /// Initial state.
    Init,
    /// The scheduler started creating the pod.
    Creating,
    /// Startup finished.
    Created,
    /// The container runs but the readiness probe has not passed.
    Loading,
    /// The pod serves new requests.
    Ready,
    /// Draining in-flight requests, accepting no new ones.
    Draining,
    /// The node agent is killing the pod.
    Terminating,
    /// Normal exit after a terminate request.
    Terminated,
    /// Abnormal exit.
    Failed,
    /// Pod artifacts (directories, cgroups) are cleaned.
    Cleanup,
    Deleted,
    /// A snapshot of the pod exists.
    Snapshoted,
    /// The pod is being recreated from a snapshot.
    Restoring,
    /// Fully dormant and leasable again.
    Standby,
    /// Coming back from standby.
    Resuming,
    ResumeDone,
    /// GPU memory state is being moved to host memory.
    MemHibernating,
    /// GPU memory state lives in host memory.
    MemHibernated,
    /// Host-memory state is being spilled to disk.
    DiskHibernating,
    /// Container state lives on disk.
    DiskHibernated,
    /// Transition from a hibernated state back to running.
    Waking,
    /// A snapshot is being taken.
    Snapshoting,
    /// The readiness probe timed out; the load is re-run.
    LoadingTimeout,
}

impl Default for PodState {
    fn default() -> (r: Self)
        ensures
            r is Init,
    {
        PodState::Init
    }
}

} // verus!
