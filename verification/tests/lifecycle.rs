//! Tests for the worker lease, the pod lifecycle bookkeeping and the
//! snapshot size calculus.

use inferxlib::data_obj::EventType;
use inferxlib::node::{IdleSeqNum, WorkerPod, WorkerPodState};
use inferxlib::node_pool::NodeResources;
use inferxlib::obj_mgr::funcsnapshot_mgr::SnapshotInfo;
use inferxlib::obj_mgr::pod_mgr::{FuncPodSpec, PodState};
use inferxlib::resource::GPUType;
use inferxlib::slot_pool::{GPUAlloc, GPUResourceMap};

#[test]
fn lease_from_ready_or_standby_starts_idle() {
    let mut seq = IdleSeqNum::New();
    let p1 = WorkerPod::NewFromState(PodState::Ready, &mut seq);
    assert!(matches!(p1.State(), WorkerPodState::Idle(0)));
    let p2 = WorkerPod::NewFromState(PodState::Standby, &mut seq);
    assert!(matches!(p2.State(), WorkerPodState::Idle(1)));

    for state in [
        PodState::Init,
        PodState::Creating,
        PodState::Loading,
        PodState::Draining,
        PodState::Terminating,
        PodState::MemHibernated,
        PodState::Snapshoting,
    ] {
        let p = WorkerPod::NewFromState(state, &mut seq);
        assert!(matches!(p.State(), WorkerPodState::Init));
    }
    // Only the two leasable constructions drew tokens.
    assert_eq!(seq.next, 2);
}

#[test]
fn set_working_returns_the_idle_token() {
    let mut seq = IdleSeqNum::New();
    let mut lease = WorkerPod::NewFromState(PodState::Init, &mut seq);

    // From Init, claiming yields token 0 without drawing one.
    assert_eq!(lease.SetWorking(), 0);
    assert!(matches!(lease.State(), WorkerPodState::Working));

    // Release, then claim again: the drawn token comes back.
    let t = lease.SetIdle(&mut seq);
    assert_eq!(t, 0);
    assert!(lease.State().IsIdle());
    assert_eq!(lease.SetWorking(), t);
    assert!(matches!(lease.State(), WorkerPodState::Working));

    // Tokens are strictly increasing across leases.
    let t2 = lease.SetIdle(&mut seq);
    assert!(t2 > t);
}

#[test]
fn is_idle_only_for_idle() {
    assert!(WorkerPodState::Idle(9).IsIdle());
    assert!(!WorkerPodState::Init.IsIdle());
    assert!(!WorkerPodState::Working.IsIdle());
}

#[test]
fn set_state_overrides() {
    let mut seq = IdleSeqNum::New();
    let mut lease = WorkerPod::NewFromState(PodState::Creating, &mut seq);
    lease.SetState(WorkerPodState::Idle(42));
    assert!(matches!(lease.State(), WorkerPodState::Idle(42)));
}

fn pod_with_alloc() -> FuncPodSpec {
    let mut pod = FuncPodSpec::default();
    pod.nodename = "node1".to_owned();
    pod.allocResources = NodeResources::New(
        "node1",
        1000,
        4096,
        GPUType::Any(),
        GPUResourceMap {
            totalSlotCnt: 8,
            map: vec![(0, GPUAlloc { contextCnt: 1, slotCnt: 8 })],
            slotSize: 1024 * 1024,
        },
        1,
    );
    pod
}

#[test]
fn mem_hibernate_zeroes_the_gpu_ledger_and_keeps_memory() {
    let mut pod = pod_with_alloc();
    pod.MemHibernateDone().unwrap();
    assert_eq!(pod.allocResources.memory, 4096);
    assert_eq!(pod.allocResources.gpus.map, vec![(0, GPUAlloc { contextCnt: 0, slotCnt: 0 })]);
}

#[test]
fn mem_wakeup_restores_the_gpu_ledger() {
    let mut pod = pod_with_alloc();
    pod.MemHibernateDone().unwrap();
    pod.MemWakeup(GPUResourceMap {
        totalSlotCnt: 8,
        map: vec![(0, GPUAlloc { contextCnt: 1, slotCnt: 8 })],
        slotSize: 1024 * 1024,
    })
    .unwrap();
    assert_eq!(pod.allocResources.gpus.map, vec![(0, GPUAlloc { contextCnt: 1, slotCnt: 8 })]);
    assert_eq!(pod.allocResources.memory, 4096);
}

#[test]
fn resume_restore_merges_the_regrant() {
    let mut pod = pod_with_alloc();
    let regrant = NodeResources::New(
        "node1",
        0,
        512,
        GPUType::Any(),
        GPUResourceMap {
            totalSlotCnt: 0,
            map: vec![(1, GPUAlloc { contextCnt: 1, slotCnt: 2 })],
            slotSize: 1024 * 1024,
        },
        0,
    );
    pod.ResumeRestore(&regrant).unwrap();
    assert_eq!(pod.allocResources.memory, 4096 + 512);
    assert_eq!(
        pod.allocResources.gpus.map,
        vec![
            (0, GPUAlloc { contextCnt: 1, slotCnt: 8 }),
            (1, GPUAlloc { contextCnt: 1, slotCnt: 2 }),
        ]
    );
}

#[test]
fn snapshot_standby_info_sums_gpu_images() {
    let mut info = SnapshotInfo::default();
    info.hostMemSize = 1024;
    info.processCheckpointSize = 2048;
    info.gpuMemSizes = vec![(0, 100), (1, 250), (3, 50)];
    let standby = info.SnapshotStandyInfo();
    assert_eq!(standby.pinned, 1024);
    assert_eq!(standby.pageable, 2048);
    assert_eq!(standby.gpu, 400);

    let empty = SnapshotInfo::default();
    assert_eq!(empty.SnapshotStandyInfo().gpu, 0);
}

#[test]
fn pod_state_defaults_to_init() {
    assert_eq!(PodState::default(), PodState::Init);
    assert!(PodState::Init < PodState::Ready);
}

#[test]
fn event_type_deep_copy_is_structural() {
    let e = EventType::Error("boom".to_owned());
    assert_eq!(e.DeepCopy(), e);
    assert_eq!(EventType::Added.DeepCopy(), EventType::Added);
    assert_eq!(EventType::default(), EventType::NoEvent);
}
