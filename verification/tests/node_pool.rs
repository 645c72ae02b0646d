//! Tests for node-level capacity and the per-workload resource calculus.

use inferxlib::node_pool::NodeResources;
use inferxlib::resource::{GPUSet, ResourceConfig};
use inferxlib::obj_mgr::func_mgr::FuncSpec;
use inferxlib::resource::{GPUResource, GPUType, Resources, Standby, StandbyType};
use inferxlib::slot_pool::{GPUAlloc, GPUResourceMap};

const MIB: u64 = 1024 * 1024;

fn node() -> NodeResources {
    NodeResources::New(
        "node1",
        4000,
        16384,
        GPUType("A100".to_owned()),
        GPUResourceMap {
            totalSlotCnt: 14,
            map: vec![
                (0, GPUAlloc { contextCnt: 2, slotCnt: 10 }),
                (1, GPUAlloc { contextCnt: 1, slotCnt: 4 }),
            ],
            slotSize: 256 * MIB,
        },
        2,
    )
}

fn req(cpu: u64, mem: u64, gpus: u64, vram: u64) -> Resources {
    Resources {
        cpu,
        memory: mem,
        gpu: GPUResource { type_: GPUType::Any(), gpuCount: gpus, vRam: vram },
    }
}

#[test]
fn node_alloc_takes_memory_and_gpu_but_not_cpu() {
    let mut n = node();
    let r = req(1000, 4096, 1, 2048);
    assert!(n.CanAlloc(&r));

    let grant = n.Alloc(&r).unwrap();
    assert_eq!(grant.nodename, "node1");
    assert_eq!(grant.cpu, 1000);
    assert_eq!(grant.memory, 4096);
    assert_eq!(grant.maxContextCnt, 2);
    assert_eq!(grant.gpus.map, vec![(0, GPUAlloc { contextCnt: 1, slotCnt: 8 })]);

    // Memory shrank, CPU deliberately did not.
    assert_eq!(n.memory, 16384 - 4096);
    assert_eq!(n.cpu, 4000);
    assert_eq!(n.gpus.map[0], (0, GPUAlloc { contextCnt: 1, slotCnt: 2 }));
}

#[test]
fn node_alloc_fails_without_capacity_and_leaves_node_alone() {
    let mut n = node();
    // More memory than the node has.
    let r = req(100, 999999, 0, 0);
    assert!(!n.CanAlloc(&r));
    assert!(matches!(
        n.Alloc(&r),
        Err(inferxlib::common::Error::SchedulerNoEnoughResource(_))
    ));
    assert_eq!(n.memory, 16384);

    // A mismatched GPU type is refused too.
    let mut r2 = req(100, 100, 1, 256);
    r2.gpu.type_ = GPUType("H100".to_owned());
    assert!(!n.CanAlloc(&r2));
}

#[test]
fn node_alloc_then_add_restores_the_node() {
    let mut n = node();
    let r = req(500, 2048, 1, 1024);
    let grant = n.Alloc(&r).unwrap();
    n.Add(&grant).unwrap();
    assert_eq!(n.memory, 16384);
    assert_eq!(n.cpu, 4000);
    assert_eq!(n.gpus.map[0], (0, GPUAlloc { contextCnt: 2, slotCnt: 10 }));
    assert_eq!(n.gpus.map[1], (1, GPUAlloc { contextCnt: 1, slotCnt: 4 }));
}

#[test]
fn node_sub_withdraws_a_grant() {
    let mut n = node();
    let freed = NodeResources::New(
        "",
        0,
        1024,
        GPUType("A100".to_owned()),
        GPUResourceMap {
            totalSlotCnt: 0,
            map: vec![(1, GPUAlloc { contextCnt: 1, slotCnt: 4 })],
            slotSize: 256 * MIB,
        },
        0,
    );
    n.Sub(&freed).unwrap();
    assert_eq!(n.memory, 16384 - 1024);
    assert_eq!(n.gpus.map[1], (1, GPUAlloc { contextCnt: 0, slotCnt: 0 }));
}

#[test]
fn gpu_projection_and_quota() {
    let n = node();
    let g = n.GPUResource();
    assert_eq!(g.cpu, 0);
    assert_eq!(g.memory, 0);
    assert_eq!(g.nodename, "");
    assert_eq!(g.gpus.map, n.gpus.map);

    let q = n.ResourceQuota(&req(750, 512, 0, 0));
    assert_eq!(q.cpu, 750);
    assert_eq!(q.memory, 512);
    assert_eq!(q.nodename, "node1");
    assert!(q.gpus.map.is_empty());
    assert_eq!(q.gpus.slotSize, 0);
}

#[test]
fn copy_and_gpus_are_deep() {
    let n = node();
    let c = n.Copy();
    assert_eq!(c.nodename, n.nodename);
    assert_eq!(c.memory, n.memory);
    assert_eq!(c.gpus.map, n.gpus.map);
    let g = n.Gpus();
    assert_eq!(g.map, n.gpus.map);
    assert_eq!(g.slotSize, n.gpus.slotSize);
}

fn spec_with(standby_gpu: StandbyType, mem: u64) -> FuncSpec {
    let mut f = FuncSpec::default();
    f.resources = req(1000, mem, 1, 4096);
    f.standby = Standby { gpuMem: standby_gpu, pageableMem: StandbyType::File, pinndMem: StandbyType::File };
    f
}

#[test]
fn restore_resource_depends_on_resolved_standby_kind() {
    // Memory-resident standby keeps the full memory reserved.
    let f = spec_with(StandbyType::Mem, 8192);
    let r = f.RestoreResource(false);
    assert_eq!(r.memory, 8192);
    assert_eq!(r.cpu, 0);
    assert_eq!(r.gpu.gpuCount, 0);

    // File standby keeps only the hibernated-container overhead.
    let f2 = spec_with(StandbyType::File, 8192);
    assert_eq!(f2.RestoreResource(false).memory, 500);

    // Blob degrades to File without a blob store, stays Blob with one.
    let f3 = spec_with(StandbyType::Blob, 8192);
    assert_eq!(f3.RestoreResource(false).memory, 500);
    assert_eq!(f3.RestoreResource(true).memory, 500);
}

#[test]
fn restore_plus_resume_equals_snapshot() {
    for standby in [StandbyType::Mem, StandbyType::File, StandbyType::Blob] {
        for blob in [false, true] {
            let f = spec_with(standby, 8192);
            let snapshot = f.SnapshotResource();
            let restore = f.RestoreResource(blob);
            let resume = f.ResumeResource(blob);
            assert_eq!(restore.cpu + resume.cpu, snapshot.cpu);
            assert_eq!(restore.memory + resume.memory, snapshot.memory);
            assert_eq!(resume.gpu.gpuCount, snapshot.gpu.gpuCount);
            assert_eq!(resume.gpu.vRam, snapshot.gpu.vRam);
            assert_eq!(restore.gpu.gpuCount, 0);
            assert_eq!(restore.gpu.vRam, 0);
        }
    }
}

#[test]
fn standby_resolution_and_names() {
    assert_eq!(StandbyType::Mem.StandbyType(false), StandbyType::Mem);
    assert_eq!(StandbyType::File.StandbyType(true), StandbyType::File);
    assert_eq!(StandbyType::Blob.StandbyType(true), StandbyType::Blob);
    assert_eq!(StandbyType::Blob.StandbyType(false), StandbyType::File);

    assert_eq!(StandbyType::Mem.String(), "mem");
    assert_eq!(StandbyType::File.String(), "file");
    assert_eq!(StandbyType::Blob.String(), "blob");

    assert_eq!(StandbyType::New("mem"), StandbyType::Mem);
    assert_eq!(StandbyType::New("file"), StandbyType::File);
    assert_eq!(StandbyType::New("blob"), StandbyType::Blob);
    assert_eq!(StandbyType::New("anything-else"), StandbyType::File);

    let s = Standby { gpuMem: StandbyType::Blob, pageableMem: StandbyType::Mem, pinndMem: StandbyType::File };
    assert_eq!(s.GpuMemKeepalive(false), StandbyType::File);
    assert_eq!(s.GpuMemKeepalive(true), StandbyType::Blob);
}

#[test]
fn gpu_resource_sub_rules() {
    let mut a = GPUResource { type_: GPUType::Any(), gpuCount: 2, vRam: 4096 };
    // A zero subtrahend is a no-op.
    a.Sub(&GPUResource { type_: GPUType::Any(), gpuCount: 0, vRam: 1024 });
    assert_eq!(a.vRam, 4096);
    a.Sub(&GPUResource { type_: GPUType::Any(), gpuCount: 2, vRam: 0 });
    assert_eq!(a.vRam, 4096);
    // Otherwise the vRAM shrinks, the count stays.
    a.Sub(&GPUResource { type_: GPUType::Any(), gpuCount: 2, vRam: 1024 });
    assert_eq!(a.vRam, 3072);
    assert_eq!(a.gpuCount, 2);
}

#[test]
fn resources_sub_is_component_wise() {
    let mut r = req(1000, 4096, 2, 2048);
    r.Sub(&req(250, 1024, 0, 0));
    assert_eq!(r.cpu, 750);
    assert_eq!(r.memory, 3072);
    assert_eq!(r.gpu.vRam, 2048);
}

#[test]
fn max_context_per_gpu_defaults_to_one() {
    let mut c = ResourceConfig {
        cpu: 0,
        memory: 0,
        gpuType: GPUType::Any(),
        gpus: GPUSet::Auto,
        vRam: 0,
        contextOverhead: 0,
        maxContextPerGPU: 0,
    };
    assert_eq!(c.MaxContextPerGPU(), 1);
    c.maxContextPerGPU = 7;
    assert_eq!(c.MaxContextPerGPU(), 7);
}
