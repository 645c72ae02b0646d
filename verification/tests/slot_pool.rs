//! Tests for the GPU slot pool: slot math, capacity checks, allocation and
//! its reversibility.

use inferxlib::resource::{GPUResource, GPUType, Resources};
use inferxlib::slot_pool::{GPUAlloc, GPUResourceMap};

const MIB: u64 = 1024 * 1024;

fn pool_two_gpus() -> GPUResourceMap {
    GPUResourceMap {
        totalSlotCnt: 14,
        map: vec![
            (0, GPUAlloc { contextCnt: 2, slotCnt: 10 }),
            (1, GPUAlloc { contextCnt: 1, slotCnt: 4 }),
        ],
        slotSize: 256 * MIB,
    }
}

fn gpu_req(count: u64, vram_mb: u64) -> GPUResource {
    GPUResource { type_: GPUType::Any(), gpuCount: count, vRam: vram_mb }
}

#[test]
fn req_slot_cnt_is_minimal_cover() {
    let pool = pool_two_gpus();
    // 2048 MB at 256 MiB slots: exactly 8 slots.
    assert_eq!(pool.ReqSlotCnt(2048), 8);
    // One byte more than 8 slots would hold is not needed for 2048 MB;
    // 2049 MB needs a ninth slot.
    assert_eq!(pool.ReqSlotCnt(2049), 9);
    // A zero ask needs no slot.
    assert_eq!(pool.ReqSlotCnt(0), 0);
    // A single MB still needs one full slot.
    assert_eq!(pool.ReqSlotCnt(1), 1);
    // 255 MB fits one 256 MiB slot.
    assert_eq!(pool.ReqSlotCnt(255), 1);
    assert_eq!(pool.ReqSlotCnt(256), 1);
    assert_eq!(pool.ReqSlotCnt(257), 2);
}

#[test]
fn one_gpu_grant_picks_fullest_gpu() {
    // Pool with 2 physical GPUs, slot size 256 MiB; GPU0 {slots 10, ctx 2},
    // GPU1 {slots 4, ctx 1}.  Request one GPU with 2048 MB: need = 8.
    let mut pool = pool_two_gpus();
    let usage = gpu_req(1, 2048);
    assert!(pool.CanAlloc(&usage));

    let grant = pool.Alloc(&usage).unwrap();
    // GPU0 is selected (larger remaining slots sort first).
    assert_eq!(grant.map.len(), 1);
    assert_eq!(grant.map[0].0, 0);
    assert_eq!(grant.map[0].1.contextCnt, 1);
    assert_eq!(grant.map[0].1.slotCnt, 8);
    assert_eq!(grant.slotSize, 256 * MIB);
    assert_eq!(grant.totalSlotCnt, 14);

    // GPU0 is left with {slots 2, ctx 1}; GPU1 unchanged.
    assert_eq!(pool.map[0], (0, GPUAlloc { contextCnt: 1, slotCnt: 2 }));
    assert_eq!(pool.map[1], (1, GPUAlloc { contextCnt: 1, slotCnt: 4 }));
}

#[test]
fn two_gpu_ask_fails_when_only_one_qualifies() {
    // Same pool, request two GPUs with 2048 MB each: need = 8; only GPU0
    // qualifies (GPU1 has 4 < 8).
    let mut pool = pool_two_gpus();
    let usage = gpu_req(2, 2048);
    assert!(!pool.CanAlloc(&usage));

    let r = pool.Alloc(&usage);
    assert!(matches!(
        r,
        Err(inferxlib::common::Error::SchedulerNoEnoughResource(_))
    ));
    // The pool is untouched.
    assert_eq!(pool.map[0], (0, GPUAlloc { contextCnt: 2, slotCnt: 10 }));
    assert_eq!(pool.map[1], (1, GPUAlloc { contextCnt: 1, slotCnt: 4 }));
}

#[test]
fn zero_gpu_ask_always_succeeds_with_empty_grant() {
    let mut pool = pool_two_gpus();
    let usage = gpu_req(0, 4096);
    assert!(pool.CanAlloc(&usage));
    let grant = pool.Alloc(&usage).unwrap();
    assert!(grant.map.is_empty());
    assert_eq!(pool.map[0], (0, GPUAlloc { contextCnt: 2, slotCnt: 10 }));
    assert_eq!(pool.map[1], (1, GPUAlloc { contextCnt: 1, slotCnt: 4 }));
}

#[test]
fn exhausted_context_budget_gates_allocation() {
    // A GPU with free memory but no context budget is excluded.
    let mut pool = GPUResourceMap {
        totalSlotCnt: 10,
        map: vec![(0, GPUAlloc { contextCnt: 0, slotCnt: 10 })],
        slotSize: 256 * MIB,
    };
    let usage = gpu_req(1, 256);
    assert!(!pool.CanAlloc(&usage));
    assert!(pool.Alloc(&usage).is_err());
}

#[test]
fn alloc_then_add_restores_the_pool() {
    let mut pool = pool_two_gpus();
    let usage = gpu_req(2, 512);  // need = 2; both GPUs qualify
    assert!(pool.CanAlloc(&usage));
    let grant = pool.Alloc(&usage).unwrap();
    assert_eq!(grant.map.len(), 2);

    pool.Add(&grant);
    assert_eq!(pool.totalSlotCnt, 14);
    assert_eq!(pool.slotSize, 256 * MIB);
    assert_eq!(pool.map[0], (0, GPUAlloc { contextCnt: 2, slotCnt: 10 }));
    assert_eq!(pool.map[1], (1, GPUAlloc { contextCnt: 1, slotCnt: 4 }));
}

#[test]
fn tie_on_slots_breaks_toward_higher_gpu_id() {
    let mut pool = GPUResourceMap {
        totalSlotCnt: 20,
        map: vec![
            (3, GPUAlloc { contextCnt: 1, slotCnt: 10 }),
            (7, GPUAlloc { contextCnt: 1, slotCnt: 10 }),
        ],
        slotSize: 256 * MIB,
    };
    let grant = pool.Alloc(&gpu_req(1, 256)).unwrap();
    assert_eq!(grant.map[0].0, 7);
}

#[test]
fn add_inserts_unknown_gpu_and_adopts_slot_size() {
    let mut pool = GPUResourceMap { totalSlotCnt: 0, map: vec![], slotSize: 0 };
    let grant = GPUResourceMap {
        totalSlotCnt: 0,
        map: vec![(2, GPUAlloc { contextCnt: 1, slotCnt: 3 })],
        slotSize: 128 * MIB,
    };
    pool.Add(&grant);
    assert_eq!(pool.slotSize, 128 * MIB);
    assert_eq!(pool.map, vec![(2, GPUAlloc { contextCnt: 1, slotCnt: 3 })]);
}

#[test]
fn sub_reduces_granted_budget() {
    let mut pool = pool_two_gpus();
    let grant = GPUResourceMap {
        totalSlotCnt: 14,
        map: vec![(0, GPUAlloc { contextCnt: 1, slotCnt: 8 })],
        slotSize: 256 * MIB,
    };
    pool.Sub(&grant);
    assert_eq!(pool.map[0], (0, GPUAlloc { contextCnt: 1, slotCnt: 2 }));
    assert_eq!(pool.map[1], (1, GPUAlloc { contextCnt: 1, slotCnt: 4 }));
}

#[test]
fn getters_report_the_ledger() {
    let pool = pool_two_gpus();
    assert_eq!(pool.SlotCnt(0), 10);
    assert_eq!(pool.SlotCnt(1), 4);
    assert_eq!(pool.SlotCnt(9), 0);
    assert_eq!(pool.VRam(1), 4 * 256 * MIB);
    assert_eq!(pool.FirstSlotCnt(), 10);
    assert_eq!(pool.FirstVRam(), 10 * 256 * MIB);
    assert_eq!(pool.TotalVRam(), 14 * 256 * MIB);
    assert_eq!(pool.Gpus(), vec![0, 1]);
}

#[test]
fn virt_phy_mappings_follow_id_order() {
    let pool = GPUResourceMap {
        totalSlotCnt: 4,
        map: vec![
            (2, GPUAlloc { contextCnt: 1, slotCnt: 2 }),
            (5, GPUAlloc { contextCnt: 1, slotCnt: 2 }),
        ],
        slotSize: MIB,
    };
    assert_eq!(pool.VirtToPhy(), vec![(0, 2), (1, 5)]);
    assert_eq!(pool.PhyToVirt(), vec![(2, 0), (5, 1)]);
}

#[test]
fn info_snapshot_round_trips() {
    let pool = pool_two_gpus();
    let info = pool.GPUResourceInfo();
    assert_eq!(info.total, 14);
    assert_eq!(info.slotSize, 256 * MIB);
    assert_eq!(info.map, [10, 4, 0, 0, 0, 0, 0, 0]);

    let back = info.GPUResourceMap();
    assert_eq!(back.totalSlotCnt, 14);
    assert_eq!(back.slotSize, 256 * MIB);
    // Every nonzero entry comes back with one context of budget.
    assert_eq!(
        back.map,
        vec![
            (0, GPUAlloc { contextCnt: 1, slotCnt: 10 }),
            (1, GPUAlloc { contextCnt: 1, slotCnt: 4 }),
        ]
    );
}

#[test]
fn node_gpu_resource_collects_ids() {
    let r = inferxlib::resource::NodeGPUResource::New(GPUType::Any(), &[1, 3, 3, 0]);
    assert!(r.gpus.contains(&0));
    assert!(r.gpus.contains(&1));
    assert!(r.gpus.contains(&3));
    assert_eq!(r.gpus.len(), 3);
}

#[test]
fn resources_set_default_fills_zeroes_only() {
    let mut r = Resources { cpu: 0, memory: 0, gpu: GPUResource::default() };
    r.SetDefault();
    assert_eq!(r.cpu, 100);
    assert_eq!(r.memory, 500);

    let mut r2 = Resources { cpu: 2000, memory: 8192, gpu: GPUResource::default() };
    r2.SetDefault();
    assert_eq!(r2.cpu, 2000);
    assert_eq!(r2.memory, 8192);
}

#[test]
fn gpu_type_wildcard_matches_everything() {
    let a100 = GPUType("A100".to_owned());
    let any = GPUType::Any();
    assert!(a100.CanAlloc(&any));
    assert!(a100.CanAlloc(&GPUType("A100".to_owned())));
    assert!(!a100.CanAlloc(&GPUType("H100".to_owned())));
    assert!(any.CanAlloc(&any));
}

#[test]
fn multi_gpu_grant_takes_the_top_qualifying_gpus() {
    let mut pool = GPUResourceMap {
        totalSlotCnt: 21,
        map: vec![
            (0, GPUAlloc { contextCnt: 1, slotCnt: 5 }),
            (1, GPUAlloc { contextCnt: 1, slotCnt: 9 }),
            (2, GPUAlloc { contextCnt: 1, slotCnt: 7 }),
        ],
        slotSize: 256 * MIB,
    };
    // need = 2 slots on each of two GPUs: the two fullest (1 and 2) win.
    let grant = pool.Alloc(&gpu_req(2, 512)).unwrap();
    assert_eq!(
        grant.map,
        vec![
            (1, GPUAlloc { contextCnt: 1, slotCnt: 2 }),
            (2, GPUAlloc { contextCnt: 1, slotCnt: 2 }),
        ]
    );
    assert_eq!(pool.map[0].1.slotCnt, 5);
    assert_eq!(pool.map[1].1, GPUAlloc { contextCnt: 0, slotCnt: 7 });
    assert_eq!(pool.map[2].1, GPUAlloc { contextCnt: 0, slotCnt: 5 });
}

#[test]
fn context_exhausted_gpu_is_skipped_in_favor_of_smaller_one() {
    // The fullest GPU has no context budget left; the grant must fall
    // through to the next best.
    let mut pool = GPUResourceMap {
        totalSlotCnt: 18,
        map: vec![
            (0, GPUAlloc { contextCnt: 0, slotCnt: 10 }),
            (1, GPUAlloc { contextCnt: 1, slotCnt: 8 }),
        ],
        slotSize: 256 * MIB,
    };
    let usage = gpu_req(1, 2048);
    assert!(pool.CanAlloc(&usage));
    let grant = pool.Alloc(&usage).unwrap();
    assert_eq!(grant.map, vec![(1, GPUAlloc { contextCnt: 1, slotCnt: 8 })]);
    assert_eq!(pool.map[0].1, GPUAlloc { contextCnt: 0, slotCnt: 10 });
    assert_eq!(pool.map[1].1, GPUAlloc { contextCnt: 0, slotCnt: 0 });
}
