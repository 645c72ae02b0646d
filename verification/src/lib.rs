//! Capacity bookkeeping and workload lifecycle for a GPU-sharing
//! serverless-inference platform.
//!
//! The crate tracks the physical capacity of compute nodes (CPU, memory and
//! slot-partitioned GPU memory with a per-GPU context budget), answers
//! whether a resource request fits on a node, and carves out exact,
//! reversible grants for it.  On top of that sit the per-workload resource
//! calculus for snapshot / standby / resume transitions, the pod lifecycle
//! states, a worker lease with monotonic idle tokens, and the label /
//! selector machinery used for workload placement filters.

#![allow(non_snake_case)]
#![allow(non_camel_case_types)]

pub mod common;
pub mod data_obj;
pub mod node;
pub mod node_pool;
pub mod obj_mgr;
pub mod resource;
pub mod selector;
pub mod selector_parse;
pub mod slot_pool;
pub mod strutil;
pub mod validation;
