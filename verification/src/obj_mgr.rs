//! Managers for the persisted object kinds: functions, pods, snapshots,
//! nodes and tenants.

pub mod func_mgr;
pub mod funcsnapshot_mgr;
pub mod node_mgr;
pub mod pod_mgr;
pub mod tenant_mgr;
