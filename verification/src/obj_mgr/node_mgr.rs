//! The node record a node agent registers with the control plane.

use vstd::prelude::*;

use crate::node_pool::NodeResources;

verus! {

/// A node's registration: its addresses, service ports, and the capacity
/// discovered on it, plus whether a blob store is reachable from it.
#[derive(Debug, Clone, Default)]
pub struct NodeSpec {
    pub nodeIp: String,
    pub podMgrPort: u16,
    pub tsotSvcPort: u16,
    pub stateSvcPort: u16,
    pub cidr: String,
    pub resources: NodeResources,
    pub blobStoreEnable: bool,
}

} // verus!
