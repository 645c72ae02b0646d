//! Tenant records.

use vstd::prelude::*;

verus! {

/// A tenant record: its spec and status.
#[derive(Debug, Default, Clone)]
pub struct TenantObject {
    pub spec: TenantSpec,
    pub status: TenantStatus,
}

/// Operational status of a tenant.
#[derive(Debug, Default, Clone)]
pub struct TenantStatus {
    pub disable: bool,
}

/// The declared shape of a tenant.
#[derive(Debug, Default, Clone)]
pub struct TenantSpec {}

} // verus!
