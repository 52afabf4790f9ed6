//! Tenant records, their classification, status and resource quotas.

use vstd::prelude::*;
use crate::tenant_id::TenantId;

verus! {

/// Tenant type classification.
#[derive(Debug, Clone, PartialEq, Eq)]
pub enum TenantType {
    /// Platform root tenant.
    Root,
    /// Enterprise customer.
    Enterprise,
    /// Department within an enterprise.
    Department,
    /// Team within a department.
    Team,
    /// Project or workspace.
    Project,
    /// Custom type.
    Custom(String),
}

/// Tenant status.
#[derive(Debug, Clone, Copy, PartialEq, Eq, Structural)]
pub enum TenantStatus {
    /// Active and operational.
    Active,
    /// Suspended (read-only).
    Suspended,
    /// Pending activation.
    Pending,
    /// Marked for deletion.
    Deleted,
}

/// Quota inheritance mode.
#[derive(Debug, Clone, Copy, PartialEq, Eq, Structural)]
pub enum QuotaMode {
    /// Inherit from the parent.
    Inherited,
    /// Override with custom quotas.
    Override,
}

/// Resource quotas for a tenant.
#[derive(Debug, Clone)]
pub struct TenantQuotas {
    /// Maximum IAM users.
    pub max_users: usize,
    /// Maximum roles.
    pub max_roles: usize,
    /// Maximum policies.
    pub max_policies: usize,
    /// Maximum groups.
    pub max_groups: usize,
    /// Maximum access keys.
    pub max_access_keys: usize,
    /// Maximum sub-tenants.
    pub max_sub_tenants: usize,
    /// API rate limit (requests per minute).
    pub api_rate_limit: usize,
}

/// The first limit, in the order users, roles, policies, groups,
/// sub-tenants, access keys and API rate limit, on which `child` exceeds
/// `parent`, as the message that reports it; `None` when none does.
pub open spec fn quota_violation(child: TenantQuotas, parent: TenantQuotas) -> Option<Seq<char>> {
    if child.max_users > parent.max_users {
        Some("max_users exceeds parent limit"@)
    } else if child.max_roles > parent.max_roles {
        Some("max_roles exceeds parent limit"@)
    } else if child.max_policies > parent.max_policies {
        Some("max_policies exceeds parent limit"@)
    } else if child.max_groups > parent.max_groups {
        Some("max_groups exceeds parent limit"@)
    } else if child.max_sub_tenants > parent.max_sub_tenants {
        Some("max_sub_tenants exceeds parent limit"@)
    } else if child.max_access_keys > parent.max_access_keys {
        Some("max_access_keys exceeds parent limit"@)
    } else if child.api_rate_limit > parent.api_rate_limit {
        Some("api_rate_limit exceeds parent limit"@)
    } else {
        None
    }
}

/// Every limit of `child` is at most the same limit of `parent`.
pub open spec fn quotas_within(child: TenantQuotas, parent: TenantQuotas) -> bool {
    &&& child.max_users <= parent.max_users
    &&& child.max_roles <= parent.max_roles
    &&& child.max_policies <= parent.max_policies
    &&& child.max_groups <= parent.max_groups
    &&& child.max_sub_tenants <= parent.max_sub_tenants
    &&& child.max_access_keys <= parent.max_access_keys
    &&& child.api_rate_limit <= parent.api_rate_limit
}

impl TenantQuotas {
    /// Validates that child quotas don't exceed parent quotas.
    pub fn validate_against_parent(&self, parent: &TenantQuotas) -> (r: Result<(), String>)
        ensures
            match quota_violation(*self, *parent) {
                None => r is Ok,
                Some(m) => r matches Err(e) && e@ == m,
            },
    {
        if self.max_users > parent.max_users {
            return Err("max_users exceeds parent limit".to_string());
        }
        if self.max_roles > parent.max_roles {
            return Err("max_roles exceeds parent limit".to_string());
        }
        if self.max_policies > parent.max_policies {
            return Err("max_policies exceeds parent limit".to_string());
        }
        if self.max_groups > parent.max_groups {
            return Err("max_groups exceeds parent limit".to_string());
        }
        if self.max_sub_tenants > parent.max_sub_tenants {
            return Err("max_sub_tenants exceeds parent limit".to_string());
        }
        if self.max_access_keys > parent.max_access_keys {
            return Err("max_access_keys exceeds parent limit".to_string());
        }
        if self.api_rate_limit > parent.api_rate_limit {
            return Err("api_rate_limit exceeds parent limit".to_string());
        }
        Ok(())
    }
}

impl Default for TenantQuotas {
    fn default() -> (q: Self)
        ensures
            q.max_users == 1000,
            q.max_roles == 500,
            q.max_policies == 100,
            q.max_groups == 100,
            q.max_access_keys == 2000,
            q.max_sub_tenants == 10,
            q.api_rate_limit == 1000,
    {
        TenantQuotas {
            max_users: 1000,
            max_roles: 500,
            max_policies: 100,
            max_groups: 100,
            max_access_keys: 2000,
            max_sub_tenants: 10,
            api_rate_limit: 1000,
        }
    }
}

/// Validation accepts exactly the quotas whose limits are all within
/// the parent's; it is reflexive and transitive, so a chain of tenants
/// each within its parent stays within every ancestor.
pub proof fn law_quota_validation(a: TenantQuotas, b: TenantQuotas, c: TenantQuotas)
    ensures
        quota_violation(a, b) is None <==> quotas_within(a, b),
        quota_violation(a, a) is None,
        quota_violation(a, b) is None && quota_violation(b, c) is None ==> quota_violation(a, c) is None,
{
}

/// Billing information for a tenant.
#[derive(Debug, Clone)]
pub struct BillingInfo {
    /// Cost center or billing account.
    pub cost_center: String,
    /// Whether this tenant is billable.
    pub billable: bool,
    /// Billing contact email.
    pub contact_email: String,
}

/// Current resource usage for a tenant.
#[derive(Debug, Clone)]
pub struct TenantUsage {
    /// Tenant ID.
    pub tenant_id: TenantId,
    /// Current user count.
    pub current_users: usize,
    /// Current role count.
    pub current_roles: usize,
    /// Current policy count.
    pub current_policies: usize,
    /// Current group count.
    pub current_groups: usize,
    /// Current sub-tenant count.
    pub current_sub_tenants: usize,
    /// Whether descendants are included in the counts.
    pub include_descendants: bool,
}

} // verus!
