//! Multi-tenant identity model: hierarchical tenant identifiers, tenant
//! records with quota rules, and the issuing of temporary session tokens.

pub mod error;
pub mod text;
pub mod random;
pub mod tenant_id;
pub mod tenant_laws;
pub mod tenant_model;
pub mod sts;

pub use error::AmiError;
pub use sts::{
    Credentials, GetSessionTokenRequest, GetSessionTokenResponse, SessionStatus, SessionTokenService,
    StsSession,
};
pub use tenant_id::TenantId;
pub use tenant_model::{BillingInfo, QuotaMode, TenantQuotas, TenantStatus, TenantType, TenantUsage};
