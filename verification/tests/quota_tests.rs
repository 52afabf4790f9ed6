use wami::TenantQuotas;

fn quotas(users: usize, roles: usize, policies: usize, groups: usize, subs: usize) -> TenantQuotas {
    TenantQuotas {
        max_users: users,
        max_roles: roles,
        max_policies: policies,
        max_groups: groups,
        max_access_keys: 10,
        max_sub_tenants: subs,
        api_rate_limit: 10,
    }
}

#[test]
fn default_quotas() {
    let q = TenantQuotas::default();
    assert_eq!(q.max_users, 1000);
    assert_eq!(q.max_roles, 500);
    assert_eq!(q.max_policies, 100);
    assert_eq!(q.max_groups, 100);
    assert_eq!(q.max_access_keys, 2000);
    assert_eq!(q.max_sub_tenants, 10);
    assert_eq!(q.api_rate_limit, 1000);
}

#[test]
fn quotas_within_parent_are_accepted() {
    let parent = TenantQuotas::default();
    let mut child = quotas(1000, 500, 100, 100, 10);
    child.max_access_keys = 2000;
    child.api_rate_limit = 1000;
    assert_eq!(child.validate_against_parent(&parent), Ok(()));
    assert_eq!(parent.validate_against_parent(&parent), Ok(()));
    assert_eq!(quotas(0, 0, 0, 0, 0).validate_against_parent(&parent), Ok(()));
}

#[test]
fn each_exceeded_limit_is_reported() {
    let parent = quotas(10, 10, 10, 10, 10);
    assert_eq!(
        quotas(11, 10, 10, 10, 10).validate_against_parent(&parent),
        Err("max_users exceeds parent limit".to_string())
    );
    assert_eq!(
        quotas(10, 11, 10, 10, 10).validate_against_parent(&parent),
        Err("max_roles exceeds parent limit".to_string())
    );
    assert_eq!(
        quotas(10, 10, 11, 10, 10).validate_against_parent(&parent),
        Err("max_policies exceeds parent limit".to_string())
    );
    assert_eq!(
        quotas(10, 10, 10, 11, 10).validate_against_parent(&parent),
        Err("max_groups exceeds parent limit".to_string())
    );
    assert_eq!(
        quotas(10, 10, 10, 10, 11).validate_against_parent(&parent),
        Err("max_sub_tenants exceeds parent limit".to_string())
    );
}

#[test]
fn first_exceeded_limit_wins() {
    let parent = quotas(10, 10, 10, 10, 10);
    assert_eq!(
        quotas(10, 99, 99, 10, 99).validate_against_parent(&parent),
        Err("max_roles exceeds parent limit".to_string())
    );
}

#[test]
fn access_keys_and_rate_limit_are_compared_last() {
    let parent = quotas(10, 10, 10, 10, 10);
    let mut child = quotas(10, 10, 10, 10, 10);
    child.max_access_keys = 11;
    assert_eq!(
        child.validate_against_parent(&parent),
        Err("max_access_keys exceeds parent limit".to_string())
    );
    child.api_rate_limit = 11;
    assert_eq!(
        child.validate_against_parent(&parent),
        Err("max_access_keys exceeds parent limit".to_string())
    );
    child.max_access_keys = 10;
    assert_eq!(
        child.validate_against_parent(&parent),
        Err("api_rate_limit exceeds parent limit".to_string())
    );
    let mut other = quotas(11, 10, 10, 10, 10);
    other.api_rate_limit = 11;
    assert_eq!(
        other.validate_against_parent(&parent),
        Err("max_users exceeds parent limit".to_string())
    );
}

#[test]
fn validation_is_transitive_on_a_chain() {
    let a = quotas(1, 2, 3, 4, 5);
    let b = quotas(2, 3, 4, 5, 6);
    let c = quotas(3, 4, 5, 6, 7);
    assert_eq!(a.validate_against_parent(&b), Ok(()));
    assert_eq!(b.validate_against_parent(&c), Ok(()));
    assert_eq!(a.validate_against_parent(&c), Ok(()));
}
