use wami::tenant_id::TenantId;
use wami::AmiError;

fn invalid(message: &str) -> AmiError {
    AmiError::InvalidParameter { message: message.to_string() }
}

#[test]
fn root_has_depth_zero() {
    let root = TenantId::root().unwrap();
    assert_eq!(root.depth(), 0);
    assert_eq!(root.segments().len(), 1);
}

#[test]
fn child_has_depth_one() {
    let parent = TenantId::root().unwrap();
    let child = parent.child().unwrap();
    assert_eq!(child.depth(), 1);
    assert_eq!(&child.segments()[..1], parent.segments());
}

#[test]
fn grandchild_has_three_ancestors() {
    let root = TenantId::root().unwrap();
    let child = root.child().unwrap();
    let grandchild = child.child().unwrap();
    let ancestors = grandchild.ancestors();
    assert_eq!(ancestors.len(), 3);
    assert_eq!(ancestors[0], root);
    assert_eq!(ancestors[1], child);
    assert_eq!(ancestors[2], grandchild);
}

#[test]
fn fixed_segments_build_the_expected_ids() {
    let root = TenantId::root_with_segment(12345678);
    let child = root.child_with_segment(87654321);
    assert_eq!(root.segments(), &[12345678u64][..]);
    assert_eq!(child.segments(), &[12345678u64, 87654321][..]);
    assert_eq!(child.as_str(), "12345678/87654321");
}

#[test]
fn parent_of_root_is_none() {
    let root = TenantId::root_with_segment(1);
    assert_eq!(root.parent(), None);
}

#[test]
fn parent_of_child_is_where_it_came_from() {
    let root = TenantId::root_with_segment(5);
    let child = root.child_with_segment(6);
    let grandchild = child.child_with_segment(7);
    assert_eq!(child.parent(), Some(root.clone()));
    assert_eq!(grandchild.parent(), Some(child));
}

#[test]
fn descendant_and_ancestor_relations() {
    let root = TenantId::root_with_segment(1);
    let child = root.child_with_segment(2);
    let grandchild = child.child_with_segment(3);
    let other = TenantId::root_with_segment(9).child_with_segment(2);
    assert!(child.is_descendant_of(&root));
    assert!(grandchild.is_descendant_of(&root));
    assert!(grandchild.is_descendant_of(&child));
    assert!(!root.is_descendant_of(&child));
    assert!(!root.is_descendant_of(&root));
    assert!(!other.is_descendant_of(&root));
    assert!(root.is_ancestor_of(&grandchild));
    assert!(!grandchild.is_ancestor_of(&root));
    assert!(!child.is_ancestor_of(&child));
}

#[test]
fn as_str_joins_segments_with_slashes() {
    let id = TenantId::root_with_segment(0)
        .child_with_segment(42)
        .child_with_segment(u64::MAX);
    assert_eq!(id.as_str(), "0/42/18446744073709551615");
}

#[test]
fn from_string_parses_segments() {
    let id = TenantId::from_string("12345678/87654321").unwrap();
    assert_eq!(id.segments(), &[12345678u64, 87654321][..]);
    assert_eq!(id.depth(), 1);
}

#[test]
fn from_string_round_trips_as_str() {
    let id = TenantId::root().unwrap().child().unwrap().child().unwrap();
    let back = TenantId::from_string(&id.as_str()).unwrap();
    assert_eq!(back, id);
}

#[test]
fn from_string_accepts_plus_sign_and_leading_zeros() {
    let id = TenantId::from_string("+7/007").unwrap();
    assert_eq!(id.segments(), &[7u64, 7][..]);
    assert_eq!(id.as_str(), "7/7");
}

#[test]
fn from_string_accepts_largest_segment() {
    let id = TenantId::from_string("18446744073709551615").unwrap();
    assert_eq!(id.segments(), &[u64::MAX][..]);
}

#[test]
fn from_string_rejects_empty_text() {
    assert_eq!(TenantId::from_string(""), Err(invalid("Tenant ID cannot be empty")));
}

#[test]
fn from_string_rejects_non_numeric_segment() {
    assert_eq!(
        TenantId::from_string("12/abc/34"),
        Err(invalid("Invalid tenant ID segment: 'abc' (must be a u64)"))
    );
}

#[test]
fn from_string_reports_first_bad_segment() {
    assert_eq!(
        TenantId::from_string("x/1/y"),
        Err(invalid("Invalid tenant ID segment: 'x' (must be a u64)"))
    );
}

#[test]
fn from_string_rejects_empty_segments() {
    assert_eq!(
        TenantId::from_string("1//2"),
        Err(invalid("Invalid tenant ID segment: '' (must be a u64)"))
    );
    assert_eq!(
        TenantId::from_string("1/"),
        Err(invalid("Invalid tenant ID segment: '' (must be a u64)"))
    );
    assert_eq!(
        TenantId::from_string("/"),
        Err(invalid("Invalid tenant ID segment: '' (must be a u64)"))
    );
}

#[test]
fn from_string_rejects_overflow_and_signs() {
    assert_eq!(
        TenantId::from_string("18446744073709551616"),
        Err(invalid("Invalid tenant ID segment: '18446744073709551616' (must be a u64)"))
    );
    assert_eq!(
        TenantId::from_string("-1"),
        Err(invalid("Invalid tenant ID segment: '-1' (must be a u64)"))
    );
    assert_eq!(
        TenantId::from_string("+"),
        Err(invalid("Invalid tenant ID segment: '+' (must be a u64)"))
    );
    assert_eq!(
        TenantId::from_string("1.5"),
        Err(invalid("Invalid tenant ID segment: '1.5' (must be a u64)"))
    );
}

#[test]
fn from_string_keeps_non_ascii_segment_text() {
    assert_eq!(
        TenantId::from_string("1/é2"),
        Err(invalid("Invalid tenant ID segment: 'é2' (must be a u64)"))
    );
}

#[test]
fn random_segments_differ() {
    let a = wami::random::generate_secure_u64().unwrap();
    let b = wami::random::generate_secure_u64().unwrap();
    let c = wami::random::generate_secure_u64().unwrap();
    assert!(a != b || b != c);
}
