use std::sync::{Arc, RwLock};
use std::time::{SystemTime, UNIX_EPOCH};
use wami::sts::{build_session_token, issue_session_token, uuid_v4_hex};
use wami::{AmiError, GetSessionTokenRequest, SessionStatus, SessionTokenService};

fn now_seconds() -> i64 {
    SystemTime::now().duration_since(UNIX_EPOCH).unwrap().as_secs() as i64
}

fn request(duration: Option<i32>) -> GetSessionTokenRequest {
    GetSessionTokenRequest { duration_seconds: duration, serial_number: None, token_code: None }
}

fn is_lower_hex(s: &str) -> bool {
    s.chars().all(|c| c.is_ascii_digit() || ('a'..='f').contains(&c))
}

#[test]
fn test_get_session_token() {
    let (response, _) = issue_session_token(
        "123456789012",
        &request(Some(3600)),
        "arn:aws:iam::123456789012:user/alice",
        now_seconds(),
    )
    .unwrap();
    assert!(!response.credentials.access_key_id.is_empty());
    assert!(!response.credentials.session_token.is_empty());
    assert!(response.credentials.expiration > now_seconds());
}

#[test]
fn test_get_session_token_with_mfa() {
    let req = GetSessionTokenRequest {
        duration_seconds: Some(7200),
        serial_number: Some("arn:aws:iam::123456789012:mfa/alice".to_string()),
        token_code: Some("123456".to_string()),
    };
    let (response, _) =
        issue_session_token("123456789012", &req, "arn:aws:iam::123456789012:user/alice", now_seconds())
            .unwrap();
    assert!(response.credentials.expiration > now_seconds());
}

#[test]
fn test_get_session_token_invalid_duration() {
    let result = issue_session_token(
        "123456789012",
        &request(Some(100)),
        "arn:aws:iam::123456789012:user/alice",
        now_seconds(),
    );
    assert!(result.is_err());
}

#[test]
fn test_get_session_token_creates_session() {
    let (response, session) = issue_session_token(
        "123456789012",
        &request(Some(3600)),
        "arn:aws:iam::123456789012:user/bob",
        now_seconds(),
    )
    .unwrap();
    assert_eq!(session.session_token, response.credentials.session_token);
    assert_eq!(session.principal_arn.as_deref(), Some("arn:aws:iam::123456789012:user/bob"));
    assert_eq!(session.status, SessionStatus::Active);
}

#[test]
fn issued_token_has_expected_shape() {
    let now = now_seconds();
    let (response, session) =
        issue_session_token("123456789012", &request(None), "arn:aws:iam::1:user/carol", now)
            .unwrap();
    let c = &response.credentials;
    assert_eq!(c.session_token.len(), 37);
    assert!(c.session_token.starts_with("TOKEN"));
    assert!(is_lower_hex(&c.session_token[5..]));
    assert_eq!(c.access_key_id.len(), 20);
    assert!(c.access_key_id.starts_with("AKIA"));
    assert!(is_lower_hex(&c.access_key_id[4..]));
    assert_eq!(c.secret_access_key.len(), 38);
    assert!(c.secret_access_key.starts_with("SECRET"));
    assert!(is_lower_hex(&c.secret_access_key[6..]));
    assert_eq!(&c.session_token[17..18], "4");
    assert!(["8", "9", "a", "b"].contains(&&c.session_token[21..22]));
    assert_eq!(&c.secret_access_key[18..19], "4");
    assert_eq!(c.arn, format!("arn:aws:sts::123456789012:session/{}", &c.session_token[..16]));
    assert_eq!(c.expiration, now + 3600);
    assert_eq!(session.expiration, c.expiration);
    assert_eq!(session.arn, c.arn);
    assert_eq!(session.access_key_id, c.access_key_id);
    assert_eq!(session.secret_access_key, c.secret_access_key);
    assert_eq!(session.created_at, now);
    assert!(session.last_used.is_none());
}

#[test]
fn requested_duration_sets_expiration() {
    let (response, session) =
        issue_session_token("1", &request(Some(7200)), "p", 1_700_000_000).unwrap();
    assert_eq!(response.credentials.expiration, 1_700_007_200);
    assert_eq!(session.expiration, 1_700_007_200);
    assert_eq!(session.created_at, 1_700_000_000);
}

#[test]
fn issue_rejects_expiration_overflow() {
    let r = issue_session_token("1", &request(None), "p", i64::MAX - 100);
    assert_eq!(
        r.err(),
        Some(AmiError::InternalError { message: "Session expiration is out of range".to_string() })
    );
}

#[test]
fn issue_reports_invalid_duration_first() {
    let r = issue_session_token("1", &request(Some(100)), "p", i64::MAX);
    assert_eq!(
        r.err(),
        Some(AmiError::InvalidParameter {
            message: "DurationSeconds must be between 900 and 129600 seconds".to_string()
        })
    );
}

#[test]
fn duration_limits() {
    let invalid = AmiError::InvalidParameter {
        message: "DurationSeconds must be between 900 and 129600 seconds".to_string(),
    };
    assert_eq!(request(None).validate(), Ok(()));
    assert_eq!(request(Some(900)).validate(), Ok(()));
    assert_eq!(request(Some(129600)).validate(), Ok(()));
    assert_eq!(request(Some(899)).validate(), Err(invalid.clone()));
    assert_eq!(request(Some(129601)).validate(), Err(invalid.clone()));
    assert_eq!(request(Some(-5)).validate(), Err(invalid));
}

#[test]
fn build_session_token_exact_values() {
    let (response, session) = build_session_token(
        "123456789012",
        "arn:aws:iam::123456789012:user/alice",
        3600,
        1_000_000,
        1_000_001,
        "0123456789abcdef0123456789abcdef",
        "fedcba9876543210fedcba9876543210",
        "00112233445566778899aabbccddeeff",
    )
    .unwrap();
    let c = response.credentials;
    assert_eq!(c.session_token, "TOKEN0123456789abcdef0123456789abcdef");
    assert_eq!(c.access_key_id, "AKIAfedcba9876543210");
    assert_eq!(c.secret_access_key, "SECRET00112233445566778899aabbccddeeff");
    assert_eq!(c.expiration, 1_003_600);
    assert_eq!(c.arn, "arn:aws:sts::123456789012:session/TOKEN0123456789a");
    assert!(c.tenant_id.is_none());
    assert_eq!(session.created_at, 1_000_001);
    assert_eq!(session.principal_arn.as_deref(), Some("arn:aws:iam::123456789012:user/alice"));
}

#[test]
fn build_session_token_short_key_is_kept_whole() {
    let (response, _) =
        build_session_token("i", "p", 900, 0, 0, "abcdefghijk", "abc", "").unwrap();
    assert_eq!(response.credentials.access_key_id, "AKIAabc");
    assert_eq!(response.credentials.session_token, "TOKENabcdefghijk");
    assert_eq!(response.credentials.arn, "arn:aws:sts::i:session/TOKENabcdefghijk");
}

#[test]
fn build_session_token_rejects_expiration_overflow() {
    let r = build_session_token("i", "p", 3600, i64::MAX - 10, 0, "abcdefghijk", "k", "s");
    assert_eq!(
        r.err(),
        Some(AmiError::InternalError { message: "Session expiration is out of range".to_string() })
    );
}

#[test]
fn service_keeps_its_store() {
    let store = Arc::new(RwLock::new(Vec::<u32>::new()));
    let service = SessionTokenService::new(store.clone());
    assert!(Arc::ptr_eq(service.store(), &store));
}

#[test]
fn uuid_v4_hex_sets_version_and_variant() {
    let bytes = [
        0x67, 0xe5, 0x50, 0x44, 0x10, 0xb1, 0x42, 0x6f, 0x92, 0x47, 0xbb, 0x68, 0x0e, 0x5f, 0xe0, 0xc8,
    ];
    assert_eq!(uuid_v4_hex(bytes), "67e5504410b1426f9247bb680e5fe0c8");
    assert_eq!(uuid_v4_hex([0u8; 16]), "00000000000040008000000000000000");
    assert_eq!(uuid_v4_hex([0xffu8; 16]), "ffffffffffff4fffbfffffffffffffff");
}

#[test]
fn issued_texts_differ() {
    let (a, _) = issue_session_token("1", &request(None), "p", 0).unwrap();
    let (b, _) = issue_session_token("1", &request(None), "p", 0).unwrap();
    assert_ne!(a.credentials.session_token, b.credentials.session_token);
}
