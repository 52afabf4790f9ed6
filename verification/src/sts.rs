//! Temporary session tokens: the request, the issued credentials and
//! session record, and the service that owns the session store.

use vstd::prelude::*;
use std::sync::{Arc, RwLock};
use crate::error::{AmiError, is_internal_error, is_invalid_parameter};
use crate::random::{fill_random_bytes, random_failure_message};
use crate::tenant_id::TenantId;
use crate::text::{
    all_lower_hex, lemma_v4_uuid_hex, remove_char, v4_hyphenated_text, v4_uuid_hex,
};

verus! {

broadcast use vstd::string::group_string_axioms;

#[verifier::external_type_specification]
#[verifier::external_body]
#[verifier::reject_recursive_types(T)]
pub struct ExRwLock<T: ?Sized>(std::sync::RwLock<T>);

#[verifier::external_type_specification]
#[verifier::external_body]
pub struct ExUuid(uuid::Uuid);

/// Calls `uuid::Builder::from_random_bytes`, turns the builder into its
/// `Uuid` with `into_uuid`, and writes that with `Uuid`'s `Display` (through
/// `to_string`). By the crate's source, the builder keeps the bytes but sets
/// the high nibble of byte 6 to the version 4 and the two high bits of byte
/// 8 to the RFC 4122 variant, and `Display` writes the 16 bytes as 32
/// lowercase hexadecimal digits, high nibble first, with hyphens after the
/// 8th, 12th, 16th and 20th digit. None of these calls panics.
#[verifier::external_body]
fn uuid_v4_text(bytes: [u8; 16]) -> (s: String)
    ensures
        s@ == v4_hyphenated_text(bytes@),
{
    uuid::Builder::from_random_bytes(bytes).into_uuid().to_string()
}

/// The 32 hexadecimal digits of the version 4 UUID made from the given 16
/// random bytes: its hyphenated text with the hyphens removed.
pub fn uuid_v4_hex(bytes: [u8; 16]) -> (s: String)
    ensures
        s@ == v4_uuid_hex(bytes@),
        s@.len() == 32,
        all_lower_hex(s@),
{
    let text = uuid_v4_text(bytes);
    proof {
        lemma_v4_uuid_hex(bytes@);
    }
    remove_char(text.as_str(), '-')
}

/// Sixteen bytes from the system's random source; a failure of the source
/// is reported as an internal error. Nothing is stated of the bytes.
fn random_uuid_bytes() -> (r: Result<[u8; 16], AmiError>)
    ensures
        r matches Err(e) ==> is_internal_error(e, random_failure_message()),
{
    let mut bytes: [u8; 16] = [0u8; 16];
    match fill_random_bytes(&mut bytes) {
        Ok(()) => Ok(bytes),
        Err(_) => Err(AmiError::InternalError { message: "Failed to generate random bytes".to_string() }),
    }
}

/// Status of a session.
#[derive(Debug, Clone, Copy, PartialEq, Eq, Structural)]
pub enum SessionStatus {
    /// The session may be used.
    Active,
    /// The session has passed its expiration.
    Expired,
    /// The session was revoked.
    Revoked,
}

/// Duration of a session when the request names none: one hour.
pub const DEFAULT_SESSION_DURATION_SECONDS: i32 = 3600;
/// Shortest session a request may ask for: fifteen minutes.
pub const MIN_SESSION_DURATION_SECONDS: i32 = 900;
/// Longest session a request may ask for: 36 hours.
pub const MAX_SESSION_DURATION_SECONDS: i32 = 129600;

/// A request for a session token for the calling principal.
#[derive(Debug, Clone)]
pub struct GetSessionTokenRequest {
    /// Requested lifetime of the credentials, in seconds.
    pub duration_seconds: Option<i32>,
    /// Serial number of the MFA device, if one is used.
    pub serial_number: Option<String>,
    /// Code from the MFA device, if one is used.
    pub token_code: Option<String>,
}

pub open spec fn duration_in_range(d: i32) -> bool {
    MIN_SESSION_DURATION_SECONDS <= d <= MAX_SESSION_DURATION_SECONDS
}

pub open spec fn invalid_duration_message() -> Seq<char> {
    "DurationSeconds must be between 900 and 129600 seconds"@
}

/// The lifetime a request asks for, the default where it names none.
pub open spec fn requested_duration(request: GetSessionTokenRequest) -> i32 {
    match request.duration_seconds {
        Some(d) => d,
        None => DEFAULT_SESSION_DURATION_SECONDS,
    }
}

/// The request names a lifetime outside the accepted range.
pub open spec fn duration_rejected(request: GetSessionTokenRequest) -> bool {
    request.duration_seconds matches Some(d) && !duration_in_range(d)
}

impl GetSessionTokenRequest {
    /// Accepts a request whose duration, if given, lies between 15 minutes
    /// and 36 hours inclusive.
    pub fn validate(&self) -> (r: Result<(), AmiError>)
        ensures
            r is Ok <==> (self.duration_seconds matches Some(d) ==> duration_in_range(d)),
            r is Ok <==> (self.duration_seconds matches Some(d) ==> 900 <= d && d <= 129600),
            r matches Err(e) ==> (e matches AmiError::InvalidParameter { message }
                && message@ == invalid_duration_message()),
    {
        if let Some(d) = self.duration_seconds {
            if d < MIN_SESSION_DURATION_SECONDS || d > MAX_SESSION_DURATION_SECONDS {
                return Err(AmiError::InvalidParameter {
                    message: "DurationSeconds must be between 900 and 129600 seconds".to_string(),
                });
            }
        }
        Ok(())
    }
}

/// Temporary credentials handed to the caller. Times are seconds since the
/// Unix epoch (UTC).
#[derive(Debug, Clone)]
pub struct Credentials {
    pub access_key_id: String,
    pub secret_access_key: String,
    pub session_token: String,
    pub expiration: i64,
    pub arn: String,
    pub tenant_id: Option<TenantId>,
}

/// The stored record of an issued session. Times are seconds since the
/// Unix epoch (UTC).
#[derive(Debug, Clone)]
pub struct StsSession {
    pub session_token: String,
    pub access_key_id: String,
    pub secret_access_key: String,
    pub expiration: i64,
    pub status: SessionStatus,
    pub assumed_role_arn: Option<String>,
    pub federated_user_name: Option<String>,
    pub principal_arn: Option<String>,
    pub arn: String,
    pub tenant_id: Option<TenantId>,
    pub created_at: i64,
    pub last_used: Option<i64>,
}

/// Response from getting a session token.
#[derive(Debug, Clone)]
pub struct GetSessionTokenResponse {
    pub credentials: Credentials,
}

/// The first `n` characters of a text, or all of it when it is shorter.
pub open spec fn first_chars(s: Seq<char>, n: nat) -> Seq<char> {
    if s.len() <= n {
        s
    } else {
        s.take(n as int)
    }
}

/// The ARN of a session: the instance and the token's first 16 characters.
pub open spec fn session_arn_text(instance_id: Seq<char>, token: Seq<char>) -> Seq<char> {
    "arn:aws:sts::"@ + instance_id + ":session/"@ + token.take(16)
}

pub open spec fn expiration_out_of_range_message() -> Seq<char> {
    "Session expiration is out of range"@
}

/// The response and session record that issuing a token produces from the
/// given instance, principal, lifetime, clock readings and random digits.
pub open spec fn issued_as(
    response: GetSessionTokenResponse,
    session: StsSession,
    instance_id: Seq<char>,
    principal_arn: Seq<char>,
    duration_seconds: i32,
    now: i64,
    created_at: i64,
    token_hex: Seq<char>,
    key_hex: Seq<char>,
    secret_hex: Seq<char>,
) -> bool {
    let c = response.credentials;
    let token = "TOKEN"@ + token_hex;
    &&& c.session_token@ == token
    &&& c.access_key_id@ == "AKIA"@ + first_chars(key_hex, 16)
    &&& c.secret_access_key@ == "SECRET"@ + secret_hex
    &&& c.expiration == now + duration_seconds
    &&& c.arn@ == session_arn_text(instance_id, token)
    &&& c.tenant_id is None
    &&& session.session_token@ == token
    &&& session.access_key_id@ == c.access_key_id@
    &&& session.secret_access_key@ == c.secret_access_key@
    &&& session.expiration == c.expiration
    &&& session.status == SessionStatus::Active
    &&& session.assumed_role_arn is None
    &&& session.federated_user_name is None
    &&& (session.principal_arn matches Some(p) && p@ == principal_arn)
    &&& session.arn@ == c.arn@
    &&& session.tenant_id is None
    &&& session.created_at == created_at
    &&& session.last_used is None
}

/// Builds the credentials and the session record of a new session token.
/// `now` and `created_at` are clock readings, the three hexadecimal texts
/// the random parts of the token, the access key and the secret. Fails only
/// when the expiration does not fit in an `i64`.
pub fn build_session_token(
    instance_id: &str,
    principal_arn: &str,
    duration_seconds: i32,
    now: i64,
    created_at: i64,
    token_hex: &str,
    key_hex: &str,
    secret_hex: &str,
) -> (r: Result<(GetSessionTokenResponse, StsSession), AmiError>)
    requires
        token_hex@.len() >= 11,
    ensures
        r is Err <==> !(i64::MIN <= now + duration_seconds <= i64::MAX),
        r matches Err(e) ==> (e matches AmiError::InternalError { message }
            && message@ == expiration_out_of_range_message()),
        r matches Ok(p) ==> issued_as(
            p.0,
            p.1,
            instance_id@,
            principal_arn@,
            duration_seconds,
            now,
            created_at,
            token_hex@,
            key_hex@,
            secret_hex@,
        ),
{
    let expiration = match now.checked_add(duration_seconds as i64) {
        Some(e) => e,
        None => {
            return Err(AmiError::InternalError {
                message: "Session expiration is out of range".to_string(),
            });
        },
    };
    let mut session_token = "TOKEN".to_string();
    session_token.append(token_hex);
    let mut access_key_id = "AKIA".to_string();
    if key_hex.unicode_len() <= 16 {
        access_key_id.append(key_hex);
    } else {
        access_key_id.append(key_hex.substring_char(0, 16));
    }
    let mut secret_access_key = "SECRET".to_string();
    secret_access_key.append(secret_hex);
    proof {
        reveal_strlit("TOKEN");
    }
    let mut arn = "arn:aws:sts::".to_string();
    arn.append(instance_id);
    arn.append(":session/");
    arn.append(session_token.as_str().substring_char(0, 16));
    let credentials = Credentials {
        access_key_id: access_key_id.clone(),
        secret_access_key: secret_access_key.clone(),
        session_token: session_token.clone(),
        expiration,
        arn: arn.clone(),
        tenant_id: None,
    };
    let session = StsSession {
        session_token,
        access_key_id,
        secret_access_key,
        expiration,
        status: SessionStatus::Active,
        assumed_role_arn: None,
        federated_user_name: None,
        principal_arn: Some(principal_arn.to_string()),
        arn,
        tenant_id: None,
        created_at,
        last_used: None,
    };
    Ok((GetSessionTokenResponse { credentials }, session))
}

/// The expiration `now + duration` fits in an `i64`.
pub open spec fn expiration_fits(now: i64, duration: i32) -> bool {
    i64::MIN <= now + duration <= i64::MAX
}

/// Issues a session token for `principal_arn` on the given instance at the
/// clock reading `now` (seconds since the Unix epoch): checks the request,
/// draws three random UUIDs for the token, the access key and the secret,
/// and builds the credentials and the session record to be stored. The
/// credentials expire at `now` plus the requested lifetime (one hour when
/// the request names none), and the session is created at `now`.
pub fn issue_session_token(
    instance_id: &str,
    request: &GetSessionTokenRequest,
    principal_arn: &str,
    now: i64,
) -> (r: Result<(GetSessionTokenResponse, StsSession), AmiError>)
    ensures
        duration_rejected(*request) ==> (r matches Err(e) && is_invalid_parameter(
            e,
            invalid_duration_message(),
        )),
        !duration_rejected(*request) && !expiration_fits(now, requested_duration(*request)) ==> (
        r matches Err(e) && is_internal_error(e, expiration_out_of_range_message())),
        !duration_rejected(*request) && expiration_fits(now, requested_duration(*request)) ==> (
        r is Ok || (r matches Err(e) && is_internal_error(e, random_failure_message()))),
        r matches Ok(p) ==> p.0.credentials.expiration == now + requested_duration(*request)
            && p.1.created_at == now,
        r matches Ok(p) ==> p.0.credentials.expiration == p.1.expiration && match request.duration_seconds {
            Some(d) => p.0.credentials.expiration == now + d,
            None => p.0.credentials.expiration == now + 3600,
        },
        (request.duration_seconds matches Some(d) && (d < 900 || d > 129600)) ==> r is Err,
        r matches Ok(p) ==> exists|token_bytes: Seq<u8>, key_bytes: Seq<u8>, secret_bytes: Seq<u8>|
            #![trigger issued_as(p.0, p.1, instance_id@, principal_arn@, requested_duration(*request), now, now, v4_uuid_hex(token_bytes), v4_uuid_hex(key_bytes), v4_uuid_hex(secret_bytes))]
            token_bytes.len() == 16 && key_bytes.len() == 16 && secret_bytes.len() == 16
                && issued_as(
                p.0,
                p.1,
                instance_id@,
                principal_arn@,
                requested_duration(*request),
                now,
                now,
                v4_uuid_hex(token_bytes),
                v4_uuid_hex(key_bytes),
                v4_uuid_hex(secret_bytes),
            ),
{
    request.validate()?;
    let duration = match request.duration_seconds {
        Some(d) => d,
        None => DEFAULT_SESSION_DURATION_SECONDS,
    };
    if now.checked_add(duration as i64).is_none() {
        return Err(AmiError::InternalError {
            message: "Session expiration is out of range".to_string(),
        });
    }
    let token_bytes = random_uuid_bytes()?;
    let key_bytes = random_uuid_bytes()?;
    let secret_bytes = random_uuid_bytes()?;
    let token_hex = uuid_v4_hex(token_bytes);
    let key_hex = uuid_v4_hex(key_bytes);
    let secret_hex = uuid_v4_hex(secret_bytes);
    let r = build_session_token(
        instance_id,
        principal_arn,
        duration,
        now,
        now,
        token_hex.as_str(),
        key_hex.as_str(),
        secret_hex.as_str(),
    );
    proof {
        if let Ok(p) = &r {
            assert(issued_as(
                p.0,
                p.1,
                instance_id@,
                principal_arn@,
                requested_duration(*request),
                now,
                now,
                v4_uuid_hex(token_bytes@),
                v4_uuid_hex(key_bytes@),
                v4_uuid_hex(secret_bytes@),
            ));
        }
    }
    r
}

/// A request is accepted exactly when it names no lifetime or one from 900
/// to 129600 seconds inclusive; the lifetime used is the one named, or 3600
/// seconds when none is.
pub proof fn law_accepted_durations(request: GetSessionTokenRequest)
    ensures
        !duration_rejected(request) <==> (request.duration_seconds matches Some(d) ==> 900 <= d
            && d <= 129600),
        request.duration_seconds matches Some(d) ==> requested_duration(request) == d,
        request.duration_seconds is None ==> requested_duration(request) == 3600,
{
}

/// The credentials and the session record built for a request expire at the
/// clock reading plus exactly the lifetime the request names, or plus one
/// hour when it names none.
pub proof fn law_issue_expiration(
    response: GetSessionTokenResponse,
    session: StsSession,
    instance_id: Seq<char>,
    principal_arn: Seq<char>,
    request: GetSessionTokenRequest,
    now: i64,
    created_at: i64,
    token_hex: Seq<char>,
    key_hex: Seq<char>,
    secret_hex: Seq<char>,
)
    requires
        issued_as(
            response,
            session,
            instance_id,
            principal_arn,
            requested_duration(request),
            now,
            created_at,
            token_hex,
            key_hex,
            secret_hex,
        ),
    ensures
        request.duration_seconds matches Some(d) ==> response.credentials.expiration == now + d
            && session.expiration == now + d,
        request.duration_seconds is None ==> response.credentials.expiration == now + 3600
            && session.expiration == now + 3600,
{
}

/// Credentials issued for an accepted request expire strictly after the
/// clock reading they were issued at, and the stored session carries the
/// same token, keys and expiration as the credentials handed out.
pub proof fn law_issued_credentials_outlive_issue(
    response: GetSessionTokenResponse,
    session: StsSession,
    instance_id: Seq<char>,
    principal_arn: Seq<char>,
    request: GetSessionTokenRequest,
    now: i64,
    created_at: i64,
    token_hex: Seq<char>,
    key_hex: Seq<char>,
    secret_hex: Seq<char>,
)
    requires
        !duration_rejected(request),
        issued_as(
            response,
            session,
            instance_id,
            principal_arn,
            requested_duration(request),
            now,
            created_at,
            token_hex,
            key_hex,
            secret_hex,
        ),
    ensures
        response.credentials.expiration >= now + MIN_SESSION_DURATION_SECONDS,
        response.credentials.expiration > now,
        session.expiration == response.credentials.expiration,
        session.session_token@ == response.credentials.session_token@,
        session.access_key_id@ == response.credentials.access_key_id@,
        session.secret_access_key@ == response.credentials.secret_access_key@,
{
}

/// Service for generating session tokens; it owns the shared session store
/// into which issued sessions are written.
#[verifier::reject_recursive_types(S)]
pub struct SessionTokenService<S> {
    store: Arc<RwLock<S>>,
}

impl<S> SessionTokenService<S> {
    /// The store this service writes sessions to.
    pub closed spec fn store_handle(&self) -> Arc<RwLock<S>> {
        self.store
    }

    /// Creates a new service over the given store.
    pub fn new(store: Arc<RwLock<S>>) -> (s: Self)
        ensures
            s.store_handle() == store,
    {
        SessionTokenService { store }
    }

    /// The store this service writes sessions to.
    pub fn store(&self) -> (r: &Arc<RwLock<S>>)
        ensures
            *r == self.store_handle(),
    {
        &self.store
    }
}

} // verus!
