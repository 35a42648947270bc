//! Role assumption: exchanging a profile plus an optional one-time code for
//! temporary credentials and a resolved region. The provider's
//! challenge/response round trip happens outside the library; here the
//! request is built — and that construction is where every defaulting rule
//! lives: a profile without a role ARN is refused outright, the one-time
//! code is included exactly when the profile declares an MFA serial, the
//! duration falls back to 3600 seconds, the region to a fixed default, and
//! the expiry is pinned to "now + duration" at construction time.

use vstd::prelude::*;
use vstd::string::StringExecFns;

use crate::credentials::Credentials;
use crate::error::Error;
use crate::profile::{opt_chars, Profile};
use crate::timestamp::{max_epoch_secs, min_epoch_secs, Timestamp};

verus! {

/// The session duration used when a profile configures none.
pub const DEFAULT_DURATION_SECONDS: u32 = 3600;

/// What a successful role assumption hands to delivery.
#[derive(Debug, Clone)]
pub struct AssumeRoleResult {
    pub credentials: Credentials,
    pub region_name: String,
}

/// One fully resolved role-assumption request, ready for the provider.
#[derive(Debug, Clone)]
pub struct AssumeRoleRequest {
    pub role_arn: String,
    pub role_session_name: String,
    pub duration_seconds: u32,
    pub external_id: Option<String>,
    pub scope_down_policy: Option<String>,
    pub mfa_serial: Option<String>,
    pub token_code: Option<String>,
    pub region_name: String,
    pub source_profile_name: Option<String>,
    /// The credential expiry: now + duration, fixed when the request is
    /// built, not when the response arrives, to bound clock skew
    /// conservatively.
    pub expires_at: Timestamp,
}

/// Relies on chrono's `Utc::now` and `DateTime::timestamp`: the current
/// wall-clock UTC time, as whole seconds since the Unix epoch. The value
/// depends on the system clock, so nothing is promised of it; callers must
/// cope with any reading. (chrono aborts the process if the clock reads
/// before the epoch.)
#[verifier::external_body]
pub fn now_epoch_secs() -> i64 {
    chrono::Utc::now().timestamp()
}

/// The duration the request will carry for `p`.
pub open spec fn resolved_duration(p: Profile) -> int {
    match p.duration_seconds {
        Some(d) => d as int,
        None => DEFAULT_DURATION_SECONDS as int,
    }
}

/// The region the request will carry for `p`: the profile's, or the fixed
/// fallback.
pub open spec fn resolved_region(p: Profile) -> Seq<char> {
    match p.region_name {
        Some(r) => r@,
        None => "us-east-1"@,
    }
}

/// The session name the request will carry for `p`: the profile's, or the
/// fixed default.
pub open spec fn resolved_session_name(p: Profile) -> Seq<char> {
    match p.role_session_name {
        Some(r) => r@,
        None => "assume-rolers-cli"@,
    }
}

/// Whether the profile requires a multi-factor challenge before role
/// assumption.
pub open spec fn needs_mfa(p: Profile) -> bool {
    p.mfa_serial is Some
}

/// The request `build_request` owes for `p`, a code, and a clock reading.
pub open spec fn request_matches(
    req: AssumeRoleRequest,
    p: Profile,
    token_code: Option<String>,
    now_epoch: int,
) -> bool {
    &&& p.role_arn matches Some(arn) && req.role_arn@ == arn@
    &&& req.role_session_name@ == resolved_session_name(p)
    &&& req.duration_seconds as int == resolved_duration(p)
    &&& opt_chars(req.external_id) == opt_chars(p.external_id)
    &&& opt_chars(req.scope_down_policy) == opt_chars(p.scope_down_policy)
    &&& opt_chars(req.mfa_serial) == opt_chars(p.mfa_serial)
    &&& opt_chars(req.token_code) == opt_chars(token_code)
    &&& (req.token_code is Some <==> needs_mfa(p))
    &&& req.region_name@ == resolved_region(p)
    &&& opt_chars(req.source_profile_name) == opt_chars(p.source_profile_name)
    &&& req.expires_at.valid()
    &&& req.expires_at.epoch_secs_spec() == now_epoch + resolved_duration(p)
}

/// Builds the provider request. A profile without a role ARN is refused
/// without any provider contact; the one-time code must have been obtained
/// exactly when the profile declares an MFA serial, and is included exactly
/// then.
pub fn build_request(profile: &Profile, token_code: Option<String>, now_epoch: i64) -> (r: Result<
    AssumeRoleRequest,
    Error,
>)
    requires
        token_code is Some <==> needs_mfa(*profile),
    ensures
        match r {
            Ok(req) => request_matches(req, *profile, token_code, now_epoch as int)
                && min_epoch_secs() <= now_epoch + resolved_duration(*profile)
                <= max_epoch_secs(),
            Err(e) => match e {
                Error::MissingRoleArn(n) => profile.role_arn is None && n@ == profile.name@,
                Error::IoFailure(_) => profile.role_arn is Some && !(min_epoch_secs() <= now_epoch
                    + resolved_duration(*profile) <= max_epoch_secs()),
                _ => false,
            },
        },
{
    let role_arn: String = match &profile.role_arn {
        Some(arn) => arn.clone(),
        None => {
            return Err(Error::MissingRoleArn(profile.name.clone()));
        },
    };
    let duration: u32 = match profile.duration_seconds {
        Some(d) => d,
        None => DEFAULT_DURATION_SECONDS,
    };
    let expiry_epoch: i64 = if now_epoch <= i64::MAX - duration as i64 {
        now_epoch + duration as i64
    } else {
        proof {
            crate::timestamp::lemma_epoch_range_bounds();
        }
        return Err(Error::IoFailure(String::from_str("credential expiry out of range")));
    };
    let expires_at: Timestamp = match Timestamp::from_epoch_secs(expiry_epoch) {
        Some(ts) => ts,
        None => {
            return Err(Error::IoFailure(String::from_str("credential expiry out of range")));
        },
    };
    let session_name: String = match &profile.role_session_name {
        Some(s) => s.clone(),
        None => String::from_str("assume-rolers-cli"),
    };
    let region_name: String = match &profile.region_name {
        Some(s) => s.clone(),
        None => String::from_str("us-east-1"),
    };
    proof {
        crate::timestamp::lemma_valid_epoch_in_range(expires_at);
    }
    Ok(AssumeRoleRequest {
        role_arn,
        role_session_name: session_name,
        duration_seconds: duration,
        external_id: clone_opt(&profile.external_id),
        scope_down_policy: clone_opt(&profile.scope_down_policy),
        mfa_serial: clone_opt(&profile.mfa_serial),
        token_code,
        region_name,
        source_profile_name: clone_opt(&profile.source_profile_name),
        expires_at,
    })
}

/// A copy of an optional string, value for value.
pub fn clone_opt(o: &Option<String>) -> (r: Option<String>)
    ensures
        opt_chars(r) == opt_chars(*o),
        r is Some <==> o is Some,
{
    match o {
        Some(s) => Some(s.clone()),
        None => None,
    }
}

/// Shapes the provider's successful response: the returned key material,
/// with the expiry the request fixed at construction and the region the
/// request resolved.
pub fn result_from_provider(req: &AssumeRoleRequest, key: String, secret: String, token: Option<
    String,
>) -> (r: AssumeRoleResult)
    ensures
        r.credentials.key@ == key@,
        r.credentials.secret@ == secret@,
        opt_chars(r.credentials.token) == opt_chars(token),
        r.credentials.expires_at == Some(req.expires_at),
        r.region_name@ == req.region_name@,
{
    AssumeRoleResult {
        credentials: Credentials {
            key,
            secret,
            token,
            expires_at: Some(req.expires_at),
        },
        region_name: req.region_name.clone(),
    }
}

/// Tags a provider rejection, surfacing its message unchanged. Nothing is
/// retried: the failure halts the pipeline.
pub fn provider_failure(cause: String) -> (r: Error)
    ensures
        r matches Error::AssumeRoleFailed(c) && c@ == cause@,
{
    Error::AssumeRoleFailed(cause)
}

} // verus!
