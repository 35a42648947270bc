use assume_rolers::assume_role::{build_request, result_from_provider, provider_failure};
use assume_rolers::error::Error;
use assume_rolers::profile::Profile;
use assume_rolers::timestamp::Timestamp;

fn profile(name: &str, role_arn: Option<&str>) -> Profile {
    Profile {
        name: name.to_string(),
        source_profile_name: None,
        region_name: None,
        role_arn: role_arn.map(|s| s.to_string()),
        role_session_name: None,
        external_id: None,
        duration_seconds: None,
        scope_down_policy: None,
        mfa_serial: None,
    }
}

// 2023-01-02T03:04:05Z
const NOW: i64 = 1672628645;

#[test]
fn a_profile_without_a_role_arn_is_refused_outright() {
    let p = profile("plain", None);
    match build_request(&p, None, NOW) {
        Err(Error::MissingRoleArn(n)) => assert_eq!(n, "plain"),
        other => panic!("expected MissingRoleArn, got {:?}", other),
    }
}

#[test]
fn defaults_fill_the_request() {
    let p = profile("dev", Some("arn:aws:iam::111:role/Dev"));
    let req = build_request(&p, None, NOW).unwrap();
    assert_eq!(req.role_arn, "arn:aws:iam::111:role/Dev");
    assert_eq!(req.role_session_name, "assume-rolers-cli");
    assert_eq!(req.duration_seconds, 3600);
    assert_eq!(req.region_name, "us-east-1");
    assert_eq!(req.token_code, None);
    assert_eq!(req.mfa_serial, None);
    // Expiry is "now + duration" at request construction.
    assert_eq!(req.expires_at, Timestamp::from_epoch_secs(NOW + 3600).unwrap());
}

#[test]
fn configured_values_win_over_defaults() {
    let mut p = profile("dev", Some("arn"));
    p.role_session_name = Some("sess".to_string());
    p.duration_seconds = Some(900);
    p.region_name = Some("eu-central-1".to_string());
    p.external_id = Some("ext".to_string());
    p.source_profile_name = Some("base".to_string());
    p.scope_down_policy = Some("{}".to_string());
    let req = build_request(&p, None, NOW).unwrap();
    assert_eq!(req.role_session_name, "sess");
    assert_eq!(req.duration_seconds, 900);
    assert_eq!(req.region_name, "eu-central-1");
    assert_eq!(req.external_id, Some("ext".to_string()));
    assert_eq!(req.source_profile_name, Some("base".to_string()));
    assert_eq!(req.scope_down_policy, Some("{}".to_string()));
    assert_eq!(req.expires_at, Timestamp::from_epoch_secs(NOW + 900).unwrap());
}

#[test]
fn the_code_rides_along_exactly_when_a_serial_is_declared() {
    let mut p = profile("dev", Some("arn"));
    p.mfa_serial = Some("arn:aws:iam::111:mfa/dev".to_string());
    let req = build_request(&p, Some("123456".to_string()), NOW).unwrap();
    assert_eq!(req.mfa_serial, Some("arn:aws:iam::111:mfa/dev".to_string()));
    assert_eq!(req.token_code, Some("123456".to_string()));
}

#[test]
fn provider_results_keep_the_pinned_expiry_and_region() {
    let p = profile("dev", Some("arn"));
    let req = build_request(&p, None, NOW).unwrap();
    let r = result_from_provider(
        &req,
        "AKID".to_string(),
        "sk".to_string(),
        Some("tok".to_string()),
    );
    assert_eq!(r.credentials.key, "AKID");
    assert_eq!(r.credentials.token, Some("tok".to_string()));
    assert_eq!(r.credentials.expires_at, Some(req.expires_at));
    assert_eq!(r.region_name, "us-east-1");
}

#[test]
fn an_expiry_past_the_models_range_is_refused() {
    let p = profile("dev", Some("arn"));
    match build_request(&p, None, i64::MAX - 100) {
        Err(Error::IoFailure(_)) => {},
        other => panic!("expected IoFailure, got {:?}", other),
    }
}

#[test]
fn provider_rejections_are_tagged_unchanged() {
    match provider_failure("access denied".to_string()) {
        Error::AssumeRoleFailed(c) => assert_eq!(c, "access denied"),
        other => panic!("expected AssumeRoleFailed, got {:?}", other),
    }
}
