use assume_rolers::profile::{Profile, ProfileSet};

fn profile(name: &str, role_arn: Option<&str>) -> Profile {
    Profile {
        name: name.to_string(),
        source_profile_name: None,
        region_name: None,
        role_arn: role_arn.map(|s| s.to_string()),
        role_session_name: None,
        external_id: None,
        duration_seconds: None,
        scope_down_policy: None,
        mfa_serial: None,
    }
}

#[test]
fn lookup_finds_exact_names_only() {
    let store = ProfileSet::from_profiles(vec![
        profile("dev", Some("arn:aws:iam::1:role/Dev")),
        profile("prod", None),
    ])
    .unwrap();
    assert_eq!(store.get_profile("dev").unwrap().name, "dev");
    assert_eq!(store.get_profile("prod").unwrap().name, "prod");
    assert!(store.get_profile("de").is_none());
    assert!(store.get_profile("devx").is_none());
}

#[test]
fn duplicate_names_are_refused() {
    assert!(ProfileSet::from_profiles(vec![profile("a", None), profile("a", None)]).is_none());
}

#[test]
fn names_come_in_store_order() {
    let store =
        ProfileSet::from_profiles(vec![profile("b", None), profile("a", None)]).unwrap();
    assert_eq!(store.names(), vec!["b".to_string(), "a".to_string()]);
    assert_eq!(store.profiles().len(), 2);
}

#[test]
fn getters_hand_fields_back() {
    let mut p = profile("x", Some("arn"));
    p.region_name = Some("eu-west-1".to_string());
    p.duration_seconds = Some(900);
    p.mfa_serial = Some("arn:aws:iam::1:mfa/x".to_string());
    assert!(p.has_role_arn());
    assert_eq!(p.name(), "x");
    assert_eq!(p.role_arn(), Some("arn"));
    assert_eq!(p.region_name(), Some("eu-west-1"));
    assert_eq!(p.duration_seconds(), Some(900));
    assert_eq!(p.mfa_serial(), Some("arn:aws:iam::1:mfa/x"));
    assert_eq!(p.source_profile_name(), None);
    assert_eq!(p.external_id(), None);
    assert_eq!(p.scope_down_policy(), None);
    assert_eq!(p.role_session_name(), None);
}
