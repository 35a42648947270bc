use assume_rolers::error::Error;
use assume_rolers::profile::{Profile, ProfileSet};
use assume_rolers::select::{
    lex_le_exec, profile_names, resolve_choice, sort_names, SkimProfileSelector,
    StaticProfileSelector,
};

fn profile(name: &str, role_arn: Option<&str>) -> Profile {
    Profile {
        name: name.to_string(),
        source_profile_name: None,
        region_name: None,
        role_arn: role_arn.map(|s| s.to_string()),
        role_session_name: None,
        external_id: None,
        duration_seconds: None,
        scope_down_policy: None,
        mfa_serial: None,
    }
}

fn store() -> ProfileSet {
    ProfileSet::from_profiles(vec![
        profile("zeta", Some("arn:z")),
        profile("alpha", Some("arn:a")),
        profile("nobody", None),
        profile("mid", Some("arn:m")),
    ])
    .unwrap()
}

#[test]
fn static_selection_finds_the_named_profile() {
    let s = StaticProfileSelector { profile_name: "mid".to_string() };
    let ps = store();
    let got = s.select_profile(&ps).unwrap().unwrap();
    assert_eq!(got.name, "mid");
}

#[test]
fn static_selection_of_an_absent_name_fails() {
    let s = StaticProfileSelector { profile_name: "ghost".to_string() };
    let ps = store();
    match s.select_profile(&ps) {
        Err(Error::NotFound(n)) => assert_eq!(n, "ghost"),
        other => panic!("expected NotFound, got {:?}", other),
    }
}

#[test]
fn candidates_are_role_bearing_and_sorted() {
    let ps = store();
    let c = SkimProfileSelector.candidates(&ps);
    assert_eq!(
        c,
        vec!["alpha".to_string(), "mid".to_string(), "zeta".to_string()]
    );
}

#[test]
fn unsorted_role_names_keep_store_order() {
    let ps = store();
    assert_eq!(
        profile_names(&ps),
        vec!["zeta".to_string(), "alpha".to_string(), "mid".to_string()]
    );
}

#[test]
fn no_choice_selects_nothing() {
    let ps = store();
    assert!(resolve_choice(&ps, None).is_none());
    assert!(resolve_choice(&ps, Some("ghost")).is_none());
    assert_eq!(resolve_choice(&ps, Some("alpha")).unwrap().name, "alpha");
}

#[test]
fn lexicographic_order_is_by_code_point() {
    assert!(lex_le_exec("", "a"));
    assert!(lex_le_exec("a", "a"));
    assert!(lex_le_exec("a", "ab"));
    assert!(!lex_le_exec("ab", "a"));
    assert!(lex_le_exec("Z", "a"));
    assert!(!lex_le_exec("b", "ab"));
}

#[test]
fn sorting_keeps_every_name() {
    let mut got = sort_names(vec!["b".to_string(), "a".to_string(), "b".to_string()]);
    assert_eq!(got, vec!["a".to_string(), "b".to_string(), "b".to_string()]);
    got = sort_names(Vec::new());
    assert!(got.is_empty());
}
