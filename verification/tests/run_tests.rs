use assume_rolers::assume_role::result_from_provider;
use assume_rolers::command::{credentials_command_from, CredentialsCommand};
use assume_rolers::error::Error;
use assume_rolers::mfa::{mfa_reader_from, MfaReader};
use assume_rolers::profile::{Profile, ProfileSet};
use assume_rolers::run::{
    AssumeRolers, DeliveryAction, MfaOutcome, SelectOutcome,
};
use assume_rolers::select::{selector_from, ProfileSelector};

fn profile(name: &str, role_arn: Option<&str>, region: Option<&str>, mfa: Option<&str>) -> Profile {
    Profile {
        name: name.to_string(),
        source_profile_name: None,
        region_name: region.map(|s| s.to_string()),
        role_arn: role_arn.map(|s| s.to_string()),
        role_session_name: None,
        external_id: None,
        duration_seconds: None,
        scope_down_policy: None,
        mfa_serial: mfa.map(|s| s.to_string()),
    }
}

fn pipeline(profile_arg: Option<&str>, token_arg: Option<&str>, plugin_arg: Option<&str>) -> AssumeRolers {
    AssumeRolers::new(
        selector_from(profile_arg.map(|s| s.to_string())),
        mfa_reader_from(token_arg.map(|s| s.to_string())),
        credentials_command_from(plugin_arg.map(|s| s.to_string()), vec![]).unwrap(),
    )
}

const NOW: i64 = 1672628645;

#[test]
fn the_end_to_end_shell_scenario() {
    // Profile dev: role ARN, no MFA serial, region us-east-1.
    let store = ProfileSet::from_profiles(vec![profile(
        "dev",
        Some("arn:aws:iam::111:role/Dev"),
        Some("us-east-1"),
        None,
    )])
    .unwrap();
    let rolers = pipeline(Some("dev"), None, None);

    // Selection: the explicit name resolves.
    let selected = match rolers.select_profile(&store) {
        SelectOutcome::Selected(p) => p.clone(),
        other => panic!("expected a selected profile, got nothing like it: {:?}", stage_of(&other)),
    };

    // No MFA serial: the challenge reader is never consulted.
    match rolers.read_mfa(&selected) {
        MfaOutcome::NoChallenge => {},
        _ => panic!("a profile without a serial must not prompt"),
    }

    // Assumption: the request resolves region and defaults.
    let req = rolers.prepare_assume_role(&selected, None, NOW).unwrap();
    assert_eq!(req.region_name, "us-east-1");
    let result = result_from_provider(&req, "AKID".to_string(), "sk".to_string(), Some("tok".to_string()));

    // Delivery: the environment diff to apply before the process image is
    // replaced with the configured shell.
    let unit = assume_rolers::credentials::ProfileCredentials {
        profile_name: selected.name.clone(),
        region_name: result.region_name.clone(),
        credentials: result.credentials.clone(),
    };
    let action = rolers.deliver(unit, Some("/bin/bash"), NOW).unwrap();
    let vars = match action {
        DeliveryAction::SetEnvironmentAndExec(vars) => vars,
        _ => panic!("the shell destination must hand back an environment diff"),
    };
    let find = |name: &str| {
        vars.iter()
            .find(|v| v.name == name)
            .unwrap_or_else(|| panic!("missing {}", name))
            .value
            .clone()
    };
    assert_eq!(find("AWS_REGION"), Some("us-east-1".to_string()));
    assert_eq!(find("AWS_ACCESS_KEY_ID"), Some("AKID".to_string()));
    assert_eq!(find("AWS_PROFILE"), None);
    assert_eq!(find("ASSUME_ROLERS_PROFILE"), Some("dev".to_string()));
}

fn stage_of(o: &SelectOutcome) -> &'static str {
    match o {
        SelectOutcome::Selected(_) => "selected",
        SelectOutcome::PresentChoices(_) => "choices",
        SelectOutcome::SelectFailed(_) => "failed",
    }
}

#[test]
fn an_absent_explicit_name_halts_selection() {
    let store = ProfileSet::from_profiles(vec![]).unwrap();
    let rolers = pipeline(Some("ghost"), None, None);
    match rolers.select_profile(&store) {
        SelectOutcome::SelectFailed(Error::NotFound(n)) => assert_eq!(n, "ghost"),
        other => panic!("expected a selection failure, got {:?}", stage_of(&other)),
    }
}

#[test]
fn an_interactive_run_presents_sorted_candidates_and_honors_a_cancel() {
    let store = ProfileSet::from_profiles(vec![
        profile("z", Some("arn"), None, None),
        profile("a", Some("arn"), None, None),
        profile("no-role", None, None, None),
    ])
    .unwrap();
    let rolers = pipeline(None, None, None);
    let names = match rolers.select_profile(&store) {
        SelectOutcome::PresentChoices(names) => names,
        other => panic!("expected candidates, got {:?}", stage_of(&other)),
    };
    assert_eq!(names, vec!["a".to_string(), "z".to_string()]);
    // The user cancels: a normal "nothing selected" outcome.
    assert!(rolers.resolve_choice(&store, None).is_none());
    assert_eq!(rolers.resolve_choice(&store, Some("z")).unwrap().name, "z");
}

#[test]
fn a_serial_with_a_presupplied_code_is_answered_without_a_prompt() {
    let p = profile("dev", Some("arn"), None, Some("arn:aws:iam::111:mfa/dev"));
    let rolers = pipeline(Some("dev"), Some("  123456 "), None);
    match rolers.read_mfa(&p) {
        MfaOutcome::Code(code) => assert_eq!(code, "  123456 "),
        _ => panic!("a static reader answers unconditionally"),
    }
}

#[test]
fn a_serial_without_a_code_prompts_once_and_the_line_is_trimmed() {
    let p = profile("dev", Some("arn"), None, Some("serial-1"));
    let rolers = pipeline(Some("dev"), None, None);
    match rolers.read_mfa(&p) {
        MfaOutcome::Prompt(prompt, serial) => {
            assert_eq!(prompt, "Enter MFA code for serial-1: ");
            assert_eq!(serial, "serial-1");
        },
        _ => panic!("an interactive reader must prompt"),
    }
    assert_eq!(rolers.code_from_line(" 654321\n"), "654321");
}

#[test]
fn the_plugin_destination_feeds_the_sandbox_and_nothing_else() {
    let rolers = pipeline(Some("dev"), None, Some("/plugins/emit.wasm"));
    let unit = assume_rolers::credentials::ProfileCredentials {
        profile_name: "dev".to_string(),
        region_name: "us-east-1".to_string(),
        credentials: assume_rolers::credentials::Credentials {
            key: "AKID".to_string(),
            secret: "sk".to_string(),
            token: None,
            expires_at: None,
        },
    };
    let action = rolers.deliver(unit, Some("/bin/zsh"), NOW).unwrap();
    match action {
        DeliveryAction::RunPlugin(name, input) => {
            assert_eq!(name, "assume-rolers-plugin-emit.wasm");
            assert!(input.contains("\"shell\":\"Zsh\""));
            assert!(input.contains("\"profile_name\":\"dev\""));
        },
        _ => panic!("the plugin destination must hand back a sandbox run"),
    }
}

#[test]
fn the_plugin_destination_needs_a_shell_for_its_hint() {
    let rolers = pipeline(Some("dev"), None, Some("/plugins/emit.wasm"));
    let unit = assume_rolers::credentials::ProfileCredentials {
        profile_name: "dev".to_string(),
        region_name: "us-east-1".to_string(),
        credentials: assume_rolers::credentials::Credentials {
            key: "AKID".to_string(),
            secret: "sk".to_string(),
            token: None,
            expires_at: None,
        },
    };
    match rolers.deliver(unit, None, NOW) {
        Err(Error::IoFailure(_)) => {},
        _ => panic!("without a shell path there is no hint to derive"),
    }
}

#[test]
fn selector_and_reader_follow_the_command_line() {
    match selector_from(Some("dev".to_string())) {
        ProfileSelector::Static(s) => assert_eq!(s.profile_name, "dev"),
        _ => panic!("an explicit name makes a static selector"),
    }
    match selector_from(None) {
        ProfileSelector::Skim(_) => {},
        _ => panic!("no name means interactive selection"),
    }
    match mfa_reader_from(Some("1".to_string())) {
        MfaReader::Static(s) => assert_eq!(s.token, "1"),
        _ => panic!("a pre-supplied token makes a static reader"),
    }
    match mfa_reader_from(None) {
        MfaReader::Stdin(_) => {},
        _ => panic!("no token means an interactive reader"),
    }
    match pipeline(None, None, None).command {
        CredentialsCommand::Shell(_) => {},
        _ => panic!("no plugin argument means the shell destination"),
    }
}
