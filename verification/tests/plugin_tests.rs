use assume_rolers::command::{builtin_commands, credentials_command_from, CredentialsCommand};
use assume_rolers::credentials::{Credentials, ProfileCredentials};
use assume_rolers::error::Error;
use assume_rolers::plugin::{
    classify_module_outcome, from_wire, to_wire, ModuleOutcome, PluginPayload, WasmHandler,
    WasmModule,
};
use assume_rolers::shell::Shell;
use assume_rolers::timestamp::Timestamp;

fn delivery(token: Option<&str>, expires_at: Option<Timestamp>) -> ProfileCredentials {
    ProfileCredentials {
        profile_name: "dev".to_string(),
        region_name: "us-east-1".to_string(),
        credentials: Credentials {
            key: "AKID".to_string(),
            secret: "sk".to_string(),
            token: token.map(|s| s.to_string()),
            expires_at,
        },
    }
}

#[test]
fn the_wire_text_is_exact() {
    let expiry = Timestamp { year: 2023, month: 1, day: 2, hour: 3, minute: 4, second: 5 };
    let payload = PluginPayload::new(Some(Shell::Bash), delivery(Some("tok"), Some(expiry)));
    assert_eq!(
        to_wire(&payload),
        r#"{"version":"0.1.0","shell":"Bash","credentials":{"profile_name":"dev","region_name":"us-east-1","credentials":{"key":"AKID","secret":"sk","token":"tok","expires_at":"2023-01-02T03:04:05+00:00"}}}"#
    );
}

#[test]
fn absent_options_are_null_on_the_wire() {
    let payload = PluginPayload::new(None, delivery(None, None));
    assert_eq!(
        to_wire(&payload),
        r#"{"version":"0.1.0","shell":null,"credentials":{"profile_name":"dev","region_name":"us-east-1","credentials":{"key":"AKID","secret":"sk","token":null,"expires_at":null}}}"#
    );
}

fn assert_round_trip(payload: &PluginPayload) {
    let back = from_wire(&to_wire(payload)).expect("the wire text must read back");
    assert_eq!(back.version, payload.version);
    assert_eq!(back.shell, payload.shell);
    assert_eq!(back.credentials.profile_name, payload.credentials.profile_name);
    assert_eq!(back.credentials.region_name, payload.credentials.region_name);
    assert_eq!(back.credentials.credentials.key, payload.credentials.credentials.key);
    assert_eq!(back.credentials.credentials.secret, payload.credentials.credentials.secret);
    assert_eq!(back.credentials.credentials.token, payload.credentials.credentials.token);
    assert_eq!(
        back.credentials.credentials.expires_at,
        payload.credentials.credentials.expires_at
    );
}

#[test]
fn the_payload_round_trips_field_for_field() {
    let expiry = Timestamp { year: 2024, month: 2, day: 29, hour: 23, minute: 59, second: 59 };
    assert_round_trip(&PluginPayload::new(
        Some(Shell::Fish),
        delivery(Some("tok/with+chars="), Some(expiry)),
    ));
    assert_round_trip(&PluginPayload::new(None, delivery(None, None)));
    assert_round_trip(&PluginPayload::new(
        Some(Shell::Unknown("nushell".to_string())),
        delivery(Some("t"), Some(expiry)),
    ));
    // Escapes in string fields survive the trip.
    let mut tricky = delivery(None, None);
    tricky.profile_name = "a\"b\\c\nd\te".to_string();
    assert_round_trip(&PluginPayload::new(Some(Shell::Zsh), tricky));
}

#[test]
fn unknown_future_fields_do_not_break_known_ones() {
    let text = r#"{"version":"9.9.9","future":{"deep":[1,true,null,"x"]},"shell":"Zsh","credentials":{"profile_name":"p","region_name":"r","extra":42,"credentials":{"key":"k","secret":"s","token":null,"expires_at":null}}}"#;
    let payload = from_wire(text).expect("unknown fields must be carried past");
    assert_eq!(payload.version, "9.9.9");
    assert_eq!(payload.shell, Some(Shell::Zsh));
    assert_eq!(payload.credentials.profile_name, "p");
    assert_eq!(payload.credentials.credentials.token, None);
}

#[test]
fn a_clean_exit_is_success_even_when_raised_explicitly() {
    assert!(classify_module_outcome("m", &ModuleOutcome::Completed).is_ok());
    assert!(classify_module_outcome("m", &ModuleOutcome::ExplicitExit(0)).is_ok());
}

#[test]
fn a_nonzero_exit_names_the_module() {
    match classify_module_outcome("assume-rolers-plugin-x.wasm", &ModuleOutcome::ExplicitExit(1)) {
        Err(Error::PluginExecutionFailed(name, cause)) => {
            assert_eq!(name, "assume-rolers-plugin-x.wasm");
            assert_eq!(cause, "exit status 1");
        },
        other => panic!("expected PluginExecutionFailed, got {:?}", other),
    }
}

#[test]
fn a_trap_names_the_module_and_keeps_the_cause() {
    match classify_module_outcome("m", &ModuleOutcome::Trap("unreachable".to_string())) {
        Err(Error::PluginExecutionFailed(name, cause)) => {
            assert_eq!(name, "m");
            assert_eq!(cause, "unreachable");
        },
        other => panic!("expected PluginExecutionFailed, got {:?}", other),
    }
}

#[test]
fn module_names_follow_their_source() {
    assert_eq!(
        WasmHandler::from_file("/a/b/exporter.wasm").module.name(),
        "assume-rolers-plugin-exporter.wasm"
    );
    assert_eq!(WasmHandler::from_binary("export", vec![0]).module.name(), "export");
    assert_eq!(WasmModule::File("/".to_string()).name(), "assume-rolers-plugin-unknown");
}

#[test]
fn the_plugin_argument_selects_the_destination() {
    match credentials_command_from(None, vec![]).unwrap() {
        CredentialsCommand::Shell(_) => {},
        other => panic!("expected the shell destination, got {:?}", other),
    }
    match credentials_command_from(Some("/p/x.wasm".to_string()), vec![]).unwrap() {
        CredentialsCommand::WasmPlugin(h) => match h.module {
            WasmModule::File(p) => assert_eq!(p, "/p/x.wasm"),
            other => panic!("expected a file module, got {:?}", other),
        },
        other => panic!("expected the plugin destination, got {:?}", other),
    }
    match credentials_command_from(Some("export".to_string()), vec![1, 2]).unwrap() {
        CredentialsCommand::WasmPlugin(h) => match h.module {
            WasmModule::Binary(n, b) => {
                assert_eq!(n, "export");
                assert_eq!(b, vec![1, 2]);
            },
            other => panic!("expected the embedded module, got {:?}", other),
        },
        other => panic!("expected the plugin destination, got {:?}", other),
    }
    match credentials_command_from(Some("federation".to_string()), vec![]).unwrap() {
        CredentialsCommand::Federation(_) => {},
        other => panic!("expected the federation destination, got {:?}", other),
    }
    match credentials_command_from(Some("mystery".to_string()), vec![]) {
        Err(Error::UnknownPlugin(n)) => assert_eq!(n, "mystery"),
        other => panic!("expected UnknownPlugin, got {:?}", other),
    }
}

#[test]
fn the_builtin_registry_holds_both_plugins() {
    let cmds = builtin_commands(vec![7]);
    assert_eq!(cmds.len(), 2);
    assert_eq!(cmds[0].0, "export");
    assert_eq!(cmds[1].0, "federation");
}
