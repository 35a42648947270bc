use assume_rolers::credentials::{Credentials, ProfileCredentials};
use assume_rolers::handler::{into_variables, ShellCommand, ShellHandler};
use assume_rolers::timestamp::Timestamp;

fn delivery(token: Option<&str>, expires_at: Option<Timestamp>) -> ProfileCredentials {
    ProfileCredentials {
        profile_name: "dev".to_string(),
        region_name: "us-east-1".to_string(),
        credentials: Credentials {
            key: "AKID".to_string(),
            secret: "sk".to_string(),
            token: token.map(|s| s.to_string()),
            expires_at,
        },
    }
}

fn names(vars: &[assume_rolers::handler::Variable]) -> Vec<&str> {
    vars.iter().map(|v| v.name.as_str()).collect()
}

#[test]
fn the_environment_contract_is_complete_and_ordered() {
    let expiry = Timestamp { year: 2023, month: 1, day: 2, hour: 3, minute: 4, second: 5 };
    let vars = into_variables(&delivery(Some("tok"), Some(expiry)));
    assert_eq!(
        names(&vars),
        vec![
            "AWS_PROFILE",
            "AWS_REGION",
            "AWS_DEFAULT_REGION",
            "AWS_ACCESS_KEY_ID",
            "AWS_SECRET_ACCESS_KEY",
            "AWS_SESSION_TOKEN",
            "AWS_SESSION_EXPIRATION",
            "ASSUME_ROLERS_PROFILE",
        ]
    );
    assert_eq!(vars[0].value, None);
    assert_eq!(vars[1].value, Some("us-east-1".to_string()));
    assert_eq!(vars[2].value, Some("us-east-1".to_string()));
    assert_eq!(vars[3].value, Some("AKID".to_string()));
    assert_eq!(vars[4].value, Some("sk".to_string()));
    assert_eq!(vars[5].value, Some("tok".to_string()));
    assert_eq!(vars[6].value, Some("2023-01-02T03:04:05+00:00".to_string()));
    assert_eq!(vars[7].value, Some("dev".to_string()));
}

#[test]
fn an_absent_token_is_unset_not_empty() {
    let vars = into_variables(&delivery(None, None));
    assert_eq!(vars[5].name, "AWS_SESSION_TOKEN");
    assert_eq!(vars[5].value, None);
    assert_ne!(vars[5].value, Some(String::new()));
    assert_eq!(vars[6].name, "AWS_SESSION_EXPIRATION");
    assert_eq!(vars[6].value, None);
}

#[test]
fn delivery_is_idempotent_in_its_input() {
    let c = delivery(Some("tok"), None);
    let first = into_variables(&c);
    let second = into_variables(&c);
    assert_eq!(first.len(), second.len());
    for (a, b) in first.iter().zip(second.iter()) {
        assert_eq!(a.name, b.name);
        assert_eq!(a.value, b.value);
    }
}

#[test]
fn both_shell_destinations_compute_the_same_diff() {
    let c = delivery(None, None);
    let a = ShellHandler.handle_credentials(&c);
    let b = ShellCommand.environment(&c);
    assert_eq!(names(&a), names(&b));
}
