use assume_rolers::credentials::{Credentials, ProfileCredentials};
use assume_rolers::export::export_lines;
use assume_rolers::plugin::PluginPayload;
use assume_rolers::shell::Shell;

fn payload(shell: Option<Shell>) -> PluginPayload {
    PluginPayload::new(
        shell,
        ProfileCredentials {
            profile_name: "dev".to_string(),
            region_name: "us-east-1".to_string(),
            credentials: Credentials {
                key: "AKID".to_string(),
                secret: "sk".to_string(),
                token: None,
                expires_at: None,
            },
        },
    )
}

#[test]
fn bourne_family_lines_set_and_unset() {
    let lines = export_lines(&payload(Some(Shell::Bash))).unwrap();
    assert_eq!(
        lines,
        vec![
            "unset AWS_PROFILE".to_string(),
            "export \"AWS_REGION=us-east-1\"".to_string(),
            "export \"AWS_DEFAULT_REGION=us-east-1\"".to_string(),
            "export \"AWS_ACCESS_KEY_ID=AKID\"".to_string(),
            "export \"AWS_SECRET_ACCESS_KEY=sk\"".to_string(),
            "unset AWS_SESSION_TOKEN".to_string(),
            "unset AWS_SESSION_EXPIRATION".to_string(),
            "export \"ASSUME_ROLERS_PROFILE=dev\"".to_string(),
        ]
    );
    // Zsh uses the same dialect.
    assert_eq!(export_lines(&payload(Some(Shell::Zsh))).unwrap(), lines);
}

#[test]
fn fish_lines_use_the_fish_dialect() {
    let lines = export_lines(&payload(Some(Shell::Fish))).unwrap();
    assert_eq!(lines[0], "set -e AWS_PROFILE");
    assert_eq!(lines[1], "set -gx AWS_REGION \"us-east-1\"");
    assert_eq!(lines[7], "set -gx ASSUME_ROLERS_PROFILE \"dev\"");
}

#[test]
fn no_hint_means_no_lines() {
    assert_eq!(export_lines(&payload(None)).unwrap(), Vec::<String>::new());
}

#[test]
fn an_unrecognized_family_is_refused() {
    assert!(export_lines(&payload(Some(Shell::Unknown("pwsh".to_string())))).is_none());
}
