use assume_rolers::credentials::{Credentials, ProfileCredentials};
use assume_rolers::error::Error;
use assume_rolers::federation::{
    parse_signin_token_response, FederatedSession, FederationClient, FederationHandler,
};
use assume_rolers::timestamp::Timestamp;

fn delivery(token: Option<&str>, expires_at: Option<Timestamp>) -> ProfileCredentials {
    ProfileCredentials {
        profile_name: "dev".to_string(),
        region_name: "us-east-1".to_string(),
        credentials: Credentials {
            key: "AKID".to_string(),
            secret: "sk".to_string(),
            token: token.map(|s| s.to_string()),
            expires_at,
        },
    }
}

#[test]
fn without_a_session_token_delivery_fails_before_any_request() {
    let expiry = Timestamp { year: 2023, month: 1, day: 2, hour: 4, minute: 4, second: 5 };
    let r = FederationHandler.handle_credentials(&delivery(None, Some(expiry)), 0);
    assert_eq!(r.unwrap_err(), Error::MissingSessionToken);
}

#[test]
fn without_an_expiry_delivery_fails_before_any_request() {
    let r = FederationHandler.handle_credentials(&delivery(Some("tok"), None), 0);
    assert_eq!(r.unwrap_err(), Error::MissingSessionToken);
}

#[test]
fn the_window_is_expiry_minus_now() {
    // Expiry 2023-01-02T04:04:05Z, now one hour earlier.
    let expiry = Timestamp { year: 2023, month: 1, day: 2, hour: 4, minute: 4, second: 5 };
    let now = expiry.epoch_secs() - 3600;
    let req = FederationHandler
        .handle_credentials(&delivery(Some("tok"), Some(expiry)), now)
        .unwrap();
    assert_eq!(req.duration_secs, 3600);
    assert_eq!(
        req.session_json,
        r#"{"sessionId":"AKID","sessionKey":"sk","sessionToken":"tok"}"#
    );
    assert_eq!(
        req.url,
        "https://signin.aws.amazon.com/federation?Action=getSigninToken&SessionDuration=3600&Session=%7B%22sessionId%22%3A%22AKID%22%2C%22sessionKey%22%3A%22sk%22%2C%22sessionToken%22%3A%22tok%22%7D"
    );
}

#[test]
fn a_session_needs_a_token() {
    let creds = Credentials {
        key: "AKID".to_string(),
        secret: "sk".to_string(),
        token: None,
        expires_at: None,
    };
    assert_eq!(
        FederatedSession::try_from_credentials(&creds).unwrap_err(),
        Error::MissingSessionToken
    );
}

#[test]
fn the_login_url_embeds_the_token() {
    let url = FederationClient.signin_url("abc+/=1");
    assert_eq!(
        url,
        "https://signin.aws.amazon.com/federation?Action=login&Issuer=&Destination=https%3A%2F%2Fconsole.aws.amazon.com%2F&SigninToken=abc%2B%2F%3D1"
    );
}

#[test]
fn the_endpoint_answer_yields_the_token() {
    assert_eq!(
        parse_signin_token_response(r#"{"SigninToken":"opaque"}"#),
        Some("opaque".to_string())
    );
    assert_eq!(parse_signin_token_response(r#"{"Error":"denied"}"#), None);
    assert_eq!(parse_signin_token_response("not json"), None);
}
