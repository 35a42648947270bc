//! The federated web-login destination: temporary credentials become a
//! session description, the session and its remaining validity window go to
//! the federation endpoint as a sign-in-token request, and the opaque token
//! that comes back is embedded in a login URL. The two GET requests happen
//! outside the library; both URLs, the session text, and the reading of the
//! endpoint's answer are fixed here. Without a session token (or expiry)
//! the destination fails before anything could be sent.

use vstd::prelude::*;
use vstd::string::StringExecFns;
use vstd::string::StringSliceAdditionalSpecFns;

use crate::credentials::ProfileCredentials;
use crate::error::Error;
use crate::json::{json_view, obj_get, parse_json_complete, print_model, FieldModel, JsonField,
    JsonModel, JsonValue};
use crate::text::dec_rep;

verus! {

/// The bytes form-urlencoding leaves as they are.
pub open spec fn is_form_unreserved(b: u8) -> bool {
    (48 <= b <= 57) || (65 <= b <= 90) || (97 <= b <= 122) || b == 42 || b == 45 || b == 46
        || b == 95
}

/// The uppercase hexadecimal digit character for a value below sixteen.
pub open spec fn hex_upper(d: int) -> char {
    if d < 10 {
        crate::text::digit_char(d)
    } else if d == 10 {
        'A'
    } else if d == 11 {
        'B'
    } else if d == 12 {
        'C'
    } else if d == 13 {
        'D'
    } else if d == 14 {
        'E'
    } else {
        'F'
    }
}

/// How one byte appears in a form-urlencoded query value: unreserved bytes
/// stand for themselves, a space becomes `+`, anything else a `%XX` escape.
pub open spec fn form_byte(b: u8) -> Seq<char> {
    if is_form_unreserved(b) {
        seq![b as char]
    } else if b == 32 {
        seq!['+']
    } else {
        seq!['%', hex_upper(b as int / 16), hex_upper(b as int % 16)]
    }
}

/// The form-urlencoded rendering of a byte string.
pub open spec fn form_encoded(bs: Seq<u8>) -> Seq<char>
    decreases bs.len(),
{
    if bs.len() == 0 {
        Seq::empty()
    } else {
        form_encoded(bs.drop_last()) + form_byte(bs.last())
    }
}

/// The uppercase hexadecimal digit character for `d`; matches `hex_upper`.
fn hex_upper_exec(d: u8) -> (r: char)
    requires
        d < 16,
    ensures
        r == hex_upper(d as int),
{
    if d < 10 {
        crate::text::digit_char_exec(d as u64)
    } else if d == 10 {
        'A'
    } else if d == 11 {
        'B'
    } else if d == 12 {
        'C'
    } else if d == 13 {
        'D'
    } else if d == 14 {
        'E'
    } else {
        'F'
    }
}

/// Appends the form-urlencoded rendering of the UTF-8 bytes of `s`.
fn append_form_encoded(s: &str, out: &mut Vec<char>)
    ensures
        final(out)@ == old(out)@ + form_encoded(s.spec_bytes()),
{
    let bytes = s.as_bytes();
    let n = bytes.len();
    let mut i: usize = 0;
    while i < n
        invariant
            n == bytes@.len(),
            bytes@ == s.spec_bytes(),
            i <= n,
            out@ == old(out)@ + form_encoded(bytes@.subrange(0, i as int)),
        decreases n - i,
    {
        let b = bytes[i];
        proof {
            let pre = bytes@.subrange(0, i as int + 1);
            assert(pre.drop_last() =~= bytes@.subrange(0, i as int));
            assert(pre.last() == bytes@[i as int]);
        }
        if (48 <= b && b <= 57) || (65 <= b && b <= 90) || (97 <= b && b <= 122) || b == 42 || b
            == 45 || b == 46 || b == 95 {
            out.push(b as char);
        } else if b == 32 {
            out.push('+');
        } else {
            out.push('%');
            out.push(hex_upper_exec(b / 16));
            out.push(hex_upper_exec(b % 16));
        }
        i = i + 1;
        proof {
            assert(out@ =~= old(out)@ + form_encoded(bytes@.subrange(0, i as int)));
        }
    }
    proof {
        assert(bytes@.subrange(0, n as int) =~= bytes@);
    }
}

/// Appends every character of `s`.
fn append_chars(s: &str, out: &mut Vec<char>)
    ensures
        final(out)@ == old(out)@ + s@,
{
    let v = crate::text::chars_of(s);
    let n = v.len();
    let mut i: usize = 0;
    while i < n
        invariant
            n == v@.len(),
            v@ == s@,
            i <= n,
            out@ == old(out)@ + s@.subrange(0, i as int),
        decreases n - i,
    {
        out.push(v[i]);
        i = i + 1;
        proof {
            assert(out@ =~= old(out)@ + s@.subrange(0, i as int));
        }
    }
    proof {
        assert(s@.subrange(0, n as int) =~= s@);
    }
}

/// The decimal rendering of a signed count of seconds.
pub open spec fn dec_signed(n: int) -> Seq<char> {
    if n < 0 {
        seq!['-'] + dec_rep((-n) as nat)
    } else {
        dec_rep(n as nat)
    }
}

/// The decimal rendering of `n`; matches `dec_signed`.
pub fn dec_string_i64(n: i64) -> (r: String)
    ensures
        r@ == dec_signed(n as int),
{
    if n < 0 {
        let magnitude: u64 = if n == i64::MIN {
            9223372036854775808u64
        } else {
            (-n) as u64
        };
        let mut v: Vec<char> = Vec::new();
        v.push('-');
        crate::text::push_dec_u64(magnitude, &mut v);
        proof {
            assert(v@ =~= dec_signed(n as int));
        }
        crate::text::string_of_chars(&v)
    } else {
        crate::text::dec_string_u64(n as u64)
    }
}

/// A session description the federation endpoint understands: the access
/// key as the session id, the secret as the session key, and the session
/// token.
#[derive(Debug, Clone)]
pub struct FederatedSession {
    pub id: String,
    pub key: String,
    pub token: String,
}

impl FederatedSession {
    /// Temporary credentials make a federated session; anything without a
    /// session token does not.
    pub fn try_from_credentials(c: &crate::credentials::Credentials) -> (r: Result<
        FederatedSession,
        Error,
    >)
        ensures
            match r {
                Ok(s) => c.token matches Some(tok) && s.id@ == c.key@ && s.key@ == c.secret@
                    && s.token@ == tok@,
                Err(e) => c.token is None && e == Error::MissingSessionToken,
            },
    {
        match &c.token {
            Some(tok) => Ok(
                FederatedSession { id: c.key.clone(), key: c.secret.clone(), token: tok.clone() },
            ),
            None => Err(Error::MissingSessionToken),
        }
    }
}

/// The session on the wire: a JSON object under the endpoint's field names.
pub open spec fn session_json_model(id: Seq<char>, key: Seq<char>, token: Seq<char>) -> JsonModel {
    JsonModel::Obj(
        seq![
            FieldModel { key: "sessionId"@, value: JsonModel::Str(id) },
            FieldModel { key: "sessionKey"@, value: JsonModel::Str(key) },
            FieldModel { key: "sessionToken"@, value: JsonModel::Str(token) },
        ],
    )
}

/// Serializes a federated session to the JSON text the endpoint takes.
pub fn session_json(s: &FederatedSession) -> (r: String)
    ensures
        r@ == print_model(session_json_model(s.id@, s.key@, s.token@)),
{
    let mut fields: Vec<JsonField> = Vec::new();
    fields.push(JsonField { key: String::from_str("sessionId"), value: JsonValue::Str(s.id.clone()) });
    fields.push(
        JsonField { key: String::from_str("sessionKey"), value: JsonValue::Str(s.key.clone()) },
    );
    fields.push(
        JsonField { key: String::from_str("sessionToken"), value: JsonValue::Str(s.token.clone()) },
    );
    let ghost fv = fields@;
    let tree = JsonValue::Obj(fields);
    proof {
        crate::json::lemma_json_view_fields_index(fv);
        assert(fv.len() == 3);
        assert(fv[0].key@ == "sessionId"@ && json_view(fv[0].value) == JsonModel::Str(s.id@));
        assert(fv[1].key@ == "sessionKey"@ && json_view(fv[1].value) == JsonModel::Str(s.key@));
        assert(fv[2].key@ == "sessionToken"@ && json_view(fv[2].value) == JsonModel::Str(
            s.token@,
        ));
        assert(crate::json::json_view_fields(fv) =~~= seq![
            FieldModel { key: "sessionId"@, value: JsonModel::Str(s.id@) },
            FieldModel { key: "sessionKey"@, value: JsonModel::Str(s.key@) },
            FieldModel { key: "sessionToken"@, value: JsonModel::Str(s.token@) },
        ]);
        assert(json_view(tree) =~~= session_json_model(s.id@, s.key@, s.token@));
    }
    crate::json::to_json_string(&tree)
}

/// The sign-in-token request: a GET against the federation endpoint with
/// the action, the validity window in seconds, and the serialized session
/// as query parameters.
pub open spec fn signin_token_url_spec(session: Seq<char>, duration_secs: int) -> Seq<char> {
    "https://signin.aws.amazon.com/federation?Action=getSigninToken&SessionDuration="@
        + dec_signed(duration_secs) + "&Session="@ + form_encoded(
        vstd::utf8::encode_utf8(session),
    )
}

/// The login URL: the federation endpoint with the action, an empty
/// issuer, the fixed console destination, and the sign-in token as query
/// parameters.
pub open spec fn signin_url_spec(token: Seq<char>) -> Seq<char> {
    "https://signin.aws.amazon.com/federation?Action=login&Issuer=&Destination="@ + form_encoded(
        vstd::utf8::encode_utf8("https://console.aws.amazon.com/"@),
    ) + "&SigninToken="@ + form_encoded(vstd::utf8::encode_utf8(token))
}

/// Performs the two sign-in steps' pure parts. The GET requests themselves
/// are the caller's.
#[derive(Debug, Clone)]
pub struct FederationClient;

impl FederationClient {
    /// The sign-in-token request URL for a serialized session and a
    /// validity window.
    pub fn signin_token_url(&self, session: &str, duration_secs: i64) -> (r: String)
        ensures
            r@ == signin_token_url_spec(session@, duration_secs as int),
    {
        let mut out: Vec<char> = Vec::new();
        append_chars(
            "https://signin.aws.amazon.com/federation?Action=getSigninToken&SessionDuration=",
            &mut out,
        );
        append_chars(dec_string_i64(duration_secs).as_str(), &mut out);
        append_chars("&Session=", &mut out);
        append_form_encoded(session, &mut out);
        proof {
            assert(out@ =~= signin_token_url_spec(session@, duration_secs as int));
        }
        crate::text::string_of_chars(&out)
    }

    /// The login URL embedding a sign-in token.
    pub fn signin_url(&self, signin_token: &str) -> (r: String)
        ensures
            r@ == signin_url_spec(signin_token@),
    {
        let mut out: Vec<char> = Vec::new();
        append_chars(
            "https://signin.aws.amazon.com/federation?Action=login&Issuer=&Destination=",
            &mut out,
        );
        append_form_encoded("https://console.aws.amazon.com/", &mut out);
        append_chars("&SigninToken=", &mut out);
        append_form_encoded(signin_token, &mut out);
        proof {
            assert(out@ =~= signin_url_spec(signin_token@));
        }
        crate::text::string_of_chars(&out)
    }
}

/// What the endpoint's answer means: the opaque sign-in token under its
/// field name.
pub open spec fn spec_signin_token_of(s: Seq<char>) -> Option<Seq<char>> {
    match parse_json_complete(s) {
        Some(JsonModel::Obj(fs)) => match obj_get(fs, "SigninToken"@) {
            Some(JsonModel::Str(tok)) => Some(tok),
            _ => None,
        },
        _ => None,
    }
}

/// Reads the sign-in token out of the endpoint's answer; matches
/// `spec_signin_token_of`.
pub fn parse_signin_token_response(s: &str) -> (r: Option<String>)
    ensures
        match r {
            Some(tok) => spec_signin_token_of(s@) == Some(tok@),
            None => spec_signin_token_of(s@) is None,
        },
{
    match crate::json::parse_json_text(s) {
        Some(JsonValue::Obj(fs)) => match crate::json::obj_get_exec(&fs, "SigninToken") {
            Some(JsonValue::Str(tok)) => Some(tok.clone()),
            _ => None,
        },
        _ => None,
    }
}

/// The validity window: how many seconds the credentials still have at the
/// moment the request is made. Degenerate clock readings that do not fit a
/// 64-bit count are refused.
pub fn remaining_validity(expiry: &crate::timestamp::Timestamp, now_epoch: i64) -> (r: Option<
    i64,
>)
    requires
        expiry.valid(),
    ensures
        match r {
            Some(d) => d as int == expiry.epoch_secs_spec() - now_epoch,
            None => !(i64::MIN <= expiry.epoch_secs_spec() - now_epoch <= i64::MAX),
        },
{
    let e: i64 = expiry.epoch_secs();
    let d: i128 = e as i128 - now_epoch as i128;
    if d > i64::MAX as i128 || d < i64::MIN as i128 {
        None
    } else {
        Some(d as i64)
    }
}

/// Everything the federation destination decides before any request goes
/// out: the serialized session, the remaining validity window, and the
/// sign-in-token request URL built from both.
#[derive(Debug, Clone)]
pub struct FederationRequest {
    pub session_json: String,
    pub duration_secs: i64,
    pub url: String,
}

/// Delivers through the federation endpoint.
#[derive(Debug, Clone)]
pub struct FederationHandler;

impl FederationHandler {
    /// The pure part of federated delivery: refuses credentials without a
    /// session token or expiry before anything could be sent, and otherwise
    /// fixes the session text, the validity window "expiry − now", and the
    /// first request's URL.
    pub fn handle_credentials(&self, c: &ProfileCredentials, now_epoch: i64) -> (r: Result<
        FederationRequest,
        Error,
    >)
        requires
            crate::handler::wf_credentials(*c),
        ensures
            match r {
                Ok(req) => c.credentials.token matches Some(tok) && c.credentials.expires_at
                    matches Some(ts) && req.session_json@ == print_model(
                    session_json_model(c.credentials.key@, c.credentials.secret@, tok@),
                ) && req.duration_secs as int == ts.epoch_secs_spec() - now_epoch && req.url@
                    == signin_token_url_spec(req.session_json@, req.duration_secs as int),
                Err(e) => match e {
                    Error::MissingSessionToken => c.credentials.token is None
                        || c.credentials.expires_at is None,
                    Error::IoFailure(_) => c.credentials.token is Some && (
                    c.credentials.expires_at matches Some(ts) && !(i64::MIN
                        <= ts.epoch_secs_spec() - now_epoch <= i64::MAX)),
                    _ => false,
                },
            },
    {
        let expiry = match &c.credentials.expires_at {
            Some(ts) => *ts,
            None => {
                return Err(Error::MissingSessionToken);
            },
        };
        let session = match FederatedSession::try_from_credentials(&c.credentials) {
            Ok(s) => s,
            Err(e) => {
                return Err(e);
            },
        };
        let duration = match remaining_validity(&expiry, now_epoch) {
            Some(d) => d,
            None => {
                return Err(
                    Error::IoFailure(String::from_str("remaining validity out of range")),
                );
            },
        };
        let text = session_json(&session);
        let client = FederationClient;
        let url = client.signin_token_url(text.as_str(), duration);
        Ok(FederationRequest { session_json: text, duration_secs: duration, url })
    }
}

/// The federated delivery is a function of the delivery unit and the clock
/// reading alone: two computations on the same inputs agree in session
/// text, window, and URL.
pub proof fn lemma_federation_idempotent(
    c: ProfileCredentials,
    now_epoch: int,
    s1: Seq<char>,
    s2: Seq<char>,
)
    requires
        c.credentials.token matches Some(tok) && s1 == signin_token_url_spec(
            print_model(session_json_model(c.credentials.key@, c.credentials.secret@, tok@)),
            now_epoch,
        ),
        c.credentials.token matches Some(tok) && s2 == signin_token_url_spec(
            print_model(session_json_model(c.credentials.key@, c.credentials.secret@, tok@)),
            now_epoch,
        ),
    ensures
        s1 == s2,
{
}

} // verus!
