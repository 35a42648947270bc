//! The inherited-shell delivery destination: the environment diff that
//! carries credentials into the user's next shell. The diff is computed
//! here, in full, as a pure function of the delivery unit; applying it to
//! the process environment and replacing the process image with the shell
//! happen outside the library, at the very end of the pipeline, exactly
//! once.

use vstd::prelude::*;
use vstd::string::StringExecFns;

use crate::credentials::ProfileCredentials;
use crate::profile::opt_chars;
use crate::timestamp::rfc3339_chars;

verus! {

/// One environment assignment: set `name` to the value, or unset `name`
/// when the value is absent — never leave a stale value, never set an
/// empty string in place of absence.
#[derive(Debug, Clone)]
pub struct Variable {
    pub name: String,
    pub value: Option<String>,
}

/// What a variable says, for contracts.
pub open spec fn var_view(v: Variable) -> (Seq<char>, Option<Seq<char>>) {
    (v.name@, opt_chars(v.value))
}

/// The delivery unit's well-formedness: an expiry, when present, is a
/// well-formed timestamp.
pub open spec fn wf_credentials(c: ProfileCredentials) -> bool {
    match c.credentials.expires_at {
        Some(ts) => ts.valid(),
        None => true,
    }
}

/// The full environment contract of the shell destination, in order: the
/// profile marker is always unset, the region fills both region keys, the
/// key material is set, the session token and expiry are set exactly when
/// present, and the pipeline's own marker names the resolved profile.
pub open spec fn variables_of(c: ProfileCredentials) -> Seq<(Seq<char>, Option<Seq<char>>)> {
    seq![
        ("AWS_PROFILE"@, None),
        ("AWS_REGION"@, Some(c.region_name@)),
        ("AWS_DEFAULT_REGION"@, Some(c.region_name@)),
        ("AWS_ACCESS_KEY_ID"@, Some(c.credentials.key@)),
        ("AWS_SECRET_ACCESS_KEY"@, Some(c.credentials.secret@)),
        ("AWS_SESSION_TOKEN"@, opt_chars(c.credentials.token)),
        (
            "AWS_SESSION_EXPIRATION"@,
            match c.credentials.expires_at {
                Some(ts) => Some(rfc3339_chars(ts)),
                None => None,
            },
        ),
        ("ASSUME_ROLERS_PROFILE"@, Some(c.profile_name@)),
    ]
}

/// Computes the environment diff the shell destination applies.
pub fn into_variables(c: &ProfileCredentials) -> (r: Vec<Variable>)
    requires
        wf_credentials(*c),
    ensures
        r@.map_values(|v: Variable| var_view(v)) == variables_of(*c),
{
    let expiration: Option<String> = match &c.credentials.expires_at {
        Some(ts) => Some(ts.rfc3339()),
        None => None,
    };
    let r: Vec<Variable> = vec![
        Variable { name: String::from_str("AWS_PROFILE"), value: None },
        Variable { name: String::from_str("AWS_REGION"), value: Some(c.region_name.clone()) },
        Variable { name: String::from_str("AWS_DEFAULT_REGION"), value: Some(c.region_name.clone()) },
        Variable { name: String::from_str("AWS_ACCESS_KEY_ID"), value: Some(c.credentials.key.clone()) },
        Variable { name: String::from_str("AWS_SECRET_ACCESS_KEY"), value: Some(c.credentials.secret.clone()) },
        Variable {
            name: String::from_str("AWS_SESSION_TOKEN"),
            value: crate::assume_role::clone_opt(&c.credentials.token),
        },
        Variable { name: String::from_str("AWS_SESSION_EXPIRATION"), value: expiration },
        Variable { name: String::from_str("ASSUME_ROLERS_PROFILE"), value: Some(c.profile_name.clone()) },
    ];
    proof {
        assert(r@.map_values(|v: Variable| var_view(v)) =~= variables_of(*c));
    }
    r
}

/// An absent session token leaves `AWS_SESSION_TOKEN` unset, never set to
/// an empty string; an absent expiry does the same for its key.
pub proof fn lemma_absent_token_is_unset(c: ProfileCredentials)
    ensures
        c.credentials.token is None ==> variables_of(c)[5] == (
            "AWS_SESSION_TOKEN"@,
            None::<Seq<char>>,
        ),
        c.credentials.expires_at is None ==> variables_of(c)[6] == (
            "AWS_SESSION_EXPIRATION"@,
            None::<Seq<char>>,
        ),
{
}

/// The shell diff is a function of the delivery unit alone: two
/// computations on the same unit agree entry for entry — no hidden
/// counters, no dependence on anything outside the unit.
pub proof fn lemma_shell_delivery_idempotent(
    c: ProfileCredentials,
    r1: Seq<(Seq<char>, Option<Seq<char>>)>,
    r2: Seq<(Seq<char>, Option<Seq<char>>)>,
)
    requires
        r1 == variables_of(c),
        r2 == variables_of(c),
    ensures
        r1 == r2,
{
}

/// Delivers by handing the environment diff to whoever replaces the
/// process image: the diff is everything the destination decides.
#[derive(Debug, Clone)]
pub struct ShellHandler;

impl ShellHandler {
    /// The environment diff for `c`. Applying it and replacing the process
    /// image with the user's shell — a call that never returns on success —
    /// stay outside the library.
    pub fn handle_credentials(&self, c: &ProfileCredentials) -> (r: Vec<Variable>)
        requires
            wf_credentials(*c),
        ensures
            r@.map_values(|v: Variable| var_view(v)) == variables_of(*c),
    {
        into_variables(c)
    }
}

/// The same destination, under the name the command dispatch uses.
#[derive(Debug, Clone)]
pub struct ShellCommand;

impl ShellCommand {
    /// The environment diff for `c`; see `ShellHandler::handle_credentials`.
    pub fn environment(&self, c: &ProfileCredentials) -> (r: Vec<Variable>)
        requires
            wf_credentials(*c),
        ensures
            r@.map_values(|v: Variable| var_view(v)) == variables_of(*c),
    {
        into_variables(c)
    }
}

} // verus!
