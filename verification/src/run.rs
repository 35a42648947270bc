//! The pipeline orchestrator: one linear pass from a loaded profile store
//! through selection, optional multi-factor challenge, role assumption,
//! and exactly one delivery. The stages that suspend — interactive input,
//! the provider round trip, the network, the sandbox — are driven from
//! outside: each stage method here takes what came back as a plain value
//! and decides everything up to the next suspension. The state machine is
//! linear with no back edges; a cancelled selection is terminal success,
//! and the first failure halts everything with its cause unchanged.

use vstd::prelude::*;
use vstd::string::StringExecFns;

use crate::assume_role::{build_request, needs_mfa, request_matches, AssumeRoleRequest};
use crate::command::CredentialsCommand;
use crate::credentials::ProfileCredentials;
use crate::error::Error;
use crate::federation::FederationRequest;
use crate::handler::{var_view, variables_of, wf_credentials, Variable};
use crate::mfa::MfaReader;
use crate::plugin::{delivery_payload_model, module_name_spec, payload_json};
use crate::profile::{find_profile, opt_chars, Profile, ProfileSet};
use crate::select::{name_views, role_names, sorted_names, ProfileSelector};
use crate::shell::Shell;
use crate::text::trim_spec;

verus! {

/// Which stage a failure halted the machine in.
#[derive(Debug, Clone, Copy, PartialEq, Eq, Structural)]
pub enum PipelineStage {
    Selection,
    Assumption,
    Delivery,
}

/// The machine's states, in the order the pipeline passes them. `Aborted`
/// (nothing selected) is terminal success; a failure after loading is
/// terminal with its stage and cause.
#[derive(Debug)]
pub enum PipelineState {
    Start,
    ProfilesLoaded,
    ProfileSelected,
    CredentialsAssumed,
    Delivered,
    Aborted,
    Failed(PipelineStage, Error),
}

/// The machine's transition relation: strictly forward, no back edges.
pub open spec fn step_allowed(from: PipelineState, to: PipelineState) -> bool {
    match (from, to) {
        (PipelineState::Start, PipelineState::ProfilesLoaded) => true,
        (PipelineState::ProfilesLoaded, PipelineState::ProfileSelected) => true,
        (PipelineState::ProfilesLoaded, PipelineState::Aborted) => true,
        (PipelineState::ProfilesLoaded, PipelineState::Failed(stage, _)) => stage
            == PipelineStage::Selection,
        (PipelineState::ProfileSelected, PipelineState::CredentialsAssumed) => true,
        (PipelineState::ProfileSelected, PipelineState::Failed(stage, _)) => stage
            == PipelineStage::Assumption,
        (PipelineState::CredentialsAssumed, PipelineState::Delivered) => true,
        (PipelineState::CredentialsAssumed, PipelineState::Failed(stage, _)) => stage
            == PipelineStage::Delivery,
        _ => false,
    }
}

/// How far along the pipeline a state lies; every terminal state lies at
/// the end.
pub open spec fn stage_rank(s: PipelineState) -> int {
    match s {
        PipelineState::Start => 0,
        PipelineState::ProfilesLoaded => 1,
        PipelineState::ProfileSelected => 2,
        PipelineState::CredentialsAssumed => 3,
        PipelineState::Delivered => 4,
        PipelineState::Aborted => 4,
        PipelineState::Failed(_, _) => 4,
    }
}

/// The machine only moves strictly forward: there are no back edges and no
/// stalls.
pub proof fn lemma_steps_strictly_forward(from: PipelineState, to: PipelineState)
    requires
        step_allowed(from, to),
    ensures
        stage_rank(from) < stage_rank(to),
{
}

/// Terminal states have no successor: delivery, abortion, and failure all
/// end the machine.
pub proof fn lemma_terminal_states(from: PipelineState, to: PipelineState)
    requires
        from is Delivered || from is Aborted || from is Failed,
    ensures
        !step_allowed(from, to),
{
}

/// What the pipeline hands back to its driver when a stage must suspend
/// for outside work, or ends.
pub enum SelectOutcome<'a> {
    /// A profile is chosen; the machine is in `ProfileSelected`.
    Selected(&'a Profile),
    /// The interactive facility must present these candidates.
    PresentChoices(Vec<String>),
    /// The explicitly requested name is absent; `Failed(Selection, _)`.
    SelectFailed(Error),
}

/// What the multi-factor stage needs before the request can be built.
pub enum MfaOutcome {
    /// The profile declares no MFA device: no code, no prompt, ever.
    NoChallenge,
    /// The pre-supplied code; the reader was consulted exactly once.
    Code(String),
    /// The prompt to print and the serial it names; one line must come
    /// back.
    Prompt(String, String),
}

/// One delivery, decided: the action the driver performs last.
pub enum DeliveryAction {
    /// Apply this environment diff, then replace the process image with
    /// the user's shell; the replacement never returns on success.
    SetEnvironmentAndExec(Vec<Variable>),
    /// Send the sign-in-token request, then print the login URL built from
    /// the answer.
    Federation(FederationRequest),
    /// Run the destination's module in the sandbox under this name, fed
    /// this payload text, and classify the outcome under the same name.
    RunPlugin(String, String),
}

/// The assembled pipeline: a selector, a code reader, and a destination,
/// each fixed before the run.
#[derive(Debug, Clone)]
pub struct AssumeRolers {
    pub selector: ProfileSelector,
    pub mfa_reader: MfaReader,
    pub command: CredentialsCommand,
}

impl AssumeRolers {
    /// Assembles a pipeline.
    pub fn new(selector: ProfileSelector, mfa_reader: MfaReader, command: CredentialsCommand) -> (r:
        AssumeRolers)
        ensures
            r.selector == selector,
            r.mfa_reader == mfa_reader,
            r.command == command,
    {
        AssumeRolers { selector, mfa_reader, command }
    }

    /// The selection stage. A static selector resolves or fails at once;
    /// an interactive one suspends with the sorted role-bearing candidate
    /// names.
    pub fn select_profile<'a>(&self, profiles: &'a ProfileSet) -> (r: SelectOutcome<'a>)
        ensures
            match r {
                SelectOutcome::Selected(p) => self.selector matches ProfileSelector::Static(s)
                    && find_profile(profiles.profiles@, s.profile_name@) == Some(*p),
                SelectOutcome::SelectFailed(e) => self.selector matches ProfileSelector::Static(s)
                    && find_profile(profiles.profiles@, s.profile_name@) is None && (
                e matches Error::NotFound(n) && n@ == s.profile_name@),
                SelectOutcome::PresentChoices(names) => self.selector matches
                    ProfileSelector::Skim(_) && sorted_names(names@) && name_views(
                    names@,
                ).to_multiset() == role_names(profiles.profiles@).to_multiset(),
            },
    {
        match &self.selector {
            ProfileSelector::Static(s) => match s.select_profile(profiles) {
                Ok(Some(p)) => SelectOutcome::Selected(p),
                Ok(None) => SelectOutcome::SelectFailed(
                    Error::NotFound(s.profile_name.clone()),
                ),  // unreachable: a static selector never selects nothing
                Err(e) => SelectOutcome::SelectFailed(e),
            },
            ProfileSelector::Skim(sk) => SelectOutcome::PresentChoices(sk.candidates(profiles)),
        }
    }

    /// Resolves the interactively confirmed name (or the lack of one): no
    /// confirmation, or a name not in the store, aborts the run normally.
    pub fn resolve_choice<'a>(&self, profiles: &'a ProfileSet, choice: Option<&str>) -> (r: Option<
        &'a Profile,
    >)
        ensures
            match choice {
                None => r is None,
                Some(name) => match r {
                    Some(p) => find_profile(profiles.profiles@, name@) == Some(*p),
                    None => find_profile(profiles.profiles@, name@) is None,
                },
            },
    {
        crate::select::resolve_choice(profiles, choice)
    }

    /// The multi-factor stage: the reader is consulted exactly once when
    /// the profile declares an MFA serial — lazily, a prompt only when the
    /// code must be read — and never otherwise.
    pub fn read_mfa(&self, profile: &Profile) -> (r: MfaOutcome)
        ensures
            profile.mfa_serial is None <==> r is NoChallenge,
            match r {
                MfaOutcome::NoChallenge => !needs_mfa(*profile),
                MfaOutcome::Code(code) => needs_mfa(*profile) && (
                self.mfa_reader matches MfaReader::Static(s) && code@ == s.token@),
                MfaOutcome::Prompt(prompt, serial) => needs_mfa(*profile) && (
                self.mfa_reader matches MfaReader::Stdin(_)) && (
                profile.mfa_serial matches Some(ser) && serial@ == ser@ && prompt@
                    == "Enter MFA code for "@ + ser@ + ": "@),
            },
    {
        let serial: &String = match &profile.mfa_serial {
            None => {
                return MfaOutcome::NoChallenge;
            },
            Some(s) => s,
        };
        match &self.mfa_reader {
            MfaReader::Static(s) => MfaOutcome::Code(s.read_mfa_token(serial.as_str())),
            MfaReader::Stdin(r) => MfaOutcome::Prompt(
                r.prompt(serial.as_str()),
                serial.clone(),
            ),
        }
    }

    /// What an interactively read line means as a code: the line without
    /// its surrounding whitespace.
    pub fn code_from_line(&self, line: &str) -> (r: String)
        ensures
            r@ == trim_spec(line@),
    {
        crate::text::trim(line)
    }

    /// The assumption stage's pure part: builds the provider request.
    /// A profile without a role ARN fails here, before any provider
    /// contact; the code is included exactly when the profile demands one.
    pub fn prepare_assume_role(&self, profile: &Profile, token_code: Option<String>, now_epoch: i64)
        -> (r: Result<AssumeRoleRequest, Error>)
        requires
            token_code is Some <==> needs_mfa(*profile),
        ensures
            match r {
                Ok(req) => request_matches(req, *profile, token_code, now_epoch as int),
                Err(e) => match e {
                    Error::MissingRoleArn(n) => profile.role_arn is None && n@ == profile.name@,
                    Error::IoFailure(_) => profile.role_arn is Some && !(
                    crate::timestamp::min_epoch_secs() <= now_epoch + crate::assume_role::resolved_duration(*profile)
                        <= crate::timestamp::max_epoch_secs()),
                    _ => false,
                },
            },
    {
        build_request(profile, token_code, now_epoch)
    }

    /// The delivery stage's pure part: everything the chosen destination
    /// decides before (and instead of) its outside work. The shell path is
    /// the `SHELL` the environment names; the plugin destination requires
    /// it for its hint, as the destination's own contract says.
    pub fn deliver(&self, credentials: ProfileCredentials, shell_path: Option<&str>, now_epoch: i64)
        -> (r: Result<DeliveryAction, Error>)
        requires
            wf_credentials(credentials),
        ensures
            match r {
                Ok(action) => match action {
                    DeliveryAction::SetEnvironmentAndExec(vars) => self.command matches
                        CredentialsCommand::Shell(_) && vars@.map_values(
                        |v: Variable| var_view(v),
                    ) == variables_of(credentials),
                    DeliveryAction::Federation(req) => self.command matches
                        CredentialsCommand::Federation(_) && (
                    credentials.credentials.token matches Some(tok)
                        && credentials.credentials.expires_at matches Some(ts)
                        && req.session_json@ == crate::json::print_model(
                        crate::federation::session_json_model(
                            credentials.credentials.key@,
                            credentials.credentials.secret@,
                            tok@,
                        ),
                    ) && req.duration_secs as int == ts.epoch_secs_spec() - now_epoch && req.url@
                        == crate::federation::signin_token_url_spec(
                        req.session_json@,
                        req.duration_secs as int,
                    )),
                    DeliveryAction::RunPlugin(name, input) => self.command matches
                        CredentialsCommand::WasmPlugin(h) && name@ == module_name_spec(h.module)
                        && (shell_path matches Some(sp) && input@ == crate::json::print_model(
                        payload_json(
                            delivery_payload_model(crate::shell::spec_shell_hint(sp@), credentials),
                        ),
                    )),
                },
                Err(e) => match e {
                    Error::MissingSessionToken => self.command matches
                        CredentialsCommand::Federation(_) && (credentials.credentials.token is None
                        || credentials.credentials.expires_at is None),
                    Error::IoFailure(_) => (self.command matches CredentialsCommand::Federation(_))
                        || (self.command matches CredentialsCommand::WasmPlugin(_) && shell_path
                        is None),
                    _ => false,
                },
            },
    {
        match &self.command {
            CredentialsCommand::Shell(sc) => Ok(
                DeliveryAction::SetEnvironmentAndExec(sc.environment(&credentials)),
            ),
            CredentialsCommand::Federation(f) => match f.handle_credentials(
                &credentials,
                now_epoch,
            ) {
                Ok(req) => Ok(DeliveryAction::Federation(req)),
                Err(e) => Err(e),
            },
            CredentialsCommand::WasmPlugin(h) => {
                let sp = match shell_path {
                    Some(sp) => sp,
                    None => {
                        return Err(
                            Error::IoFailure(
                                String::from_str("the environment names no shell"),
                            ),
                        );
                    },
                };
                let hint = Shell::from_process_path(sp);
                proof {
                    match &hint {
                        None => {
                            assert(crate::shell::spec_shell_hint(sp@) is None);
                        },
                        Some(Shell::Bash) => {
                            assert(crate::shell::spec_file_stem(sp@) == Some("bash"@));
                        },
                        Some(Shell::Zsh) => {
                            assert(crate::shell::spec_file_stem(sp@) == Some("zsh"@));
                            reveal_strlit("zsh");
                            reveal_strlit("bash");
                            assert("zsh"@ != "bash"@) by {
                                if "zsh"@ == "bash"@ {
                                    assert("zsh"@.len() == "bash"@.len());
                                    assert(false);
                                }
                            };
                        },
                        Some(Shell::Fish) => {
                            assert(crate::shell::spec_file_stem(sp@) == Some("fish"@));
                            reveal_strlit("fish");
                            reveal_strlit("bash");
                            reveal_strlit("zsh");
                            assert("fish"@ != "bash"@) by {
                                if "fish"@ == "bash"@ {
                                    assert("fish"@[0] == "bash"@[0]);
                                    assert(false);
                                }
                            };
                            assert("fish"@ != "zsh"@) by {
                                if "fish"@ == "zsh"@ {
                                    assert("fish"@.len() == "zsh"@.len());
                                    assert(false);
                                }
                            };
                        },
                        Some(Shell::Unknown(u)) => {
                            assert(crate::shell::spec_file_stem(sp@) == Some(u@));
                        },
                    }
                    assert(crate::plugin::opt_shell_model(hint) =~~= crate::shell::spec_shell_hint(
                        sp@,
                    ));
                }
                let (input, name) = h.handle_credentials(hint, credentials);
                Ok(DeliveryAction::RunPlugin(name, input))
            },
        }
    }
}

/// The code is obtained if and only if the profile demands a challenge,
/// and the built request carries it exactly then: the reader is consulted
/// exactly once before the request exists, never after, never without
/// need.
pub proof fn lemma_mfa_exactly_once(
    req: AssumeRoleRequest,
    profile: Profile,
    token_code: Option<String>,
    now_epoch: int,
)
    requires
        request_matches(req, profile, token_code, now_epoch),
    ensures
        req.token_code is Some <==> profile.mfa_serial is Some,
        token_code is Some <==> profile.mfa_serial is Some,
        opt_chars(req.token_code) == opt_chars(token_code),
{
}

} // verus!
