//! One-time-code acquisition. A code is either pre-supplied on the command
//! line (the static reader hands it back unconditionally) or read
//! interactively: the prompt and the line read stay outside the library,
//! which only prepares the prompt and trims the line that came back.

use vstd::prelude::*;
use vstd::string::StringExecFns;

use crate::text::{trim, trim_spec};

verus! {

/// Reads the code interactively: a prompt naming the device serial goes to
/// standard output, one line comes back. The line read itself happens
/// outside the library.
#[derive(Debug, Clone)]
pub struct StdinMfaTokenReader;

/// Hands back a pre-supplied code unconditionally, ignoring the serial.
#[derive(Debug, Clone)]
pub struct StaticMfaTokenReader {
    pub token: String,
}

impl StaticMfaTokenReader {
    pub fn read_mfa_token(&self, _mfa_serial: &str) -> (r: String)
        ensures
            r@ == self.token@,
    {
        self.token.clone()
    }
}

impl StdinMfaTokenReader {
    /// The prompt shown before a line is read for device `mfa_serial`.
    pub fn prompt(&self, mfa_serial: &str) -> (r: String)
        ensures
            r@ == "Enter MFA code for "@ + mfa_serial@ + ": "@,
    {
        let mut s = String::from_str("Enter MFA code for ");
        s.append(mfa_serial);
        s.append(": ");
        s
    }

    /// What an interactively read line means: the code is the line without
    /// its surrounding whitespace.
    pub fn code_of_line(&self, line: &str) -> (r: String)
        ensures
            r@ == trim_spec(line@),
    {
        trim(line)
    }
}

/// The closed choice of code readers, fixed before the pipeline runs.
#[derive(Debug, Clone)]
pub enum MfaReader {
    Stdin(StdinMfaTokenReader),
    Static(StaticMfaTokenReader),
}

/// Picks the reader the way the command line decides it: a pre-supplied
/// token makes a static reader, otherwise the code will be read
/// interactively.
pub fn mfa_reader_from(token: Option<String>) -> (r: MfaReader)
    ensures
        match token {
            Some(t) => r matches MfaReader::Static(s) && s.token@ == t@,
            None => r matches MfaReader::Stdin(_),
        },
{
    match token {
        Some(t) => MfaReader::Static(StaticMfaTokenReader { token: t }),
        None => MfaReader::Stdin(StdinMfaTokenReader),
    }
}

} // verus!
