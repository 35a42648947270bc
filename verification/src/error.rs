//! The pipeline's error taxonomy. Every variant is terminal for the current
//! invocation: nothing is retried inside the library. A cancelled interactive
//! selection is not an error and never reaches this type.

use vstd::prelude::*;
use vstd::string::StringExecFns;

verus! {

/// Why a pipeline stage failed.
#[derive(Debug, Clone, PartialEq, Eq)]
pub enum Error {
    /// An explicitly requested profile name is absent from the store.
    NotFound(String),
    /// The selected profile has no role ARN, so it cannot be role-assumed.
    MissingRoleArn(String),
    /// The provider rejected the role-assumption request; carries the
    /// provider's message unchanged.
    AssumeRoleFailed(String),
    /// The federation destination needs temporary credentials, but the
    /// session token or expiry is absent.
    MissingSessionToken,
    /// The plugin argument is neither a built-in plugin name nor a path to a
    /// module file with the recognized extension.
    UnknownPlugin(String),
    /// The sandboxed module exited with a nonzero code or trapped; carries
    /// the module's identifying name and the cause.
    PluginExecutionFailed(String, String),
    /// A terminal or stream operation failed outside the library.
    IoFailure(String),
}

impl Error {
    /// A human-readable description, for the process boundary to print.
    pub fn message(&self) -> (r: String)
        ensures
            r@.len() > 0,
    {
        let r = match self {
            Error::NotFound(name) => {
                let mut s = String::from_str("no profile found. profile_name:");
                s.append(name.as_str());
                s
            },
            Error::MissingRoleArn(name) => {
                let mut s = String::from_str("the profile does not have a role ARN. profile_name:");
                s.append(name.as_str());
                s
            },
            Error::AssumeRoleFailed(cause) => {
                let mut s = String::from_str("assume-role failed: ");
                s.append(cause.as_str());
                s
            },
            Error::MissingSessionToken => {
                String::from_str("session-token or expiration-datetime is missing.")
            },
            Error::UnknownPlugin(_) => {
                String::from_str("plugin must be a path to .wasm file, or built-in plugin name.")
            },
            Error::PluginExecutionFailed(name, cause) => {
                let mut s = String::from_str("plugin execution failed. plugin:");
                s.append(name.as_str());
                s.append(" cause:");
                s.append(cause.as_str());
                s
            },
            Error::IoFailure(cause) => {
                let mut s = String::from_str("i/o failure: ");
                s.append(cause.as_str());
                s
            },
        };
        proof {
            reveal_strlit("no profile found. profile_name:");
            reveal_strlit("the profile does not have a role ARN. profile_name:");
            reveal_strlit("assume-role failed: ");
            reveal_strlit("session-token or expiration-datetime is missing.");
            reveal_strlit("plugin must be a path to .wasm file, or built-in plugin name.");
            reveal_strlit("plugin execution failed. plugin:");
            reveal_strlit("i/o failure: ");
        }
        r
    }
}

} // verus!
