//! The closed choice of delivery destinations, and how the command line
//! selects one: no plugin argument means the inherited shell; a path with
//! the module extension means a file module; a built-in name means the
//! embedded module or the federation destination; anything else is
//! refused. The choice is made once, before the pipeline runs.

use vstd::prelude::*;
use vstd::string::StringExecFns;

use crate::error::Error;
use crate::federation::FederationHandler;
use crate::handler::ShellCommand;
use crate::plugin::{WasmHandler, WasmModule};
use crate::shell::spec_path_extension;

verus! {

/// Exactly one of the three delivery destinations.
#[derive(Debug, Clone)]
pub enum CredentialsCommand {
    Shell(ShellCommand),
    WasmPlugin(WasmHandler),
    Federation(FederationHandler),
}

/// The fixed registry of built-in plugins: the embedded export module
/// (whose binary the caller supplies, since it ships with the host, not
/// with the library) and the federation destination.
pub fn builtin_commands(export_binary: Vec<u8>) -> (r: Vec<(String, CredentialsCommand)>)
    ensures
        r@.len() == 2,
        r@[0].0@ == "export"@,
        r@[0].1 matches CredentialsCommand::WasmPlugin(h) && (h.module matches WasmModule::Binary(
            n,
            b,
        ) && n@ == "export"@ && b@ == export_binary@),
        r@[1].0@ == "federation"@,
        r@[1].1 matches CredentialsCommand::Federation(_),
{
    let mut r: Vec<(String, CredentialsCommand)> = Vec::new();
    r.push(
        (
            String::from_str("export"),
            CredentialsCommand::WasmPlugin(WasmHandler::from_binary("export", export_binary)),
        ),
    );
    r.push(
        (
            String::from_str("federation"),
            CredentialsCommand::Federation(FederationHandler),
        ),
    );
    r
}

/// Which destination a plugin argument selects. Absence selects the
/// inherited shell. A present argument must be a path to a module file
/// with the recognized extension, or a built-in name; anything else is
/// `UnknownPlugin`.
pub fn credentials_command_from(plugin: Option<String>, export_binary: Vec<u8>) -> (r: Result<
    CredentialsCommand,
    Error,
>)
    ensures
        match plugin {
            None => r matches Ok(CredentialsCommand::Shell(_)),
            Some(p) => if spec_path_extension(p@) == Some("wasm"@) {
                r matches Ok(CredentialsCommand::WasmPlugin(h)) && (
                h.module matches WasmModule::File(q) && q@ == p@)
            } else if p@ == "export"@ {
                r matches Ok(CredentialsCommand::WasmPlugin(h)) && (
                h.module matches WasmModule::Binary(n, b) && n@ == "export"@ && b@
                    == export_binary@)
            } else if p@ == "federation"@ {
                r matches Ok(CredentialsCommand::Federation(_))
            } else {
                r matches Err(Error::UnknownPlugin(n)) && n@ == p@
            },
        },
{
    let p = match plugin {
        None => {
            return Ok(CredentialsCommand::Shell(ShellCommand));
        },
        Some(p) => p,
    };
    let is_wasm_file: bool = match crate::shell::path_extension(p.as_str()) {
        Some(e) => crate::text::str_eq_str(e.as_str(), "wasm"),
        None => false,
    };
    if is_wasm_file {
        Ok(CredentialsCommand::WasmPlugin(WasmHandler::from_file(p.as_str())))
    } else if crate::text::str_eq_str(p.as_str(), "export") {
        Ok(CredentialsCommand::WasmPlugin(WasmHandler::from_binary("export", export_binary)))
    } else if crate::text::str_eq_str(p.as_str(), "federation") {
        Ok(CredentialsCommand::Federation(FederationHandler))
    } else {
        Err(Error::UnknownPlugin(p))
    }
}

} // verus!
