//! A credential-delivery pipeline: resolve a named access profile, obtain
//! short-lived credentials for it (optionally through a multi-factor
//! challenge), and deliver them to exactly one destination — an inherited
//! shell session, a web-console sign-in URL, or a sandboxed plugin module
//! fed through a versioned wire payload.
//!
//! The pipeline itself is pure: every stage is a function from plain values
//! to plain values with a verified contract. Interactive input, the
//! provider's role-assumption call, the network, and the sandbox runtime are
//! collaborators driven from outside the library; they hand plain values in
//! and take plain values (environment diffs, URLs, payload text) back out.

pub mod assume_role;
pub mod command;
pub mod credentials;
pub mod error;
pub mod export;
pub mod federation;
pub mod handler;
pub mod json;
pub mod mfa;
pub mod plugin;
pub mod profile;
pub mod run;
pub mod select;
pub mod shell;
pub mod text;
pub mod timestamp;
