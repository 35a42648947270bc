//! Assumed credentials and the delivery unit that crosses every stage
//! boundary: the triple of profile name, resolved region, and credentials.

use vstd::prelude::*;

use crate::profile::{opt_chars, opt_str_chars};
use crate::timestamp::Timestamp;

verus! {

/// Short-lived (or static) credentials returned by role assumption. For
/// temporary credentials, the session token and the expiry are both
/// present; a static, long-lived credential may have neither.
#[derive(Debug, Clone)]
pub struct Credentials {
    pub key: String,
    pub secret: String,
    pub token: Option<String>,
    pub expires_at: Option<Timestamp>,
}

impl Credentials {
    pub fn key(&self) -> (r: &str)
        ensures
            r@ == self.key@,
    {
        self.key.as_str()
    }

    pub fn secret(&self) -> (r: &str)
        ensures
            r@ == self.secret@,
    {
        self.secret.as_str()
    }

    pub fn token(&self) -> (r: Option<&str>)
        ensures
            opt_str_chars(r) == opt_chars(self.token),
    {
        crate::profile::maybe_str_ref(self.token.as_ref())
    }

    pub fn expires_at(&self) -> (r: Option<Timestamp>)
        ensures
            r == self.expires_at,
    {
        self.expires_at
    }
}

/// The single value that reaches the chosen delivery destination: one
/// producer (role assumption), one consumer.
#[derive(Debug, Clone)]
pub struct ProfileCredentials {
    pub profile_name: String,
    pub region_name: String,
    pub credentials: Credentials,
}

} // verus!
