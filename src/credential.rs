//! Credentials for API authentication.

use vstd::prelude::*;
use vstd::string::*;
use crate::error::TencentCloudError;
use crate::text::{opt_str_view, opt_view};

verus! {

/// Credentials for API authentication.
#[derive(Clone, Debug)]
pub struct Credential {
    /// Secret ID for authentication.
    pub secret_id: String,
    /// Secret key for authentication.
    pub secret_key: String,
    /// Session token for temporary credentials.
    pub token: Option<String>,
}

impl Credential {
    /// Credentials with the given ID, key and optional session token.
    pub fn new(secret_id: &str, secret_key: &str, token: Option<&str>) -> (r: Self)
        ensures
            r.secret_id@ == secret_id@,
            r.secret_key@ == secret_key@,
            opt_view(r.token) == opt_str_view(token),
    {
        let token = match token {
            Some(t) => Some(String::from_str(t)),
            None => None,
        };
        Credential {
            secret_id: String::from_str(secret_id),
            secret_key: String::from_str(secret_key),
            token,
        }
    }

    /// Checks that the ID and the key are both non-empty; an empty one is an
    /// authentication error, the ID checked first.
    pub fn validate(&self) -> (r: Result<(), TencentCloudError>)
        ensures
            self.secret_id@.len() == 0 ==> (r matches Err(TencentCloudError::Auth(m)) && m@
                == "Secret ID cannot be empty"@),
            self.secret_id@.len() != 0 && self.secret_key@.len() == 0 ==> (r matches Err(
                TencentCloudError::Auth(m),
            ) && m@ == "Secret Key cannot be empty"@),
            self.secret_id@.len() != 0 && self.secret_key@.len() != 0 ==> r is Ok,
    {
        if self.secret_id.as_str().is_empty() {
            return Err(TencentCloudError::auth("Secret ID cannot be empty"));
        }
        if self.secret_key.as_str().is_empty() {
            return Err(TencentCloudError::auth("Secret Key cannot be empty"));
        }
        Ok(())
    }

    /// The secret ID.
    pub fn secret_id(&self) -> (r: &str)
        ensures
            r@ == self.secret_id@,
    {
        self.secret_id.as_str()
    }

    /// The secret key.
    pub fn secret_key(&self) -> (r: &str)
        ensures
            r@ == self.secret_key@,
    {
        self.secret_key.as_str()
    }

    /// The session token, if any.
    pub fn token(&self) -> (r: Option<&str>)
        ensures
            opt_str_view(r) == opt_view(self.token),
    {
        match &self.token {
            Some(t) => Some(t.as_str()),
            None => None,
        }
    }

    /// Whether there is a session token.
    pub fn has_token(&self) -> (r: bool)
        ensures
            r == self.token is Some,
    {
        self.token.is_some()
    }

    /// Replaces the session token.
    pub fn set_token(&mut self, token: Option<&str>)
        ensures
            opt_view(final(self).token) == opt_str_view(token),
            final(self).secret_id == old(self).secret_id,
            final(self).secret_key == old(self).secret_key,
    {
        self.token = match token {
            Some(t) => Some(String::from_str(t)),
            None => None,
        };
    }
}

impl Default for Credential {
    /// Credentials with an empty ID and key and no token.
    fn default() -> (r: Self)
        ensures
            r.secret_id@.len() == 0,
            r.secret_key@.len() == 0,
            r.token is None,
    {
        Credential { secret_id: String::new(), secret_key: String::new(), token: None }
    }
}

} // verus!
