//! The provider's authentication state and the decision half of credential
//! resolution. Reading the environment and the credential store is outside
//! work; those values are handed in as plain options.

use vstd::prelude::*;

verus! {

/// Why authentication failed.
#[derive(Clone, Copy, PartialEq, Eq, Structural, Debug)]
pub enum AuthError {
    /// Neither the environment nor the credential store held a key.
    CredentialsNotFound,
}

/// The authentication state a provider instance owns: the resolved API key,
/// and whether it came from the environment rather than the store.
#[derive(Debug)]
pub struct State {
    pub api_key: Option<String>,
    pub api_key_from_env: bool,
}

impl State {
    /// A fresh, unauthenticated state.
    pub fn new() -> (r: State)
        ensures
            r.api_key is None,
            !r.api_key_from_env,
    {
        State { api_key: None, api_key_from_env: false }
    }

    /// Whether a key is available.
    pub fn is_authenticated(&self) -> (r: bool)
        ensures
            r == (self.api_key is Some),
    {
        self.api_key.is_some()
    }

    /// Record a key the user entered. The origin flag is untouched.
    pub fn set_api_key(&mut self, api_key: String)
        ensures
            final(self).api_key == Some(api_key),
            final(self).api_key_from_env == old(self).api_key_from_env,
    {
        self.api_key = Some(api_key);
    }

    /// Forget the key, e.g. after the stored credential was deleted.
    pub fn reset_api_key(&mut self)
        ensures
            final(self).api_key is None,
            !final(self).api_key_from_env,
    {
        self.api_key = None;
        self.api_key_from_env = false;
    }

    /// The key a streaming call must carry. When none is available the
    /// call fails here, before any network work.
    pub fn api_key_for_request(&self) -> (r: Result<String, AuthError>)
        ensures
            match r {
                Ok(k) => self.api_key == Some(k),
                Err(e) => self.api_key is None && e == AuthError::CredentialsNotFound,
            },
    {
        match &self.api_key {
            Some(key) => Ok(key.clone()),
            None => Err(AuthError::CredentialsNotFound),
        }
    }

    /// The decision half of authentication: given what the environment
    /// variable and the credential store held, adopt a key, preferring the
    /// environment. An already-authenticated state is left untouched.
    pub fn authenticate_with(
        &mut self,
        env_value: Option<String>,
        stored_value: Option<String>,
    ) -> (r: Result<(), AuthError>)
        ensures
            old(self).api_key is Some ==> r is Ok && *final(self) == *old(self),
            old(self).api_key is None ==> match resolve_api_key(env_value, stored_value) {
                Ok((key, from_env)) => {
                    &&& r is Ok
                    &&& final(self).api_key == Some(key)
                    &&& final(self).api_key_from_env == from_env
                },
                Err(e) => r == Err::<(), AuthError>(e) && *final(self) == *old(self),
            },
    {
        if self.api_key.is_some() {
            return Ok(());
        }
        match env_value {
            Some(key) => {
                self.api_key = Some(key);
                self.api_key_from_env = true;
                Ok(())
            }
            None => match stored_value {
                Some(key) => {
                    self.api_key = Some(key);
                    self.api_key_from_env = false;
                    Ok(())
                }
                None => Err(AuthError::CredentialsNotFound),
            },
        }
    }
}

/// How a key is resolved: the environment variable wins; otherwise the
/// stored credential; otherwise there is none. The flag says whether the
/// key came from the environment.
pub open spec fn resolve_api_key(
    env_value: Option<String>,
    stored_value: Option<String>,
) -> Result<(String, bool), AuthError> {
    match env_value {
        Some(key) => Ok((key, true)),
        None => match stored_value {
            Some(key) => Ok((key, false)),
            None => Err(AuthError::CredentialsNotFound),
        },
    }
}

} // verus!
