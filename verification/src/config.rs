//! Configuration of a provider whose tokens expire.

use crate::delay::DEFAULT_REFRESH_INTERVAL_SECS;
use vstd::prelude::*;

verus! {

/// OAuth token refresh configuration for a model provider.
#[derive(Debug, Clone, PartialEq)]
pub struct OAuthConfig {
    /// Path to the refresh endpoint, relative to the base URL of the provider,
    /// such as `tokens/refresh`.
    pub refresh_path: String,
    /// Refresh interval in seconds where the server does not return a usable
    /// time to live; [`DEFAULT_REFRESH_INTERVAL_SECS`] if absent.
    pub refresh_interval_secs: Option<u64>,
    /// Value of the `api-version` header.
    pub api_version: String,
    /// Name of the environment variable with the `subscription-key` header value.
    pub subscription_key_env: String,
    /// Name of the environment variable with the refresh token for the very
    /// first refresh call.
    pub initial_refresh_token_env: String,
    /// Name of the environment variable with the `api-token` value for the very
    /// first refresh call. If absent, that call sends an empty string.
    pub initial_api_token_env: Option<String>,
}

impl OAuthConfig {
    /// The refresh interval that counts where the server names none.
    pub open spec fn fallback_interval_spec(self) -> u64 {
        match self.refresh_interval_secs {
            Some(secs) => secs,
            None => DEFAULT_REFRESH_INTERVAL_SECS,
        }
    }

    /// Names of the environment variables to look up, in order.
    pub open spec fn env_names_spec(self) -> Seq<Seq<char>> {
        let required = seq![self.subscription_key_env@, self.initial_refresh_token_env@];
        match self.initial_api_token_env {
            Some(name) => required.push(name@),
            None => required,
        }
    }

    /// The refresh interval that counts where the server names none.
    pub fn fallback_interval(&self) -> (secs: u64)
        ensures
            secs == self.fallback_interval_spec(),
            self.refresh_interval_secs matches Some(configured) ==> secs == configured,
            self.refresh_interval_secs is None ==> secs == 1500,
    {
        match self.refresh_interval_secs {
            Some(secs) => secs,
            None => DEFAULT_REFRESH_INTERVAL_SECS,
        }
    }

    /// Names of the environment variables to look up, in order.
    pub fn env_names(&self) -> (names: Vec<String>)
        ensures
            names@.map_values(|name: String| name@) == self.env_names_spec(),
            names@.len() == if self.initial_api_token_env is Some {
                3int
            } else {
                2
            },
            names@[0]@ == self.subscription_key_env@,
            names@[1]@ == self.initial_refresh_token_env@,
            self.initial_api_token_env matches Some(name) ==> names@[2]@ == name@,
    {
        let mut names: Vec<String> = Vec::new();
        names.push(self.subscription_key_env.clone());
        names.push(self.initial_refresh_token_env.clone());
        if let Some(name) = &self.initial_api_token_env {
            names.push(name.clone());
        }
        assert(names@.map_values(|name: String| name@) =~= self.env_names_spec());
        names
    }
}

} // verus!
