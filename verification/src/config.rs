//! The settings that the client keeps from one run to the next.

use vstd::prelude::*;
use vstd::string::*;

verus! {

/// The kept settings.
#[derive(Debug, Clone)]
pub struct Config {
    /// The endpoint that was used last.
    pub endpoint: Option<String>,
    /// The user name that was used last.
    pub username: Option<String>,
}

impl Default for Config {
    fn default() -> (config: Config)
        ensures
            config.endpoint is None,
            config.username is None,
    {
        Config { endpoint: None, username: None }
    }
}

/// The endpoint that is used where none is set anywhere.
pub open spec fn default_endpoint() -> Seq<char> {
    "http://localhost:2633/RPC2"@
}

impl Config {
    /// The endpoint to use: the one from the environment, else the kept
    /// one, else the default.
    pub open spec fn effective(self, from_environment: Option<Seq<char>>) -> Seq<char> {
        match from_environment {
            Some(endpoint) => endpoint,
            None => match self.endpoint {
                Some(endpoint) => endpoint@,
                None => default_endpoint(),
            },
        }
    }

    /// The endpoint to use, given what the environment sets.
    pub fn effective_endpoint(&self, from_environment: Option<String>) -> (endpoint: String)
        ensures
            endpoint@ == self.effective(crate::text::option_text(from_environment)),
    {
        match from_environment {
            Some(endpoint) => endpoint,
            None => match &self.endpoint {
                Some(endpoint) => endpoint.clone(),
                None => String::from_str("http://localhost:2633/RPC2"),
            },
        }
    }

    /// Keeps an endpoint as the one used last.
    pub fn set_endpoint(&mut self, endpoint: &str)
        ensures
            final(self).endpoint matches Some(e) && e@ == endpoint@,
            final(self).username == old(self).username,
    {
        self.endpoint = Some(String::from_str(endpoint));
    }
}

} // verus!
