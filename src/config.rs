use vstd::prelude::*;

verus! {

/// Connection settings: the server's base URL and the API token.
#[derive(Debug, Clone)]
pub struct Config {
    pub server_url: String,
    pub api_token: String,
}

impl Config {
    /// Both the server URL and the token are set.
    pub fn is_configured(&self) -> (r: bool)
        ensures
            r == (self.server_url@.len() > 0 && self.api_token@.len() > 0),
    {
        self.server_url.as_str().unicode_len() > 0 && self.api_token.as_str().unicode_len() > 0
    }
}

impl Default for Config {
    fn default() -> (r: Config)
        ensures
            r.server_url@.len() == 0,
            r.api_token@.len() == 0,
    {
        Config { server_url: String::new(), api_token: String::new() }
    }
}

} // verus!
