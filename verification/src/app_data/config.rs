//! The settings file: the API keys of the model providers.
use vstd::prelude::*;

verus! {

/// The name of the settings file in the settings directory.
pub const API_KEYS_FILE_NAME: &'static str = "config.toml";

/// The API keys, each absent when not set.
pub struct ApiKeys {
    pub zai: Option<String>,
    pub gemini: Option<String>,
}

impl Default for ApiKeys {
    fn default() -> (r: Self)
        ensures
            r.zai is None,
            r.gemini is None,
    {
        ApiKeys { zai: None, gemini: None }
    }
}

impl Clone for ApiKeys {
    fn clone(&self) -> (r: Self)
        ensures
            r == *self,
    {
        ApiKeys { zai: self.zai.clone(), gemini: self.gemini.clone() }
    }
}

pub struct Config {
    pub api_keys: ApiKeys,
}

impl Default for Config {
    fn default() -> (r: Self)
        ensures
            r.api_keys.zai is None,
            r.api_keys.gemini is None,
    {
        Config { api_keys: ApiKeys::default() }
    }
}

impl Clone for Config {
    fn clone(&self) -> (r: Self)
        ensures
            r == *self,
    {
        Config { api_keys: self.api_keys.clone() }
    }
}

/// What a new settings file holds: the keys' table with both keys empty.
pub fn config_template() -> (r: &'static str)
    ensures
        r@ == "[api_keys]\nzai=\"\"\ngemini=\"\""@,
{
    "[api_keys]\nzai=\"\"\ngemini=\"\""
}

} // verus!
