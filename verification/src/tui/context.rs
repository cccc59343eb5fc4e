//! What a key press needs to know of the world outside the interface.

use vstd::prelude::*;
use crate::text;
use crate::text::texts;
use crate::text_map::TextMap;

verus! {

/// What the settings registry says of the value being edited.
pub struct SettingCheck {
    /// Whether the value reads as a truth value.
    pub bool_like: bool,
    /// The allowed values, where the setting lists them and the value is not one of them.
    pub allowed: Option<Vec<String>>,
}

/// What a key press needs to know of the world outside the interface.
pub struct KeyContext {
    /// The time, in milliseconds.
    pub now: u64,
    pub setting_check: SettingCheck,
    /// The provider types that the registry knows.
    pub provider_types: Vec<String>,
    /// For each provider type the environment variables that hold its credentials.
    pub provider_env_vars: TextMap<Vec<String>>,
    /// The credentials found in the environment for the provider type being created.
    pub discovered: Option<TextMap<String>>,
}

impl KeyContext {
    /// The environment variables that hold the credentials of `provider_type`.
    pub open spec fn env_vars(self, provider_type: Seq<char>) -> Seq<Seq<char>> {
        if self.provider_env_vars@.dom().contains(provider_type) {
            texts(self.provider_env_vars@[provider_type]@)
        } else {
            Seq::empty()
        }
    }

    /// The environment variables that hold the credentials of `provider_type`.
    pub fn credential_env_vars(&self, provider_type: &str) -> (names: Vec<String>)
        ensures
            texts(names@) == self.env_vars(provider_type@),
    {
        match self.provider_env_vars.get(provider_type) {
            Some(names) => text::copy_texts(names),
            None => {
                let names: Vec<String> = Vec::new();
                assert(texts(names@) =~= Seq::empty());
                names
            },
        }
    }
}

} // verus!
