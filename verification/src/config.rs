//! Validation of the optional provider configuration payload: a caller may
//! hand over raw configuration text, which is dispatched only if it is a
//! well-formed JSON document.

use vstd::prelude::*;

verus! {

/// Whether a string is a well-formed JSON document.
pub uninterp spec fn well_formed_json(s: Seq<char>) -> bool;

/// Relies on serde_json::from_str: whether a string parses as a JSON
/// document depends on the string alone.
#[verifier::external_body]
fn parses_as_json(s: &str) -> (r: bool)
    ensures
        r == well_formed_json(s@),
{
    serde_json::from_str::<serde_json::Value>(s).is_ok()
}

/// The error returned when the supplied configuration is not JSON.
#[derive(Debug)]
pub enum ConfigError {
    /// The configuration text does not parse as a JSON document.
    InvalidJson,
}

impl ConfigError {
    /// A human-readable statement of what was wrong.
    pub fn message(&self) -> (r: String)
        ensures
            r@ == "Configuration provided but was invalid JSON"@,
    {
        "Configuration provided but was invalid JSON".to_owned()
    }
}

/// Accepts the configuration untouched when there is none or when it is a
/// well-formed JSON document; rejects anything else.
pub fn validate_config(contents: Option<String>) -> (r: Result<Option<String>, ConfigError>)
    ensures
        match contents {
            Option::None => r matches Ok(c) && c is None,
            Option::Some(s) => {
                if well_formed_json(s@) {
                    r matches Ok(c) && c == Some(s)
                } else {
                    r matches Err(e) && e is InvalidJson
                }
            },
        },
{
    match contents {
        Option::None => Ok(None),
        Option::Some(s) => {
            if parses_as_json(s.as_str()) {
                Ok(Some(s))
            } else {
                Err(ConfigError::InvalidJson)
            }
        },
    }
}

} // verus!
