//! Application settings: a plain key/value record persisted by the
//! shell; only the defaults are decided here.

use vstd::prelude::*;
use vstd::string::StringExecFns;

verus! {

/// The persisted settings record.
#[derive(Debug, Clone)]
pub struct Settings {
    pub api_key: Option<String>,
    /// One of "light", "dark" or "system".
    pub theme: String,
}

impl Default for Settings {
    /// The settings used when none were saved yet: no key, system theme.
    fn default() -> (r: Settings)
        ensures
            r.api_key is None,
            r.theme@ == "system"@,
    {
        Settings { api_key: None, theme: String::from_str("system") }
    }
}

} // verus!
