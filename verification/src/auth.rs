//! Credential records. Retrieval (credential files, the system
//! keychain) is the shell's: only the data shape lives here.

use vstd::prelude::*;

verus! {

/// OAuth credentials as stored by the agent tooling.
#[derive(Debug, Clone)]
pub struct OAuthCredentials {
    pub access_token: String,
    pub refresh_token: String,
    /// Expiry, in milliseconds since the Unix epoch.
    pub expires_at: i64,
    pub scopes: Vec<String>,
}

} // verus!
