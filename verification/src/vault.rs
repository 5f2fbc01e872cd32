//! The password sub-vault: a list of credentials that is serialized and
//! sealed as one payload.

use vstd::prelude::*;

verus! {

/// The credentials for one service.
#[derive(Debug, Clone)]
pub struct VaultEntry {
    /// Identifies the entry for updates and deletions.
    pub id: String,
    /// The name of the website or service.
    pub service: String,
    /// The login name or e-mail address.
    pub username: String,
    /// The secret password.
    pub password: String,
    /// Free-text notes.
    pub notes: String,
    /// When the entry was created, in milliseconds since the epoch.
    pub created_at: i64,
    /// The website's address.
    pub url: String,
    /// The colour of the entry's card, as a hex code.
    pub color: String,
    /// Whether the entry is pinned to the top.
    pub is_pinned: bool,
}

/// The list of all stored credentials.
#[derive(Debug)]
pub struct PasswordVault {
    pub entries: Vec<VaultEntry>,
}

impl PasswordVault {
    /// An empty vault.
    pub fn new() -> (vault: PasswordVault)
        ensures
            vault.entries@.len() == 0,
    {
        PasswordVault { entries: Vec::new() }
    }
}

} // verus!
