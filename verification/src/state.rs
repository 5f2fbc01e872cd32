//! The session: whether the vault is unlocked, and the master key while it
//! is.

use vstd::prelude::*;
use crate::error::VaultError;
use crate::keys::MasterKey;

verus! {

/// The holder of the decrypted master key. It is either locked, and holds
/// nothing, or unlocked, and holds the key.
pub struct SessionState {
    master_key: Option<MasterKey>,
}

impl View for SessionState {
    type V = Option<Seq<u8>>;

    /// The key held, or nothing while locked.
    closed spec fn view(&self) -> Option<Seq<u8>> {
        match self.master_key {
            Some(k) => Some(k@),
            None => None,
        }
    }
}

impl SessionState {
    /// A locked session.
    pub fn new() -> (session: SessionState)
        ensures
            session@ is None,
    {
        SessionState { master_key: None }
    }

    /// Whether the session holds a key.
    pub fn is_unlocked(&self) -> (unlocked: bool)
        ensures
            unlocked == (self@ is Some),
    {
        self.master_key.is_some()
    }

    /// Replaces what the session holds. A key that was held before is
    /// overwritten with zeros first.
    pub fn set_mk(&mut self, master_key: Option<MasterKey>)
        ensures
            final(self)@ == (match master_key {
                Some(k) => Some(k@),
                None => None,
            }),
    {
        let mut previous: Option<MasterKey> = None;
        std::mem::swap(&mut self.master_key, &mut previous);
        match previous {
            Some(mut k) => {
                k.erase();
            },
            None => {},
        }
        self.master_key = master_key;
    }

    /// A copy of the key for one operation, or `SessionLocked` where the
    /// session holds none. The session itself is left as it is.
    pub fn get_mk(&self) -> (out: Result<MasterKey, VaultError>)
        ensures
            match self@ {
                Some(k) => out matches Ok(copy) && copy@ == k,
                None => out == Err::<MasterKey, VaultError>(VaultError::SessionLocked),
            },
    {
        match &self.master_key {
            Some(k) => Ok(k.duplicate()),
            None => Err(VaultError::SessionLocked),
        }
    }

    /// Unlocks the session with `master_key`.
    pub fn login(&mut self, master_key: MasterKey)
        ensures
            final(self)@ == Some(master_key@),
    {
        self.set_mk(Some(master_key));
    }

    /// Locks the session and overwrites the key it held.
    pub fn logout(&mut self)
        ensures
            final(self)@ is None,
    {
        self.set_mk(None);
    }
}

/// What the user is to be shown when the application starts.
#[derive(Clone, Copy, Debug, PartialEq, Eq, Structural)]
pub enum AuthStatus {
    /// The session holds the key.
    Unlocked,
    /// A keychain exists, and the session holds no key.
    Locked,
    /// No keychain exists yet.
    SetupNeeded,
}

/// The status for a session and for whether a keychain is present.
pub open spec fn auth_status(unlocked: bool, keychain_present: bool) -> AuthStatus {
    if unlocked {
        AuthStatus::Unlocked
    } else if keychain_present {
        AuthStatus::Locked
    } else {
        AuthStatus::SetupNeeded
    }
}

/// Tells what state the vault is in.
pub fn check_auth_status(session: &SessionState, keychain_present: bool) -> (status: AuthStatus)
    ensures
        status == auth_status(session@ is Some, keychain_present),
{
    if session.is_unlocked() {
        AuthStatus::Unlocked
    } else if keychain_present {
        AuthStatus::Locked
    } else {
        AuthStatus::SetupNeeded
    }
}

} // verus!
