use vstd::prelude::*;

verus! {

/// A persisted access token: an opaque token string bound to an account.
#[derive(Debug)]
pub struct AccessToken {
    /// Store-assigned identifier, unique among all records ever created.
    pub id: u64,
    /// The owning account.
    pub account_id: u64,
    /// The opaque token string, unique across all accounts.
    pub token: String,
    /// Informational creation time, supplied by the caller.
    pub created_at: u64,
}

impl AccessToken {
    /// A field-for-field copy of this record.
    pub fn duplicate(&self) -> (r: AccessToken)
        ensures
            r == *self,
    {
        AccessToken {
            id: self.id,
            account_id: self.account_id,
            token: self.token.clone(),
            created_at: self.created_at,
        }
    }
}

/// The cached resolution of a token string: who it belongs to and what
/// that account may do.
#[derive(Clone, Copy, Debug, PartialEq, Eq, Structural)]
pub struct Session {
    pub account_id: u64,
    /// Account-level capability bits.
    pub flags: u32,
}

/// Everything that can go wrong in the token lifecycle.
#[derive(Clone, Copy, Debug, PartialEq, Eq, Structural)]
pub enum TokenError {
    /// A token string was already taken.
    Conflict,
    /// A referenced token id or account does not exist.
    NotFound,
    /// The presented token string does not resolve to any token.
    Unauthorized,
    /// The store or the cache could not be reached.
    Infrastructure,
    /// A freshly generated token could not be persisted.
    Issue,
}

} // verus!
