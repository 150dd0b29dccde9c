//! The records the stores hold: accounts with their credentials, and the
//! relationships between an account and its peers.

use vstd::prelude::*;

verus! {

/// An account on whose behalf the workers act, with its long-lived
/// credential.
#[derive(Debug, Clone, PartialEq, Eq)]
pub struct User {
    pub id: i64,
    pub access_key: String,
    pub access_secret: String,
}

/// The credential obtained for an account at login.
#[derive(Debug, Clone, PartialEq, Eq)]
pub struct AccessToken {
    pub id: i64,
    pub access_key: String,
    pub access_secret: String,
}

/// A peer that an account has exempted.
#[derive(Debug, Clone, PartialEq, Eq)]
pub struct WhiteList {
    pub source_id: i64,
    pub target_id: i64,
}

/// One stored relationship: `target_id` is a follower, or a friend, of
/// `source_id`, last confirmed at `updated_at` (seconds since the epoch).
#[derive(Debug, Clone, PartialEq, Eq)]
pub struct Relationship {
    pub source_id: i64,
    pub target_id: i64,
    pub updated_at: i64,
}

/// The bearer credential of an account.
#[derive(Debug, Clone, PartialEq, Eq)]
pub struct Credential {
    pub access_key: String,
    pub access_secret: String,
}

/// The credential of an account.
pub open spec fn credential_of(account: User) -> Credential {
    Credential { access_key: account.access_key, access_secret: account.access_secret }
}

impl User {
    /// A copy of this account's credential.
    pub fn credential(&self) -> (c: Credential)
        ensures
            c == credential_of(*self),
    {
        Credential {
            access_key: self.access_key.clone(),
            access_secret: self.access_secret.clone(),
        }
    }
}

impl Credential {
    /// A copy of this credential.
    pub fn duplicate(&self) -> (c: Credential)
        ensures
            c == *self,
    {
        Credential {
            access_key: self.access_key.clone(),
            access_secret: self.access_secret.clone(),
        }
    }
}

} // verus!
