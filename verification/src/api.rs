//! The rules of the HTTP surface: which reply each endpoint gives, once the
//! remote and the store have answered.

use crate::account::{AccessToken, Credential};
use crate::bits::{signed, to_signed};
use vstd::prelude::*;

verus! {

/// The status of a redirect.
pub const STATUS_FOUND: u16 = 302;

/// The status of a successful identity check.
pub const STATUS_OK: u16 = 200;

/// The status for a credential that is missing or was refused.
pub const STATUS_BAD_REQUEST: u16 = 400;

/// The status for a failure of the remote or of the store.
pub const STATUS_SERVER_ERROR: u16 = 500;

/// A reply of one of the endpoints.
#[derive(Debug, Clone, PartialEq, Eq)]
pub enum Reply {
    /// Send the caller on to this location.
    Redirect(String),
    /// The caller is this account on the remote.
    Identity { screen_name: String, id: u64 },
    /// The caller's credential is missing or was refused.
    BadRequest,
    /// The remote or the store failed.
    ServerError,
}

/// What the remote answered when asked whose credential this is.
#[derive(Debug, Clone, PartialEq, Eq)]
pub enum Verification {
    /// The credential belongs to this account.
    Valid { screen_name: String, id: u64 },
    /// The credential was refused.
    Refused,
    /// The remote could not be asked.
    Failed,
}

/// What the callback endpoint does after the exchange with the remote.
#[derive(Debug, Clone, PartialEq, Eq)]
pub enum AfterExchange {
    /// Store this credential, then reply as the outcome of storing says.
    Save(AccessToken),
    /// Reply at once.
    Reply(Reply),
}

/// The status code that goes with a reply.
pub open spec fn status_of(reply: Reply) -> u16 {
    match reply {
        Reply::Redirect(_) => STATUS_FOUND,
        Reply::Identity { .. } => STATUS_OK,
        Reply::BadRequest => STATUS_BAD_REQUEST,
        Reply::ServerError => STATUS_SERVER_ERROR,
    }
}

impl Reply {
    /// The status code that goes with the reply.
    pub fn status(&self) -> (code: u16)
        ensures
            code == status_of(*self),
    {
        match self {
            Reply::Redirect(_) => STATUS_FOUND,
            Reply::Identity { .. } => STATUS_OK,
            Reply::BadRequest => STATUS_BAD_REQUEST,
            Reply::ServerError => STATUS_SERVER_ERROR,
        }
    }
}

/// Reads the caller's credential from the two cookies that carry it. Both
/// must be there.
pub fn credential_from_cookies(key: Option<String>, secret: Option<String>) -> (credential: Option<
    Credential,
>)
    ensures
        credential == match (key, secret) {
            (Some(access_key), Some(access_secret)) => Some(
                Credential { access_key, access_secret },
            ),
            _ => None,
        },
{
    match (key, secret) {
        (Some(access_key), Some(access_secret)) => Some(Credential { access_key, access_secret }),
        _ => None,
    }
}

/// `egg_mode::auth::authorize_url`, on a request token with the given key:
/// the address of the remote's authorisation page for that token, which the
/// client library forms by appending the key to a fixed address.
#[verifier::external_body]
fn authorize_url(request_key: &String) -> (url: String)
    ensures
        url@ == "https://api.twitter.com/oauth/authorize?oauth_token="@ + request_key@,
{
    egg_mode::auth::authorize_url(&egg_mode::KeyPair::new(request_key.clone(), ""))
}

/// The reply of the login endpoint, given the key of the request token the
/// remote issued: a redirect to the remote's authorisation page for that
/// token, or a server error if the remote issued none.
pub fn login_reply(request_key: Option<String>) -> (reply: Reply)
    ensures
        match request_key {
            Some(key) => reply matches Reply::Redirect(location) && location@
                == "https://api.twitter.com/oauth/authorize?oauth_token="@ + key@,
            None => reply == Reply::ServerError,
        },
{
    match request_key {
        Some(key) => Reply::Redirect(authorize_url(&key)),
        None => Reply::ServerError,
    }
}

/// What the callback endpoint does once the remote has answered the
/// exchange: a granted credential is stored under the account's id, a
/// failed exchange is a server error.
pub fn after_exchange(granted: Option<(u64, Credential)>) -> (next: AfterExchange)
    ensures
        next == match granted {
            Some((id, credential)) => AfterExchange::Save(
                AccessToken {
                    id: signed(id),
                    access_key: credential.access_key,
                    access_secret: credential.access_secret,
                },
            ),
            None => AfterExchange::Reply(Reply::ServerError),
        },
{
    match granted {
        Some((id, credential)) => AfterExchange::Save(
            AccessToken {
                id: to_signed(id),
                access_key: credential.access_key,
                access_secret: credential.access_secret,
            },
        ),
        None => AfterExchange::Reply(Reply::ServerError),
    }
}

/// The reply of the callback endpoint once the credential has been handed
/// to the store: a redirect to the front page, or a server error if the
/// store failed.
pub fn callback_reply(saved: bool) -> (reply: Reply)
    ensures
        saved ==> (reply matches Reply::Redirect(location) && location@ == "/"@),
        !saved ==> reply == Reply::ServerError,
{
    if saved {
        Reply::Redirect("/".to_owned())
    } else {
        Reply::ServerError
    }
}

/// The reply of the identity endpoint. A caller without a credential is
/// turned away before the remote is asked; so is one whose credential the
/// remote refuses. A remote that cannot be asked is a server error.
pub fn identity_reply(verification: Option<Verification>) -> (reply: Reply)
    ensures
        reply == match verification {
            None => Reply::BadRequest,
            Some(Verification::Valid { screen_name, id }) => Reply::Identity { screen_name, id },
            Some(Verification::Refused) => Reply::BadRequest,
            Some(Verification::Failed) => Reply::ServerError,
        },
{
    match verification {
        None => Reply::BadRequest,
        Some(Verification::Valid { screen_name, id }) => Reply::Identity { screen_name, id },
        Some(Verification::Refused) => Reply::BadRequest,
        Some(Verification::Failed) => Reply::ServerError,
    }
}

} // verus!
