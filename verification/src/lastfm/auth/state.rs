//! Whether a client may act for a user, as a matter of its type.

use vstd::prelude::*;

use crate::lastfm::auth::SessionKey;

verus! {

/// The two standings of a client.
pub trait AuthorizationStatus {
    /// Whether a client of this standing holds a session key.
    spec fn authorized() -> bool;

    /// Computes [`AuthorizationStatus::authorized`].
    fn is_authorized() -> (b: bool)
        ensures
            b == Self::authorized(),
    ;
}

/// The standing of a client that holds no session key: it can ask for an
/// authorization token and trade a confirmed one for a session key, and
/// nothing else.
#[derive(Debug)]
pub struct Unauthorized;

/// The standing of a client that holds a session key, and the key.
#[derive(Debug)]
pub struct Authorized {
    pub(crate) session_key: SessionKey,
}

impl AuthorizationStatus for Unauthorized {
    open spec fn authorized() -> bool {
        false
    }

    fn is_authorized() -> (b: bool) {
        false
    }
}

impl AuthorizationStatus for Authorized {
    open spec fn authorized() -> bool {
        true
    }

    fn is_authorized() -> (b: bool) {
        true
    }
}

impl Authorized {
    /// The session key that comes with this standing.
    pub closed spec fn key(self) -> SessionKey {
        self.session_key
    }
}

} // verus!
