//! Who asks: the client's identity, and the credentials of the authorization
//! handshake.
//!
//! The handshake has three steps. The client asks for a token, with a request
//! that carries its key alone and no signature. The user confirms the token
//! at the address that [`AuthorizationToken::generate_authorization_url`]
//! gives. The client then trades the token for a session key, with a signed
//! request over the token; the token is used up by that.

use vstd::prelude::*;
use vstd::string::StringExecFns;

use crate::lastfm::parameters::{signature_of, Parameters};

pub mod state;

verus! {

/// How many digits a key or a secret has.
pub const CREDENTIAL_LENGTH: usize = 32;

/// Whether `c` is a digit of base sixteen, in either case.
pub open spec fn is_hex_digit(c: char) -> bool {
    ('0' <= c <= '9') || ('a' <= c <= 'f') || ('A' <= c <= 'F')
}

/// Whether `text` has the form of a key or a secret: thirty-two
/// hexadecimal digits.
pub open spec fn is_credential(text: Seq<char>) -> bool {
    text.len() == CREDENTIAL_LENGTH && forall|i: int|
        0 <= i < text.len() ==> is_hex_digit(#[trigger] text[i])
}

/// Computes [`is_credential`].
pub fn check_credential(text: &str) -> (valid: bool)
    ensures
        valid == is_credential(text@),
{
    broadcast use vstd::string::is_ascii_spec_bytes;

    if !text.is_ascii() {
        proof {
            if is_credential(text@) {
                assert forall|i: int| 0 <= i < text@.len() implies '\0' <= #[trigger] text@[i]
                    <= '\u{7f}' by {
                    assert(is_hex_digit(text@[i]));
                }
            }
        }
        return false;
    }
    let bytes = text.as_bytes();
    if bytes.len() != CREDENTIAL_LENGTH {
        return false;
    }
    let mut i: usize = 0;
    while i < bytes.len()
        invariant
            i <= bytes@.len(),
            bytes@.len() == text@.len(),
            bytes@.len() == CREDENTIAL_LENGTH,
            forall|j: int| 0 <= j < bytes@.len() ==> bytes@[j] == (#[trigger] text@[j]) as u8,
            forall|j: int| 0 <= j < bytes@.len() ==> '\0' <= #[trigger] text@[j] <= '\u{7f}',
            forall|j: int| 0 <= j < i ==> is_hex_digit(#[trigger] text@[j]),
        decreases bytes@.len() - i,
    {
        let b = bytes[i];
        let digit = (b >= 48 && b <= 57) || (b >= 97 && b <= 102) || (b >= 65 && b <= 70);
        proof {
            let c = text@[i as int];
            assert('\0' <= c <= '\u{7f}');
            assert(b == c as u8);
            assert(digit == is_hex_digit(c));
        }
        if !digit {
            return false;
        }
        i += 1;
    }
    true
}

/// Why an identity was refused.
#[derive(Clone, Copy, Debug, PartialEq, Eq, Structural)]
pub enum IdentityError {
    /// The key is not thirty-two hexadecimal digits.
    BadKey,
    /// The secret is not thirty-two hexadecimal digits.
    BadSecret,
}

/// The identity of the client towards the service: the name it sends as
/// its user agent, its key, and the secret that it shares with the service.
#[derive(Debug)]
pub struct ClientIdentity {
    user_agent: String,
    key: String,
    secret: String,
}

impl Clone for ClientIdentity {
    fn clone(&self) -> (copy: Self)
        ensures
            copy == *self,
    {
        proof {
            use_type_invariant(self);
        }
        ClientIdentity {
            user_agent: self.user_agent.clone(),
            key: self.key.clone(),
            secret: self.secret.clone(),
        }
    }
}

impl ClientIdentity {
    #[verifier::type_invariant]
    spec fn well_formed(self) -> bool {
        is_credential(self.key@) && is_credential(self.secret@)
    }

    /// The user agent as text.
    pub closed spec fn agent(self) -> Seq<char> {
        self.user_agent@
    }

    /// The key as text.
    pub closed spec fn key(self) -> Seq<char> {
        self.key@
    }

    /// The secret as text.
    pub closed spec fn secret(self) -> Seq<char> {
        self.secret@
    }

    /// An identity, where `key` and `secret` have the form of credentials.
    /// The key is looked at first.
    pub fn new(user_agent: String, key: &str, secret: &str) -> (r: Result<Self, IdentityError>)
        ensures
            r is Ok <==> is_credential(key@) && is_credential(secret@),
            r matches Ok(identity) ==> identity.agent() == user_agent@ && identity.key() == key@
                && identity.secret() == secret@,
            r matches Err(e) ==> e == (if is_credential(key@) {
                IdentityError::BadSecret
            } else {
                IdentityError::BadKey
            }),
    {
        if !check_credential(key) {
            return Err(IdentityError::BadKey);
        }
        if !check_credential(secret) {
            return Err(IdentityError::BadSecret);
        }
        Ok(ClientIdentity { user_agent, key: String::from_str(key), secret: String::from_str(secret) })
    }

    /// The name that the client sends as its user agent.
    pub fn user_agent(&self) -> (agent: &str)
        ensures
            agent@ == self.agent(),
    {
        self.user_agent.as_str()
    }

    pub fn get_key(&self) -> (key: &str)
        ensures
            key@ == self.key(),
            is_credential(key@),
    {
        proof {
            use_type_invariant(self);
        }
        self.key.as_str()
    }

    pub fn get_secret(&self) -> (secret: &str)
        ensures
            secret@ == self.secret(),
            is_credential(secret@),
    {
        proof {
            use_type_invariant(self);
        }
        self.secret.as_str()
    }

    /// Whether `self` and `other` are the same identity: the same
    /// user agent, key and secret.
    pub open spec fn same_as(self, other: ClientIdentity) -> bool {
        self.agent() == other.agent() && self.key() == other.key() && self.secret()
            == other.secret()
    }

    /// Computes [`ClientIdentity::same_as`].
    pub fn is_same_as(&self, other: &ClientIdentity) -> (same: bool)
        ensures
            same == self.same_as(*other),
    {
        self.user_agent == other.user_agent && self.key == other.key && self.secret == other.secret
    }

    /// The parameters of the request for an authorization token. It carries
    /// the client's key and no signature.
    pub fn generate_authorization_token(&self) -> (request: Parameters)
        ensures
            request@ == token_request(self.key()),
    {
        let mut request = Parameters::new();
        request.add(String::from_str("method"), String::from_str("auth.getToken"));
        request.add(String::from_str("api_key"), self.key.clone());
        request.add(String::from_str("format"), String::from_str("json"));
        request
    }
}

/// The parameters of the request for an authorization token.
pub open spec fn token_request(key: Seq<char>) -> Map<Seq<char>, Seq<char>> {
    Map::<Seq<char>, Seq<char>>::empty().insert("method"@, "auth.getToken"@).insert(
        "api_key"@,
        key,
    ).insert("format"@, "json"@)
}

/// The parameters of the request that trades `token` for a session key,
/// signed under `secret`.
pub open spec fn session_request(key: Seq<char>, secret: Seq<char>, token: Seq<char>) -> Map<
    Seq<char>,
    Seq<char>,
> {
    let signed = Map::<Seq<char>, Seq<char>>::empty().insert("method"@, "auth.getSession"@).insert(
        "api_key"@,
        key,
    ).insert("token"@, token);
    signed.insert("api_sig"@, signature_of(signed, secret)).insert("format"@, "json"@)
}

/// The address at which the user confirms `token` for the client with `key`.
pub open spec fn authorization_url(key: Seq<char>, token: Seq<char>) -> Seq<char> {
    "https://www.last.fm/api/auth/?api_key="@ + key + "&token="@ + token
}

/// The key of a session: the user's lasting permission for the client to act
/// for them, until the user takes it back.
#[derive(Debug)]
pub struct SessionKey(String);

impl View for SessionKey {
    type V = Seq<char>;

    closed spec fn view(&self) -> Seq<char> {
        self.0@
    }
}

impl Clone for SessionKey {
    fn clone(&self) -> (copy: Self)
        ensures
            copy == *self,
    {
        SessionKey(self.0.clone())
    }
}

impl SessionKey {
    pub fn new(key: String) -> (session_key: Self)
        ensures
            session_key@ == key@,
    {
        SessionKey(key)
    }

    pub fn as_str(&self) -> (key: &str)
        ensures
            key@ == self@,
    {
        self.0.as_str()
    }
}

/// A token of the handshake: short-lived, and good for one session key.
#[derive(Debug)]
pub struct AuthorizationToken(String);

impl View for AuthorizationToken {
    type V = Seq<char>;

    closed spec fn view(&self) -> Seq<char> {
        self.0@
    }
}

impl AuthorizationToken {
    pub fn new(token: String) -> (authorization_token: Self)
        ensures
            authorization_token@ == token@,
    {
        AuthorizationToken(token)
    }

    /// The address at which the user confirms this token.
    pub fn generate_authorization_url(&self, identity: &ClientIdentity) -> (url: String)
        ensures
            url@ == authorization_url(identity.key(), self@),
    {
        let mut url = String::from_str("https://www.last.fm/api/auth/?api_key=");
        url.append(identity.get_key());
        url.append("&token=");
        url.append(self.0.as_str());
        url
    }

    /// The parameters of the signed request that trades this token for a
    /// session key. The token is given up with the call.
    pub fn generate_session_key(self, identity: &ClientIdentity) -> (request: Parameters)
        ensures
            request@ == session_request(identity.key(), identity.secret(), self@),
    {
        let mut request = Parameters::new();
        request.add(String::from_str("method"), String::from_str("auth.getSession"));
        request.add(String::from_str("api_key"), String::from_str(identity.get_key()));
        request.add(String::from_str("token"), self.0);
        let signature = request.sign(identity.get_secret());
        request.add(String::from_str("api_sig"), signature);
        request.add(String::from_str("format"), String::from_str("json"));
        request
    }
}

} // verus!
