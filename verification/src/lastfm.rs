//! The scrobbling service's protocol: signed requests, the authorization
//! handshake, and the errors that the service reports.
//!
//! Nothing here talks to the network. A call that the service is to
//! receive comes out as the [`parameters::Parameters`] to send to
//! [`API_URL`]; what the service answers goes back in as plain values.

use vstd::prelude::*;
use vstd::std_specs::convert::TryFromSpecImpl;
use vstd::string::StringExecFns;

use crate::lastfm::auth::state::{Authorized, AuthorizationStatus, Unauthorized};
use crate::lastfm::auth::{ClientIdentity, SessionKey};
use crate::lastfm::parameters::{signature_of, Parameters};
use crate::lastfm::scrobble::{
    listens_of, scrobble_parameters, track_parameters, HeardTrackInfo, Scrobble,
};

pub mod auth;
pub mod digest;
pub mod parameters;
pub mod scrobble;

verus! {

/// The one address that every call goes to.
pub const API_URL: &'static str = "https://ws.audioscrobbler.com/2.0/";

/// The service's name for the call that records scrobbles.
pub const SCROBBLE: &'static str = "track.scrobble";

/// The service's name for the call that says what is playing now.
pub const UPDATE_NOW_PLAYING: &'static str = "track.updateNowPlaying";

/// A client of the service. Whether it may act for a user is part of its
/// type: what needs a session key exists on `Client<Authorized>` alone.
#[derive(Debug)]
pub struct Client<A: AuthorizationStatus> {
    identity: ClientIdentity,
    status: A,
}

/// A call before it is signed: the service's name for it, and its own
/// parameters.
#[derive(Debug)]
pub struct ApiRequest {
    /// What the service calls the "method".
    pub endpoint: &'static str,
    pub parameters: Parameters,
}

/// The parameters that are sent for a call named `endpoint` with its own
/// `parameters`: the session key, the call's name and the client's key are
/// added, all of that is signed under the client's secret, and the signature
/// and the wanted form of the answer come last, unsigned.
pub open spec fn authorized_request(
    parameters: Map<Seq<char>, Seq<char>>,
    endpoint: Seq<char>,
    session_key: Seq<char>,
    key: Seq<char>,
    secret: Seq<char>,
) -> Map<Seq<char>, Seq<char>> {
    let signed = parameters.insert("sk"@, session_key).insert("method"@, endpoint).insert(
        "api_key"@,
        key,
    );
    signed.insert("api_sig"@, signature_of(signed, secret)).insert("format"@, "json"@)
}

impl<A: AuthorizationStatus> Client<A> {
    /// The identity that the client was made with.
    pub closed spec fn identity_of(self) -> ClientIdentity {
        self.identity
    }

    pub fn identity(&self) -> (identity: &ClientIdentity)
        ensures
            *identity == self.identity_of(),
    {
        &self.identity
    }

    /// Whether the client holds a session key.
    pub fn is_authorized(&self) -> (b: bool)
        ensures
            b == A::authorized(),
    {
        A::is_authorized()
    }
}

impl Client<Unauthorized> {
    pub fn new(identity: ClientIdentity) -> (client: Client<Unauthorized>)
        ensures
            client.identity_of() == identity,
    {
        Client { identity, status: Unauthorized }
    }

    /// The same client with a session key: the one way from a client
    /// without standing to one that may act for a user.
    pub fn into_authorized(self, session_key: SessionKey) -> (client: Client<Authorized>)
        ensures
            client.identity_of() == self.identity_of(),
            client.session() == session_key,
    {
        Client { identity: self.identity, status: Authorized { session_key } }
    }
}

impl Client<Authorized> {
    /// The session key that the client holds.
    pub closed spec fn session(self) -> SessionKey {
        self.status.session_key
    }

    pub fn authorized(identity: ClientIdentity, session_key: SessionKey) -> (client: Self)
        ensures
            client.identity_of() == identity,
            client.session() == session_key,
    {
        Client { identity, status: Authorized { session_key } }
    }

    pub fn session_key(&self) -> (session_key: &SessionKey)
        ensures
            *session_key == self.session(),
    {
        &self.status.session_key
    }

    /// Completes and signs `request`: what comes out is what is sent.
    pub fn dispatch_authorized(&self, request: ApiRequest) -> (parameters: Parameters)
        ensures
            parameters@ == authorized_request(
                request.parameters@,
                request.endpoint@,
                self.session()@,
                self.identity_of().key(),
                self.identity_of().secret(),
            ),
    {
        let mut parameters = request.parameters;
        parameters.add(String::from_str("sk"), String::from_str(self.session_key().as_str()));
        parameters.add(String::from_str("method"), String::from_str(request.endpoint));
        parameters.add(String::from_str("api_key"), String::from_str(self.identity.get_key()));
        let signature = parameters.sign(self.identity.get_secret());
        parameters.add(String::from_str("api_sig"), signature);
        parameters.add(String::from_str("format"), String::from_str("json"));
        parameters
    }

    /// The signed parameters of the call that records `scrobbles`.
    pub fn scrobble(&self, scrobbles: &[Scrobble<'_>]) -> (parameters: Parameters)
        ensures
            parameters@ == authorized_request(
                scrobble_parameters(listens_of(scrobbles@)),
                SCROBBLE@,
                self.session()@,
                self.identity_of().key(),
                self.identity_of().secret(),
            ),
    {
        self.dispatch_authorized(
            ApiRequest { endpoint: SCROBBLE, parameters: Parameters::from_scrobbles(scrobbles) },
        )
    }

    /// The signed parameters of the call that says that `track` is playing
    /// now.
    pub fn set_now_listening(&self, track: &HeardTrackInfo<'_>) -> (parameters: Parameters)
        ensures
            parameters@ == authorized_request(
                track_parameters(Map::empty(), track@, None),
                UPDATE_NOW_PLAYING@,
                self.session()@,
                self.identity_of().key(),
                self.identity_of().secret(),
            ),
    {
        self.dispatch_authorized(
            ApiRequest { endpoint: UPDATE_NOW_PLAYING, parameters: Parameters::from_track(track) },
        )
    }
}

/// The errors that the service reports for any call, each under a number of
/// its own; and what stands for a number under which no error is known.
#[derive(Clone, Copy, Debug, PartialEq, Eq, Structural)]
pub enum GeneralError {
    /// The service does not exist.
    InvalidService,
    /// The service does not have the requested method.
    InvalidMethod,
    /// Lacking required permissions.
    AuthenticationFailure,
    /// Missing a required parameter.
    MissingParameter,
    /// An invalid resource was specified.
    InvalidResource,
    /// An unknown error occurred.
    UnknownError,
    /// An invalid session key was utilized.
    InvalidSessionKey,
    /// An invalid API key was utilized.
    InvalidApiKey,
    /// The service is temporarily offline. Trying again later may result in
    /// success.
    ServiceOffline,
    /// An invalid method signature was supplied.
    InvalidSignature,
    /// A temporary error occurred while processing the request. Trying again
    /// later may result in success.
    TemporaryError,
    /// The client has been suspended for abuse of the API.
    SuspendedApiKey,
    /// Ratelimit exceeded. Slow down a bit.
    RatelimitExceeded,
    /// The service gave a number under which no error is known: the number,
    /// as it came. This is not the service's own "unknown error", which has
    /// a number.
    UnknownCause(u64),
}

/// Whether the service is known to report an error under `code`.
pub open spec fn is_known_code(code: u64) -> bool {
    code == 2 || code == 3 || code == 4 || code == 6 || code == 7 || code == 8 || code == 9 || code
        == 10 || code == 11 || code == 13 || code == 16 || code == 26 || code == 29
}

/// The error that `code` stands for. Every number stands for one: a number
/// under which no error is known stands for the unknown cause of that number.
pub open spec fn error_of(code: u64) -> GeneralError {
    if code == 2 {
        GeneralError::InvalidService
    } else if code == 3 {
        GeneralError::InvalidMethod
    } else if code == 4 {
        GeneralError::AuthenticationFailure
    } else if code == 6 {
        GeneralError::MissingParameter
    } else if code == 7 {
        GeneralError::InvalidResource
    } else if code == 8 {
        GeneralError::UnknownError
    } else if code == 9 {
        GeneralError::InvalidSessionKey
    } else if code == 10 {
        GeneralError::InvalidApiKey
    } else if code == 11 {
        GeneralError::ServiceOffline
    } else if code == 13 {
        GeneralError::InvalidSignature
    } else if code == 16 {
        GeneralError::TemporaryError
    } else if code == 26 {
        GeneralError::SuspendedApiKey
    } else if code == 29 {
        GeneralError::RatelimitExceeded
    } else {
        GeneralError::UnknownCause(code)
    }
}

impl GeneralError {
    /// The number under which the service reports this error.
    pub open spec fn number(self) -> u64 {
        match self {
            GeneralError::InvalidService => 2,
            GeneralError::InvalidMethod => 3,
            GeneralError::AuthenticationFailure => 4,
            GeneralError::MissingParameter => 6,
            GeneralError::InvalidResource => 7,
            GeneralError::UnknownError => 8,
            GeneralError::InvalidSessionKey => 9,
            GeneralError::InvalidApiKey => 10,
            GeneralError::ServiceOffline => 11,
            GeneralError::InvalidSignature => 13,
            GeneralError::TemporaryError => 16,
            GeneralError::SuspendedApiKey => 26,
            GeneralError::RatelimitExceeded => 29,
            GeneralError::UnknownCause(code) => code,
        }
    }

    /// Whether the error is one that a number decodes to: an unknown cause
    /// bears a number under which no error is known.
    pub open spec fn is_decoded(self) -> bool {
        self matches GeneralError::UnknownCause(code) ==> !is_known_code(code)
    }

    /// What the error says of itself.
    pub open spec fn message(self) -> Seq<char> {
        match self {
            GeneralError::InvalidService => "invalid service"@,
            GeneralError::InvalidMethod => "invalid method"@,
            GeneralError::AuthenticationFailure => "authentication failed"@,
            GeneralError::MissingParameter => "missing required parameter"@,
            GeneralError::InvalidResource => "invalid resource specified"@,
            GeneralError::UnknownError => "unknown error"@,
            GeneralError::InvalidSessionKey => "session key is invalid"@,
            GeneralError::InvalidApiKey => "api key is invalid"@,
            GeneralError::ServiceOffline => "service is offline"@,
            GeneralError::InvalidSignature => "invalid method signature"@,
            GeneralError::TemporaryError => "a temporary error occurred"@,
            GeneralError::SuspendedApiKey => "client suspended"@,
            GeneralError::RatelimitExceeded => "ratelimit exceeded"@,
            GeneralError::UnknownCause(_) => "unknown cause"@,
        }
    }

    /// Reads the number that the service sent. Every number has an error:
    /// one under which none is known is kept, as it came, as the unknown
    /// cause.
    pub fn from_code(code: u64) -> (error: GeneralError)
        ensures
            error == error_of(code),
            !is_known_code(code) <==> error == GeneralError::UnknownCause(code),
            error.number() == code,
    {
        match code {
            2 => GeneralError::InvalidService,
            3 => GeneralError::InvalidMethod,
            4 => GeneralError::AuthenticationFailure,
            6 => GeneralError::MissingParameter,
            7 => GeneralError::InvalidResource,
            8 => GeneralError::UnknownError,
            9 => GeneralError::InvalidSessionKey,
            10 => GeneralError::InvalidApiKey,
            11 => GeneralError::ServiceOffline,
            13 => GeneralError::InvalidSignature,
            16 => GeneralError::TemporaryError,
            26 => GeneralError::SuspendedApiKey,
            29 => GeneralError::RatelimitExceeded,
            _ => GeneralError::UnknownCause(code),
        }
    }

    /// Computes [`GeneralError::number`].
    pub fn code(&self) -> (code: u64)
        ensures
            code == self.number(),
            self.is_decoded() ==> error_of(code) == *self,
    {
        match self {
            GeneralError::InvalidService => 2,
            GeneralError::InvalidMethod => 3,
            GeneralError::AuthenticationFailure => 4,
            GeneralError::MissingParameter => 6,
            GeneralError::InvalidResource => 7,
            GeneralError::UnknownError => 8,
            GeneralError::InvalidSessionKey => 9,
            GeneralError::InvalidApiKey => 10,
            GeneralError::ServiceOffline => 11,
            GeneralError::InvalidSignature => 13,
            GeneralError::TemporaryError => 16,
            GeneralError::SuspendedApiKey => 26,
            GeneralError::RatelimitExceeded => 29,
            GeneralError::UnknownCause(code) => *code,
        }
    }

    /// Computes [`GeneralError::message`].
    pub fn to_string(&self) -> (text: String)
        ensures
            text@ == self.message(),
    {
        match self {
            GeneralError::InvalidService => String::from_str("invalid service"),
            GeneralError::InvalidMethod => String::from_str("invalid method"),
            GeneralError::AuthenticationFailure => String::from_str("authentication failed"),
            GeneralError::MissingParameter => String::from_str("missing required parameter"),
            GeneralError::InvalidResource => String::from_str("invalid resource specified"),
            GeneralError::UnknownError => String::from_str("unknown error"),
            GeneralError::InvalidSessionKey => String::from_str("session key is invalid"),
            GeneralError::InvalidApiKey => String::from_str("api key is invalid"),
            GeneralError::ServiceOffline => String::from_str("service is offline"),
            GeneralError::InvalidSignature => String::from_str("invalid method signature"),
            GeneralError::TemporaryError => String::from_str("a temporary error occurred"),
            GeneralError::SuspendedApiKey => String::from_str("client suspended"),
            GeneralError::RatelimitExceeded => String::from_str("ratelimit exceeded"),
            GeneralError::UnknownCause(_) => String::from_str("unknown cause"),
        }
    }
}

/// Decoding a number never fails: every `u8` gives an error, the unknown
/// cause where no error is known under it.
impl TryFrom<u8> for GeneralError {
    type Error = ();

    fn try_from(value: u8) -> (r: Result<Self, ()>) {
        Ok(GeneralError::from_code(value as u64))
    }
}

impl TryFromSpecImpl<u8> for GeneralError {
    open spec fn obeys_try_from_spec() -> bool {
        true
    }

    open spec fn try_from_spec(value: u8) -> Result<Self, ()> {
        Ok(error_of(value as u64))
    }
}

/// Every error that a number decodes to is found again under its own number,
/// and under no other.
pub proof fn lemma_error_numbers(error: GeneralError, code: u64)
    requires
        error.is_decoded(),
    ensures
        error_of(error.number()) == error,
        error_of(code) == error ==> code == error.number(),
{
}

/// A number under which no error is known decodes to the unknown cause of
/// that number, which is none of the errors that the service is known to
/// report: not even its own "unknown error". A known number never decodes to
/// an unknown cause. What a number decodes to is always an error that
/// decodes.
pub proof fn lemma_unknown_cause(code: u64)
    ensures
        error_of(code).is_decoded(),
        error_of(code).number() == code,
        !is_known_code(code) ==> error_of(code) == GeneralError::UnknownCause(code) && error_of(code)
            != GeneralError::UnknownError,
        is_known_code(code) ==> !(error_of(code) is UnknownCause),
{
}

} // verus!
