//! The scrobbling service as a reporting destination.

use vstd::prelude::*;
use vstd::string::StringExecFns;

use crate::clock::wall_clock_millis;
use crate::lastfm::auth::state::Authorized;
use crate::lastfm::auth::{ClientIdentity, SessionKey};
use crate::lastfm::parameters::Parameters;
use crate::lastfm::scrobble::{
    listens_of, scrobble_parameters, track_parameters, HeardTrack, HeardTrackInfo, Listen, Scrobble,
};
use crate::lastfm::{authorized_request, Client, SCROBBLE, UPDATE_NOW_PLAYING};
use crate::status_backend::{eligible, is_eligible, BackendContext};
use crate::text::{same_text, strip_suffix, without_suffix};
use crate::track::Track;

verus! {

/// The user agent of the built-in identity.
pub const DEFAULT_USER_AGENT: &'static str = "playback_status/0.1.0";

/// The key of the built-in identity.
pub const DEFAULT_KEY: &'static str = "d591a37a79ec4c3d4efe55379029b5b3";

/// The secret of the built-in identity.
pub const DEFAULT_SECRET: &'static str = "20a069921b30039bd2601d955e3bce46";

/// Whether `identity` is the built-in one.
pub open spec fn is_default(identity: ClientIdentity) -> bool {
    identity.agent() == DEFAULT_USER_AGENT@ && identity.key() == DEFAULT_KEY@ && identity.secret()
        == DEFAULT_SECRET@
}

/// The identity that is used where the configuration names no other.
pub fn get_default_client_identity() -> (identity: ClientIdentity)
    ensures
        is_default(identity),
{
    proof {
        reveal_strlit("d591a37a79ec4c3d4efe55379029b5b3");
        reveal_strlit("20a069921b30039bd2601d955e3bce46");
    }
    match ClientIdentity::new(String::from_str(DEFAULT_USER_AGENT), DEFAULT_KEY, DEFAULT_SECRET) {
        Ok(identity) => identity,
        Err(_) => {
            proof {
                assert(false);
            }
            unreached()
        },
    }
}

/// Computes [`is_default`].
pub fn is_default_client_identity(identity: &ClientIdentity) -> (b: bool)
    ensures
        b == is_default(*identity),
{
    let built_in = get_default_client_identity();
    identity.is_same_as(&built_in)
}

/// The configuration of the destination.
#[derive(Debug)]
pub struct Config {
    pub enabled: bool,
    pub identity: ClientIdentity,
    pub session_key: Option<SessionKey>,
}

/// The name of an album without the marks that the store puts behind the
/// names of singles and of EPs.
pub open spec fn cleaned_album(name: Seq<char>) -> Seq<char> {
    without_suffix(without_suffix(name, " - Single"@), " - EP"@)
}

/// Computes [`cleaned_album`].
pub fn clean_album(str: &str) -> (cleaned: &str)
    ensures
        cleaned@ == cleaned_album(str@),
{
    let first = strip_suffix(str, " - Single");
    strip_suffix(first, " - EP")
}

/// The length of a track in whole seconds, as far as a `u32` holds it.
pub open spec fn whole_seconds(duration: u64) -> u32 {
    if duration / 1000 > u32::MAX {
        u32::MAX
    } else {
        (duration / 1000) as u32
    }
}

/// The artist of the album of `track`, where there is one and it is not the
/// artist of the track: only then is it worth telling.
pub open spec fn album_artist_of(track: Track) -> Option<Seq<char>> {
    match track.album.artist {
        Some(album_artist) => match track.artist {
            Some(artist) => if album_artist@ == artist@ {
                None
            } else {
                Some(album_artist@)
            },
            None => Some(album_artist@),
        },
        None => None,
    }
}

/// What the service is told of `track`, with `artist` as its artist.
pub open spec fn heard_track(track: Track, artist: Seq<char>) -> HeardTrack {
    HeardTrack {
        artist,
        track: track.name@,
        album: match track.album.name {
            Some(name) => Some(cleaned_album(name@)),
            None => None,
        },
        album_artist: album_artist_of(track),
        duration_in_seconds: match track.duration {
            Some(duration) => Some(whole_seconds(duration)),
            None => None,
        },
        track_number: track.track_number,
        mbid: None,
    }
}

/// The seconds since the Unix epoch at the instant `now`, which is in
/// milliseconds; an instant before the epoch counts as the epoch.
pub open spec fn unix_seconds(now: i64) -> u64 {
    if now < 0 {
        0
    } else {
        (now / 1000) as u64
    }
}

/// The signed parameters of the call by which `client` records `track` as
/// listened to at `timestamp`, with `artist` as its artist.
pub open spec fn listen_request(
    client: Client<Authorized>,
    track: Track,
    artist: Seq<char>,
    timestamp: u64,
) -> Map<Seq<char>, Seq<char>> {
    authorized_request(
        scrobble_parameters(
            seq![Listen { chosen_by_user: None, timestamp, info: heard_track(track, artist) }],
        ),
        SCROBBLE@,
        client.session()@,
        client.identity_of().key(),
        client.identity_of().secret(),
    )
}

/// The scrobbling service as a destination: a client that may act for the
/// user.
#[derive(Debug)]
pub struct LastFM {
    client: Client<Authorized>,
}

impl LastFM {
    /// The client that the destination speaks through.
    pub closed spec fn client(self) -> Client<Authorized> {
        self.client
    }

    pub fn new(identity: ClientIdentity, session_key: SessionKey) -> (destination: Self)
        ensures
            destination.client().identity_of() == identity,
            destination.client().session() == session_key,
    {
        let client = Client::authorized(identity, session_key);
        Self { client }
    }

    /// The destination that `config` describes: there is one where the
    /// configuration switches it on and holds a session key.
    pub fn from_config(config: Config) -> (destination: Option<Self>)
        ensures
            destination is Some <==> config.enabled && config.session_key is Some,
            destination matches Some(d) ==> d.client().identity_of() == config.identity
                && Some(d.client().session()) == config.session_key,
    {
        if !config.enabled {
            return None;
        }
        match config.session_key {
            Some(session_key) => Some(Self::new(config.identity, session_key)),
            None => None,
        }
    }

    /// What the service is told of `track`.
    pub fn track_to_heard<'a>(track: &'a Track, artist: &'a str) -> (info: Option<
        HeardTrackInfo<'a>,
    >)
        ensures
            info matches Some(heard) && heard@ == heard_track(*track, artist@),
    {
        let album = match &track.album.name {
            Some(name) => Some(clean_album(name.as_str())),
            None => None,
        };
        let album_artist = match &track.album.artist {
            Some(album_artist) => {
                let same = match &track.artist {
                    Some(artist) => same_text(album_artist.as_str(), artist.as_str()),
                    None => false,
                };
                if same {
                    None
                } else {
                    Some(album_artist.as_str())
                }
            },
            None => None,
        };
        let duration_in_seconds = match track.duration {
            Some(duration) => {
                let seconds = duration / 1000;
                if seconds > 0xffff_ffff {
                    Some(0xffff_ffffu32)
                } else {
                    Some(seconds as u32)
                }
            },
            None => None,
        };
        let heard = HeardTrackInfo {
            artist,
            track: track.name.as_str(),
            album,
            album_artist,
            duration_in_seconds,
            track_number: track.track_number,
            mbid: None,
        };
        Some(heard)
    }

    /// The signed parameters of the call that records the track of `context`
    /// as listened to at `timestamp`, in seconds since the Unix epoch.
    pub fn record_as_listened_at<T>(
        &self,
        context: &BackendContext<T>,
        artist: &str,
        timestamp: u64,
    ) -> (request: Option<Parameters>)
        ensures
            request matches Some(parameters) && parameters@ == listen_request(
                self.client(),
                context.track,
                artist@,
                timestamp,
            ),
    {
        match Self::track_to_heard(&context.track, artist) {
            Some(info) => {
                let scrobbles = [Scrobble { chosen_by_user: None, timestamp, info }];
                assert(listens_of(scrobbles@) =~= seq![
                    Listen {
                        chosen_by_user: None,
                        timestamp,
                        info: heard_track(context.track, artist@),
                    },
                ]);
                Some(self.client.scrobble(scrobbles.as_slice()))
            },
            None => None,
        }
    }

    /// The signed parameters of the call that records the track of `context`
    /// as listened to now, by the wall clock.
    pub fn record_as_listened<T>(&self, context: &BackendContext<T>, artist: &str) -> (request:
        Option<Parameters>)
        ensures
            exists|now: i64|
                request matches Some(parameters) && parameters@ == listen_request(
                    self.client(),
                    context.track,
                    artist@,
                    #[trigger] unix_seconds(now),
                ),
    {
        let now = wall_clock_millis();
        let timestamp = to_unix_seconds(now);
        self.record_as_listened_at(context, artist, timestamp)
    }

    /// Whether the track of `context` counts as listened to at `now`.
    pub fn check_eligibility_at<T>(&self, context: &BackendContext<T>, now: i64) -> (b: bool)
        ensures
            b == eligible(context.track.duration, context.listened.heard_at(now)),
    {
        is_eligible(context.track.duration, context.listened.total_heard_at(now))
    }

    /// Whether the track of `context` counts as listened to by now. With no
    /// span open the wall clock has no say in it.
    pub fn check_eligibility<T>(&self, context: &BackendContext<T>) -> (b: bool)
        ensures
            exists|now: i64| b == eligible(context.track.duration, context.listened.heard_at(now)),
            context.listened.current is None ==> b == eligible(
                context.track.duration,
                context.listened.accumulated,
            ),
    {
        let now = wall_clock_millis();
        self.check_eligibility_at(context, now)
    }

    /// The signed parameters of the call that says that the track of
    /// `context` is playing now.
    pub fn set_now_listening<T>(&self, context: &BackendContext<T>, artist: &str) -> (request:
        Option<Parameters>)
        ensures
            request matches Some(parameters) && parameters@ == authorized_request(
                track_parameters(Map::empty(), heard_track(context.track, artist@), None),
                UPDATE_NOW_PLAYING@,
                self.client().session()@,
                self.client().identity_of().key(),
                self.client().identity_of().secret(),
            ),
    {
        match Self::track_to_heard(&context.track, artist) {
            Some(info) => Some(self.client.set_now_listening(&info)),
            None => None,
        }
    }
}

/// Computes [`unix_seconds`].
pub fn to_unix_seconds(now: i64) -> (seconds: u64)
    ensures
        seconds == unix_seconds(now),
{
    if now < 0 {
        0
    } else {
        (now / 1000) as u64
    }
}

} // verus!
