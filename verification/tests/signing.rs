use playback_status::lastfm::auth::{AuthorizationToken, ClientIdentity, IdentityError, SessionKey};
use playback_status::lastfm::digest::to_hex_lower;
use playback_status::lastfm::parameters::Parameters;
use playback_status::lastfm::scrobble::{HeardTrackInfo, Scrobble};
use playback_status::lastfm::{ApiRequest, Client, API_URL};

const KEY: &str = "0123456789abcdef0123456789abcdef";
const SECRET: &str = "fedcba9876543210fedcba9876543210";

fn identity() -> ClientIdentity {
    ClientIdentity::new("agent/1.0".to_string(), KEY, SECRET).unwrap()
}

fn add(parameters: &mut Parameters, name: &str, value: &str) {
    parameters.add(name.to_string(), value.to_string());
}

fn names(parameters: &Parameters) -> Vec<String> {
    parameters.entries().iter().map(|entry| entry.name.clone()).collect()
}

fn md5_hex(text: &str) -> String {
    to_hex_lower(&md5::compute(text.as_bytes()).0)
}

#[test]
fn hex_is_lower_case_with_two_digits_a_byte() {
    assert_eq!(to_hex_lower(&[]), "");
    assert_eq!(to_hex_lower(&[0x00, 0x0f, 0xa0, 0xff, 0x7b]), "000fa0ff7b");
}

#[test]
fn signature_is_the_digest_of_base_and_secret() {
    // The digest of the alphabet is a published value of the digest.
    let mut parameters = Parameters::new();
    add(&mut parameters, "abc", "defghijklmnopqrstuvw");
    assert_eq!(parameters.signing_base(), "abcdefghijklmnopqrstuvw");
    assert_eq!(parameters.sign("xyz"), "c3fcd3d76192e4007dfb496cca67e13b");
    assert_eq!(Parameters::new().sign(""), "d41d8cd98f00b204e9800998ecf8427e");
    assert_eq!(Parameters::new().sign("abc"), "900150983cd24fb0d6963f7d28e17f72");
}

#[test]
fn signature_ignores_insertion_order() {
    let mut forward = Parameters::new();
    add(&mut forward, "a", "bc");
    add(&mut forward, "d", "efghijklmnopqrstuvw");
    add(&mut forward, "method", "x");
    let mut backward = Parameters::new();
    add(&mut backward, "method", "x");
    add(&mut backward, "d", "efghijklmnopqrstuvw");
    add(&mut backward, "a", "bc");
    assert_eq!(forward.signing_base(), "abcdefghijklmnopqrstuvwmethodx");
    assert_eq!(forward.signing_base(), backward.signing_base());
    assert_eq!(forward.sign(SECRET), backward.sign(SECRET));
    assert_eq!(names(&forward), names(&backward));
    assert_eq!(forward.sign(SECRET).len(), 32);
}

#[test]
fn changing_a_value_changes_the_signature() {
    let mut one = Parameters::new();
    add(&mut one, "artist", "A");
    add(&mut one, "track", "T");
    let mut other = Parameters::new();
    add(&mut other, "artist", "A");
    add(&mut other, "track", "U");
    assert_ne!(one.signing_base(), other.signing_base());
    assert_ne!(one.sign(SECRET), other.sign(SECRET));
    assert_ne!(one.sign(SECRET), one.sign(KEY));
}

#[test]
fn meta_parameters_are_not_signed() {
    let mut plain = Parameters::new();
    add(&mut plain, "track", "T");
    let mut dressed = Parameters::new();
    add(&mut dressed, "format", "json");
    add(&mut dressed, "callback", "cb");
    add(&mut dressed, "api_sig", "0000");
    add(&mut dressed, "track", "T");
    assert_eq!(dressed.signing_base(), "trackT");
    assert_eq!(plain.sign(SECRET), dressed.sign(SECRET));
    assert_eq!(dressed.len(), 4);
}

#[test]
fn adding_a_name_again_replaces_its_value() {
    let mut parameters = Parameters::new();
    add(&mut parameters, "artist", "first");
    add(&mut parameters, "track", "T");
    add(&mut parameters, "artist", "second");
    assert_eq!(parameters.len(), 2);
    assert_eq!(parameters.get("artist").map(String::as_str), Some("second"));
    assert_eq!(parameters.get("track").map(String::as_str), Some("T"));
    assert_eq!(parameters.get("album"), None);
    assert_eq!(parameters.signing_base(), "artistsecondtrackT");
}

#[test]
fn names_are_sorted_by_their_bytes() {
    let mut parameters = Parameters::new();
    for name in ["track[10]", "track[1]", "track[2]", "b", "a", "B", "ab", "", "é", "z"] {
        add(&mut parameters, name, "v");
    }
    assert_eq!(
        names(&parameters),
        vec!["", "B", "a", "ab", "b", "track[10]", "track[1]", "track[2]", "z", "é"]
    );
    let mut sorted = names(&parameters);
    sorted.sort();
    assert_eq!(names(&parameters), sorted);
}

#[test]
fn identity_needs_thirty_two_hex_digits() {
    assert!(ClientIdentity::new("a".to_string(), KEY, SECRET).is_ok());
    assert!(ClientIdentity::new("a".to_string(), "ABCDEF0123456789abcdef0123456789", SECRET).is_ok());
    assert_eq!(
        ClientIdentity::new("a".to_string(), "short", SECRET).unwrap_err(),
        IdentityError::BadKey
    );
    assert_eq!(
        ClientIdentity::new("a".to_string(), KEY, "0123456789abcdef0123456789abcdeg").unwrap_err(),
        IdentityError::BadSecret
    );
    assert_eq!(
        ClientIdentity::new("a".to_string(), "0123456789abcdef0123456789abcdeé", SECRET).unwrap_err(),
        IdentityError::BadKey
    );
    assert_eq!(ClientIdentity::new("a".to_string(), "", "").unwrap_err(), IdentityError::BadKey);
    let identity = identity();
    assert_eq!(identity.user_agent(), "agent/1.0");
    assert_eq!(identity.get_key(), KEY);
    assert_eq!(identity.get_secret(), SECRET);
    assert!(identity.is_same_as(&identity.clone()));
}

#[test]
fn client_standing_is_in_its_type() {
    let client = Client::new(identity());
    assert!(!client.is_authorized());
    let client = client.into_authorized(SessionKey::new("session".to_string()));
    assert!(client.is_authorized());
    assert_eq!(client.session_key().as_str(), "session");
    assert_eq!(client.identity().get_key(), KEY);
    let direct = Client::authorized(identity(), SessionKey::new("other".to_string()));
    assert!(direct.is_authorized());
    assert_eq!(direct.session_key().as_str(), "other");
    assert_eq!(API_URL, "https://ws.audioscrobbler.com/2.0/");
}

#[test]
fn dispatch_signs_what_it_sends() {
    let client = Client::authorized(identity(), SessionKey::new("sessionkey".to_string()));
    let mut own = Parameters::new();
    add(&mut own, "artist", "A");
    let sent = client.dispatch_authorized(ApiRequest { endpoint: "track.love", parameters: own });
    assert_eq!(names(&sent), vec!["api_key", "api_sig", "artist", "format", "method", "sk"]);
    assert_eq!(sent.get("format").unwrap(), "json");
    assert_eq!(sent.get("method").unwrap(), "track.love");
    assert_eq!(sent.get("sk").unwrap(), "sessionkey");
    assert_eq!(sent.get("api_key").unwrap(), KEY);
    let base = format!("api_key{}artistAmethodtrack.loveszsessionkey", KEY).replace("sz", "sk");
    assert_eq!(sent.signing_base(), base);
    assert_eq!(sent.get("api_sig").unwrap(), &md5_hex(&format!("{}{}", base, SECRET)));
    assert_eq!(sent.get("api_sig").unwrap(), &sent.sign(SECRET));
}

#[test]
fn now_playing_request_names_its_fields() {
    let client = Client::authorized(identity(), SessionKey::new("sk".to_string()));
    let info = HeardTrackInfo {
        artist: "Artist",
        track: "Track",
        album: Some("Album"),
        album_artist: None,
        duration_in_seconds: Some(215),
        track_number: Some(7),
        mbid: None,
    };
    let sent = client.set_now_listening(&info);
    assert_eq!(
        names(&sent),
        vec!["album", "api_key", "api_sig", "artist", "duration", "format", "method", "sk", "track", "trackNumber"]
    );
    assert_eq!(sent.get("method").unwrap(), "track.updateNowPlaying");
    assert_eq!(sent.get("duration").unwrap(), "215");
    assert_eq!(sent.get("trackNumber").unwrap(), "7");
    assert_eq!(sent.get("album").unwrap(), "Album");
}

#[test]
fn scrobble_request_numbers_its_fields() {
    let client = Client::authorized(identity(), SessionKey::new("sk".to_string()));
    let info = |artist, track| HeardTrackInfo {
        artist,
        track,
        album: None,
        album_artist: Some("Various"),
        duration_in_seconds: None,
        track_number: None,
        mbid: Some("mbid"),
    };
    let scrobbles = [
        Scrobble { chosen_by_user: Some(true), timestamp: 1_700_000_000, info: info("A0", "T0") },
        Scrobble { chosen_by_user: None, timestamp: 0, info: info("A1", "T1") },
        Scrobble { chosen_by_user: Some(false), timestamp: u64::MAX, info: info("A2", "T2") },
    ];
    let sent = client.scrobble(&scrobbles);
    assert_eq!(sent.get("method").unwrap(), "track.scrobble");
    assert_eq!(sent.get("artist[0]").unwrap(), "A0");
    assert_eq!(sent.get("track[1]").unwrap(), "T1");
    assert_eq!(sent.get("albumArtist[2]").unwrap(), "Various");
    assert_eq!(sent.get("mbid[0]").unwrap(), "mbid");
    assert_eq!(sent.get("timestamp[0]").unwrap(), "1700000000");
    assert_eq!(sent.get("timestamp[1]").unwrap(), "0");
    assert_eq!(sent.get("timestamp[2]").unwrap(), "18446744073709551615");
    assert_eq!(sent.get("chosenByUser[0]").unwrap(), "1");
    assert_eq!(sent.get("chosenByUser[1]"), None);
    assert_eq!(sent.get("chosenByUser[2]").unwrap(), "0");
    assert_eq!(sent.get("album[0]"), None);
    assert_eq!(sent.get("api_sig").unwrap(), &sent.sign(SECRET));
    // 3 x (artist, track, albumArtist, mbid, timestamp) + 2 x chosenByUser + 5 of the envelope.
    assert_eq!(sent.len(), 22);
    let none = client.scrobble(&[]);
    assert_eq!(names(&none), vec!["api_key", "api_sig", "format", "method", "sk"]);
}

#[test]
fn handshake_requests() {
    let identity = identity();
    let first = identity.generate_authorization_token();
    assert_eq!(names(&first), vec!["api_key", "format", "method"]);
    assert_eq!(first.get("method").unwrap(), "auth.getToken");
    assert_eq!(first.get("api_key").unwrap(), KEY);

    let token = AuthorizationToken::new("tokentoken".to_string());
    assert_eq!(
        token.generate_authorization_url(&identity),
        format!("https://www.last.fm/api/auth/?api_key={}&token=tokentoken", KEY)
    );
    let last = token.generate_session_key(&identity);
    assert_eq!(names(&last), vec!["api_key", "api_sig", "format", "method", "token"]);
    assert_eq!(last.get("method").unwrap(), "auth.getSession");
    assert_eq!(last.get("token").unwrap(), "tokentoken");
    let base = format!("api_key{}methodauth.getSessiontokentokentoken", KEY);
    assert_eq!(last.get("api_sig").unwrap(), &md5_hex(&format!("{}{}", base, SECRET)));
}
