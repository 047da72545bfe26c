use playback_status::status_backend::first_artist::{
    after_brainz, after_library, after_store, contains_ampersand, extract_first_artist,
    recording_query, FirstArtistQuery, LibraryEntry, Step,
};
use playback_status::track::{Album, Track};

fn done(step: Step) -> String {
    match step {
        Step::Done(name) => name,
        other => panic!("not done: {:?}", other),
    }
}

fn left(step: Step) -> String {
    match step {
        Step::AskLibrary { left } => left,
        other => panic!("not asking the library: {:?}", other),
    }
}

/// Runs the whole search with the answers that a library, the store and
/// the database of recordings would give.
fn resolve(
    artists: &str,
    library: Option<LibraryEntry>,
    store: Option<&str>,
    brainz: Option<&str>,
) -> String {
    let mut step = extract_first_artist(artists);
    let mut library = library;
    loop {
        step = match step {
            Step::Done(name) => return name,
            Step::AskLibrary { left } => after_library(left, library.take()),
            Step::AskStore { left, .. } => after_store(left, store.map(str::to_string)),
            Step::AskBrainz { left } => return after_brainz(left, brainz.map(str::to_string)),
        };
    }
}

#[test]
fn artist_extraction() {
    // Has one artist. Nothing unusual.
    assert_eq!(resolve("The Age of Rockets", None, None, None), "The Age of Rockets");

    // Has one artist, but the artist has an ampersand in their name.
    let library = LibraryEntry { cloud_artist_id: Some(1), names: vec![Some("MYTH & ROID".to_string())] };
    assert_eq!(resolve("MYTH & ROID", Some(library), Some("MYTH & ROID"), None), "MYTH & ROID");

    // Has two artists; the first should be returned.
    let library = LibraryEntry {
        cloud_artist_id: Some(2),
        names: vec![
            Some("CaptainSparklez & TryHardNinja".to_string()),
            Some("CaptainSparklez".to_string()),
        ],
    };
    assert_eq!(resolve("CaptainSparklez & TryHardNinja", Some(library), None, None), "CaptainSparklez");

    // Has three artists; the first should be returned.
    assert_eq!(resolve("Satsuki, Hatsune Miku & Kasane Teto", None, None, None), "Satsuki");

    // Nobody knows better: what stands left of the ampersand is taken.
    assert_eq!(resolve("CaptainSparklez & TryHardNinja", None, None, None), "CaptainSparklez");
    // The database of recordings is the last to be asked.
    assert_eq!(resolve("MYTH & ROID", None, None, Some("MYTH & ROID")), "MYTH & ROID");
}

#[test]
fn artist_extraction_from_text() {
    // One artist. Nothing unusual.
    assert_eq!(done(extract_first_artist("The Age of Rockets")), "The Age of Rockets");
    // One artist with an ampersand in their name, or two artists: the text cannot tell.
    assert_eq!(left(extract_first_artist("MYTH & ROID")), "MYTH");
    assert_eq!(left(extract_first_artist("CaptainSparklez & TryHardNinja")), "CaptainSparklez");
    // Three artists; the first is returned.
    assert_eq!(done(extract_first_artist("Satsuki, Hatsune Miku & Kasane Teto")), "Satsuki");
}

#[test]
fn text_edge_cases() {
    assert_eq!(done(extract_first_artist("")), "");
    assert_eq!(done(extract_first_artist("A&B")), "A&B");
    assert_eq!(done(extract_first_artist("A &B")), "A &B");
    assert_eq!(done(extract_first_artist("A,B")), "A,B");
    assert_eq!(done(extract_first_artist("A, B")), "A");
    assert_eq!(done(extract_first_artist("A & B, C, D & E")), "A");
    assert_eq!(left(extract_first_artist("A & B & C")), "A");
    assert_eq!(left(extract_first_artist(" & B")), "");
    assert_eq!(done(extract_first_artist(", B & C")), "");
    assert_eq!(left(extract_first_artist("Ünïcödé & B")), "Ünïcödé");
}

fn names(list: &[Option<&str>]) -> Vec<Option<String>> {
    list.iter().map(|name| name.map(str::to_string)).collect()
}

#[test]
fn library_settles_with_a_name_without_ampersand() {
    let entry = LibraryEntry {
        cloud_artist_id: Some(42),
        names: names(&[None, Some("CaptainSparklez & TryHardNinja"), Some("CaptainSparklez"), Some("Other")]),
    };
    assert_eq!(done(after_library("left".to_string(), Some(entry))), "CaptainSparklez");
}

#[test]
fn library_without_a_single_name_asks_the_store() {
    let entry = LibraryEntry { cloud_artist_id: Some(42), names: names(&[Some("MYTH & ROID"), None]) };
    match after_library("MYTH".to_string(), Some(entry)) {
        Step::AskStore { left, artist } => {
            assert_eq!(left, "MYTH");
            assert_eq!(artist, 42);
        }
        other => panic!("unexpected step: {:?}", other),
    }
    let empty = LibraryEntry { cloud_artist_id: Some(7), names: Vec::new() };
    assert!(matches!(after_library("x".to_string(), Some(empty)), Step::AskStore { artist: 7, .. }));
}

#[test]
fn library_without_an_artist_number_asks_the_database() {
    let entry = LibraryEntry { cloud_artist_id: None, names: names(&[Some("Single")]) };
    match after_library("left".to_string(), Some(entry)) {
        Step::AskBrainz { left } => assert_eq!(left, "left"),
        other => panic!("unexpected step: {:?}", other),
    }
    assert!(matches!(after_library("left".to_string(), None), Step::AskBrainz { .. }));
}

#[test]
fn store_and_database_answers() {
    assert_eq!(done(after_store("left".to_string(), Some("Store".to_string()))), "Store");
    match after_store("left".to_string(), None) {
        Step::AskBrainz { left } => assert_eq!(left, "left"),
        other => panic!("unexpected step: {:?}", other),
    }
    assert_eq!(after_brainz("left".to_string(), Some("Credited".to_string())), "Credited");
    assert_eq!(after_brainz("left".to_string(), None), "left");
}

#[test]
fn ampersand_is_found_anywhere() {
    assert!(contains_ampersand("&"));
    assert!(contains_ampersand("a&"));
    assert!(contains_ampersand("é & b"));
    assert!(!contains_ampersand(""));
    assert!(!contains_ampersand("and"));
    assert!(!contains_ampersand("＆"));
}

#[test]
fn query_of_a_track() {
    let mut track = Track {
        persistent_id: "ABCDEF0123456789".to_string(),
        name: "Mesmerizer".to_string(),
        artist: Some("Satsuki, Hatsune Miku & Kasane Teto".to_string()),
        album: Album { name: None, artist: None },
        duration: None,
        track_number: None,
        start: 0,
    };
    let query = FirstArtistQuery::from(&track);
    assert_eq!(query.name, "Mesmerizer");
    assert_eq!(query.id, "ABCDEF0123456789");
    assert_eq!(query.artists, "Satsuki, Hatsune Miku & Kasane Teto");
    assert_eq!(done(extract_first_artist(query.artists)), "Satsuki");
    track.artist = None;
    assert_eq!(FirstArtistQuery::from(&track).artists, "");
}

#[test]
fn query_for_the_database_of_recordings() {
    let query = FirstArtistQuery { name: "Endless Embrace", id: "0", artists: "MYTH & ROID" };
    assert_eq!(
        recording_query(&query),
        "artist:\"MYTH%20%26%20ROID\" AND recording:\"Endless%20Embrace\""
    );
    let plain = FirstArtistQuery { name: "a-b_c.d~e", id: "0", artists: "AZaz09" };
    assert_eq!(recording_query(&plain), "artist:\"AZaz09\" AND recording:\"a-b_c.d~e\"");
    let wide = FirstArtistQuery { name: "", id: "0", artists: "é/\"+\u{7f}" };
    assert_eq!(recording_query(&wide), "artist:\"%C3%A9%2F%22%2B%7F\" AND recording:\"\"");
}
