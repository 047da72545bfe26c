//! Whose name to give as the artist of a track whose artist reads like
//! several names.
//!
//! The player writes `A & B` for a track by two artists, and `A, B & C` for one
//! by three. But an artist may bear an ampersand in their own name. Where
//! the text alone does not settle it, others are asked, one after the other:
//! the local library, the store, and a public database of recordings. This
//! module decides whom to ask next and what to make of the answer; asking is
//! left to the caller.

use vstd::prelude::*;
use vstd::string::StringExecFns;
use vstd::utf8::encode_utf8;

use crate::text::{before_first, first_occurrence, take_before, to_chars};
use crate::track::Track;

verus! {

/// What is known of a track when the first artist is looked for.
#[derive(Clone, Copy, Debug)]
pub struct FirstArtistQuery<'a> {
    pub name: &'a str,
    pub id: &'a str,
    pub artists: &'a str,
}

impl<'a> FirstArtistQuery<'a> {
    /// The query for `track`. A track without an artist is asked about with
    /// an empty one.
    pub fn from(track: &'a Track) -> (query: Self)
        ensures
            query.name@ == track.name@,
            query.id@ == track.persistent_id@,
            query.artists@ == (match track.artist {
                Some(artist) => artist@,
                None => Seq::<char>::empty(),
            }),
    {
        let artists = match &track.artist {
            Some(artist) => artist.as_str(),
            None => {
                let nothing = "";
                proof {
                    reveal_strlit("");
                }
                assert(nothing@ =~= Seq::<char>::empty());
                nothing
            },
        };
        Self { name: track.name.as_str(), id: track.persistent_id.as_str(), artists }
    }
}

/// What the library knows of a track's artist: the store's number for the
/// artist, and the names of all the library's artists that go by that number.
#[derive(Debug)]
pub struct LibraryEntry {
    pub cloud_artist_id: Option<u64>,
    pub names: Vec<Option<String>>,
}

/// Where the search for the first artist stands.
#[derive(Debug)]
pub enum Step {
    /// The artist is found.
    Done(String),
    /// The library is to be asked about the track.
    AskLibrary { left: String },
    /// The store is to be asked for the name of the artist `artist`.
    AskStore { left: String, artist: u64 },
    /// The database of recordings is to be asked who is credited first.
    AskBrainz { left: String },
}

/// The first of the names that `artists` lists with commas.
pub open spec fn first_listed(artists: Seq<char>) -> Seq<char> {
    before_first(artists, ", "@)
}

/// Whether `artists` lists names with commas.
pub open spec fn lists_with_commas(artists: Seq<char>) -> bool {
    first_occurrence(artists, ", "@) is Some
}

/// What stands left of the first ampersand in the first listed name: the
/// first artist, if the ampersand joins two artists.
pub open spec fn left_of_ampersand(artists: Seq<char>) -> Seq<char> {
    before_first(first_listed(artists), " & "@)
}

/// Whether the first listed name holds an ampersand between two words.
pub open spec fn has_joined_names(artists: Seq<char>) -> bool {
    first_occurrence(first_listed(artists), " & "@) is Some
}

/// Whether the text settles who the first artist is: there is no ampersand
/// to wonder about, or the ampersand stands before a comma, where a list of
/// names would have none.
pub open spec fn is_settled(artists: Seq<char>) -> bool {
    !has_joined_names(artists) || lists_with_commas(artists)
}

/// Whether `name` holds an ampersand.
pub open spec fn has_ampersand(name: Seq<char>) -> bool {
    exists|i: int| 0 <= i < name.len() && #[trigger] name[i] == '&'
}

/// Whether `name` is there and holds no ampersand.
pub open spec fn is_single_name(name: Option<String>) -> bool {
    name matches Some(text) && !has_ampersand(text@)
}

/// Whether `i` is the place of the first of `names` that is a single name.
pub open spec fn first_single_at(names: Seq<Option<String>>, i: int) -> bool {
    0 <= i < names.len() && is_single_name(names[i]) && forall|j: int|
        0 <= j < i ==> !is_single_name(#[trigger] names[j])
}

/// Computes [`has_ampersand`].
pub fn contains_ampersand(name: &str) -> (found: bool)
    ensures
        found == has_ampersand(name@),
{
    let chars = to_chars(name);
    let mut i: usize = 0;
    while i < chars.len()
        invariant
            i <= chars@.len(),
            chars@ == name@,
            forall|j: int| 0 <= j < i ==> #[trigger] chars@[j] != '&',
        decreases chars@.len() - i,
    {
        if chars[i] == '&' {
            return true;
        }
        i += 1;
    }
    false
}

/// The first step: what the text of `artists` says by itself.
pub fn extract_first_artist(artists: &str) -> (step: Step)
    ensures
        is_settled(artists@) ==> (step matches Step::Done(name) && name@ == left_of_ampersand(
            artists@,
        )),
        !is_settled(artists@) ==> (step matches Step::AskLibrary { left } && left@
            == left_of_ampersand(artists@)),
{
    let (first, split_by_commas) = take_before(artists, ", ");
    let (left, joined) = take_before(first, " & ");
    if !joined || split_by_commas {
        Step::Done(String::from_str(left))
    } else {
        Step::AskLibrary { left: String::from_str(left) }
    }
}

/// The step after the library was asked. `found` is what it knows of the
/// track, if there is a library and it knows the track.
///
/// Of the library's artists that go by the track's artist number, the first
/// whose name holds no ampersand is the artist. If there is none, the store
/// is asked for the name that belongs to the number. Without a number the
/// database of recordings is asked.
pub fn after_library(left: String, found: Option<LibraryEntry>) -> (step: Step)
    ensures
        match found {
            Some(entry) => match entry.cloud_artist_id {
                Some(artist) => {
                    &&& (forall|i: int|
                        0 <= i < entry.names@.len() ==> !is_single_name(#[trigger] entry.names@[i]))
                        ==> step == (Step::AskStore { left, artist })
                    &&& forall|i: int|
                        first_single_at(entry.names@, i) ==> (step matches Step::Done(name) && name@
                            == entry.names@[i]->0@)
                },
                None => step == (Step::AskBrainz { left }),
            },
            None => step == (Step::AskBrainz { left }),
        },
{
    let entry = match found {
        Some(entry) => entry,
        None => {
            return Step::AskBrainz { left };
        },
    };
    let artist = match entry.cloud_artist_id {
        Some(artist) => artist,
        None => {
            return Step::AskBrainz { left };
        },
    };
    let mut i: usize = 0;
    while i < entry.names.len()
        invariant
            i <= entry.names@.len(),
            found == Some(entry),
            entry.cloud_artist_id == Some(artist),
            forall|j: int| 0 <= j < i ==> !is_single_name(#[trigger] entry.names@[j]),
        decreases entry.names@.len() - i,
    {
        match &entry.names[i] {
            Some(name) => {
                if !contains_ampersand(name.as_str()) {
                    proof {
                        assert(first_single_at(entry.names@, i as int));
                        assert forall|k: int| first_single_at(entry.names@, k) implies k == i by {
                            if k < i {
                                assert(!is_single_name(entry.names@[k]));
                            } else if i < k {
                                assert(!is_single_name(entry.names@[i as int]));
                            }
                        }
                    }
                    return Step::Done(name.clone());
                }
            },
            None => {},
        }
        i += 1;
    }
    Step::AskStore { left, artist }
}

/// The step after the store was asked: its answer is the artist; without
/// an answer the database of recordings is asked.
pub fn after_store(left: String, found: Option<String>) -> (step: Step)
    ensures
        step == (match found {
            Some(name) => Step::Done(name),
            None => Step::AskBrainz { left },
        }),
{
    match found {
        Some(name) => Step::Done(name),
        None => Step::AskBrainz { left },
    }
}

/// The artist after the database of recordings was asked: its answer,
/// or, without one, what stands left of the ampersand.
pub fn after_brainz(left: String, found: Option<String>) -> (artist: String)
    ensures
        artist == (match found {
            Some(name) => name,
            None => left,
        }),
{
    match found {
        Some(name) => name,
        None => left,
    }
}

/// Whether a byte stands for itself in a percent-encoded text: the ASCII
/// letters and digits, and `-`, `.`, `_` and `~`.
pub open spec fn is_unreserved(byte: u8) -> bool {
    (0x30 <= byte <= 0x39) || (0x41 <= byte <= 0x5a) || (0x61 <= byte <= 0x7a) || byte == 0x2d
        || byte == 0x2e || byte == 0x5f || byte == 0x7e
}

/// The digits of base sixteen with capital letters, in order.
pub open spec fn upper_hex_digits() -> Seq<char> {
    "0123456789ABCDEF"@
}

/// The percent-encoded form of `bytes`: an unreserved byte as the
/// character it is, any other byte as `%` and its two hexadecimal digits.
pub open spec fn percent_encoded(bytes: Seq<u8>) -> Seq<char>
    decreases bytes.len(),
{
    if bytes.len() == 0 {
        Seq::empty()
    } else {
        let byte = bytes.last();
        percent_encoded(bytes.drop_last()) + (if is_unreserved(byte) {
            seq![byte as char]
        } else {
            seq!['%', upper_hex_digits()[byte as int / 16], upper_hex_digits()[byte as int % 16]]
        })
    }
}

/// Percent-encodes `text` with `urlencoding::encode`.
///
/// The contract says what the crate documents and its source does: every
/// byte of the UTF-8 form of `text` is written as `%` and two capital
/// hexadecimal digits, except the ASCII letters and digits and `-`, `.`, `_`
/// and `~`, which are kept.
#[verifier::external_body]
fn percent_encode(text: &str) -> (encoded: String)
    ensures
        encoded@ == percent_encoded(encode_utf8(text@)),
{
    urlencoding::encode(text).into_owned()
}

/// What is asked of the database of recordings to find the recording
/// `name` by `artists`.
pub open spec fn query_for(artists: Seq<char>, name: Seq<char>) -> Seq<char> {
    "artist:\""@ + percent_encoded(encode_utf8(artists)) + "\" AND recording:\""@
        + percent_encoded(encode_utf8(name)) + "\""@
}

/// Computes [`query_for`] for the track of `query`.
pub fn recording_query(query: &FirstArtistQuery<'_>) -> (text: String)
    ensures
        text@ == query_for(query.artists@, query.name@),
{
    let mut text = String::from_str("artist:\"");
    text.append(percent_encode(query.artists).as_str());
    text.append("\" AND recording:\"");
    text.append(percent_encode(query.name).as_str());
    text.append("\"");
    text
}

} // verus!
