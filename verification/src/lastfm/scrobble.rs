//! What is told to the service about a track: that it is playing, or that
//! it was listened to.

use vstd::prelude::*;
use vstd::string::StringExecFns;

use crate::lastfm::parameters::Parameters;
use crate::text::{decimal, to_decimal};

verus! {

/// A track as the service wants to hear of it.
#[derive(Clone, Copy, Debug)]
pub struct HeardTrackInfo<'a> {
    pub artist: &'a str,
    pub track: &'a str,
    pub album: Option<&'a str>,
    /// The artist of the album, where that is not the artist of the track.
    pub album_artist: Option<&'a str>,
    pub duration_in_seconds: Option<u32>,
    pub track_number: Option<u32>,
    /// The track's MusicBrainz id.
    pub mbid: Option<&'a str>,
}

/// One listen of a track.
#[derive(Clone, Copy, Debug)]
pub struct Scrobble<'a> {
    /// Whether the listener picked the track themselves.
    pub chosen_by_user: Option<bool>,
    /// When the track began to play, in seconds since the Unix epoch.
    pub timestamp: u64,
    pub info: HeardTrackInfo<'a>,
}

/// A track as the service wants to hear of it, as plain text.
pub struct HeardTrack {
    pub artist: Seq<char>,
    pub track: Seq<char>,
    pub album: Option<Seq<char>>,
    pub album_artist: Option<Seq<char>>,
    pub duration_in_seconds: Option<u32>,
    pub track_number: Option<u32>,
    pub mbid: Option<Seq<char>>,
}

/// The text that may be missing, as plain text.
pub open spec fn text_of(text: Option<&str>) -> Option<Seq<char>> {
    match text {
        Some(t) => Some(t@),
        None => None,
    }
}

/// One listen of a track, as plain text.
pub struct Listen {
    pub chosen_by_user: Option<bool>,
    pub timestamp: u64,
    pub info: HeardTrack,
}

impl<'a> View for Scrobble<'a> {
    type V = Listen;

    open spec fn view(&self) -> Listen {
        Listen { chosen_by_user: self.chosen_by_user, timestamp: self.timestamp, info: self.info@ }
    }
}

/// The listens that `scrobbles` stand for.
pub open spec fn listens_of(scrobbles: Seq<Scrobble<'_>>) -> Seq<Listen> {
    Seq::new(scrobbles.len(), |i: int| scrobbles[i]@)
}

impl<'a> View for HeardTrackInfo<'a> {
    type V = HeardTrack;

    open spec fn view(&self) -> HeardTrack {
        HeardTrack {
            artist: self.artist@,
            track: self.track@,
            album: text_of(self.album),
            album_artist: text_of(self.album_artist),
            duration_in_seconds: self.duration_in_seconds,
            track_number: self.track_number,
            mbid: text_of(self.mbid),
        }
    }
}

/// The name of a field: as it stands for a call that speaks of one track,
/// followed by the track's number in square brackets for a call that
/// speaks of several.
pub open spec fn field_name(field: Seq<char>, index: Option<nat>) -> Seq<char> {
    match index {
        Some(i) => field + "["@ + decimal(i) + "]"@,
        None => field,
    }
}

/// `parameters` with `value` under `name`, where there is a value.
pub open spec fn with_text(
    parameters: Map<Seq<char>, Seq<char>>,
    name: Seq<char>,
    value: Option<Seq<char>>,
) -> Map<Seq<char>, Seq<char>> {
    match value {
        Some(text) => parameters.insert(name, text),
        None => parameters,
    }
}

/// `parameters` with `value` in base ten under `name`, where there is a
/// value.
pub open spec fn with_number(
    parameters: Map<Seq<char>, Seq<char>>,
    name: Seq<char>,
    value: Option<u32>,
) -> Map<Seq<char>, Seq<char>> {
    match value {
        Some(n) => parameters.insert(name, decimal(n as nat)),
        None => parameters,
    }
}

/// `parameters` with the fields of `info` added.
pub open spec fn track_parameters(
    parameters: Map<Seq<char>, Seq<char>>,
    info: HeardTrack,
    index: Option<nat>,
) -> Map<Seq<char>, Seq<char>> {
    let named = parameters.insert(field_name("artist"@, index), info.artist).insert(
        field_name("track"@, index),
        info.track,
    );
    let albumed = with_text(
        with_text(named, field_name("album"@, index), info.album),
        field_name("albumArtist"@, index),
        info.album_artist,
    );
    let counted = with_number(
        with_number(albumed, field_name("duration"@, index), info.duration_in_seconds),
        field_name("trackNumber"@, index),
        info.track_number,
    );
    with_text(counted, field_name("mbid"@, index), info.mbid)
}

/// How the service wants a yes or a no.
pub open spec fn flag(value: bool) -> Seq<char> {
    if value {
        "1"@
    } else {
        "0"@
    }
}

/// `parameters` with the fields of `scrobble` added, as the listen with the
/// number `index`.
pub open spec fn one_scrobble(
    parameters: Map<Seq<char>, Seq<char>>,
    scrobble: Listen,
    index: nat,
) -> Map<Seq<char>, Seq<char>> {
    let timed = track_parameters(parameters, scrobble.info, Some(index)).insert(
        field_name("timestamp"@, Some(index)),
        decimal(scrobble.timestamp as nat),
    );
    match scrobble.chosen_by_user {
        Some(chosen) => timed.insert(field_name("chosenByUser"@, Some(index)), flag(chosen)),
        None => timed,
    }
}

/// The parameters that speak of `scrobbles`, numbered from zero.
pub open spec fn scrobble_parameters(scrobbles: Seq<Listen>) -> Map<Seq<char>, Seq<char>>
    decreases scrobbles.len(),
{
    if scrobbles.len() == 0 {
        Map::empty()
    } else {
        one_scrobble(
            scrobble_parameters(scrobbles.drop_last()),
            scrobbles.last(),
            (scrobbles.len() - 1) as nat,
        )
    }
}

/// Computes [`field_name`].
pub fn name_of_field(field: &str, index: Option<usize>) -> (name: String)
    ensures
        name@ == field_name(
            field@,
            match index {
                Some(i) => Some(i as nat),
                None => None,
            },
        ),
{
    let mut name = String::from_str(field);
    match index {
        Some(i) => {
            name.append("[");
            name.append(to_decimal(i as u64).as_str());
            name.append("]");
        },
        None => {},
    }
    name
}

/// The index of a field as the specifications write it.
pub open spec fn spec_index(index: Option<usize>) -> Option<nat> {
    match index {
        Some(i) => Some(i as nat),
        None => None,
    }
}

impl Parameters {
    /// Adds `value` under the name of `field`, where there is a value.
    fn add_text(&mut self, field: &str, index: Option<usize>, value: Option<&str>)
        ensures
            final(self)@ == with_text(
                old(self)@,
                field_name(field@, spec_index(index)),
                text_of(value),
            ),
    {
        match value {
            Some(text) => {
                self.add(name_of_field(field, index), String::from_str(text));
            },
            None => {},
        }
    }

    /// Adds `value` in base ten under the name of `field`, where there is
    /// a value.
    fn add_number(&mut self, field: &str, index: Option<usize>, value: Option<u32>)
        ensures
            final(self)@ == with_number(old(self)@, field_name(field@, spec_index(index)), value),
    {
        match value {
            Some(n) => {
                self.add(name_of_field(field, index), to_decimal(n as u64));
            },
            None => {},
        }
    }

    /// Adds the fields of `info`.
    pub fn add_track(&mut self, info: &HeardTrackInfo<'_>, index: Option<usize>)
        ensures
            final(self)@ == track_parameters(old(self)@, info@, spec_index(index)),
    {
        self.add(name_of_field("artist", index), String::from_str(info.artist));
        self.add(name_of_field("track", index), String::from_str(info.track));
        self.add_text("album", index, info.album);
        self.add_text("albumArtist", index, info.album_artist);
        self.add_number("duration", index, info.duration_in_seconds);
        self.add_number("trackNumber", index, info.track_number);
        self.add_text("mbid", index, info.mbid);
    }

    /// The parameters that speak of the one track `info`.
    pub fn from_track(info: &HeardTrackInfo<'_>) -> (parameters: Parameters)
        ensures
            parameters@ == track_parameters(Map::empty(), info@, None),
    {
        let mut parameters = Parameters::new();
        parameters.add_track(info, None);
        parameters
    }

    /// The parameters that speak of `scrobbles`, numbered from zero.
    pub fn from_scrobbles(scrobbles: &[Scrobble<'_>]) -> (parameters: Parameters)
        ensures
            parameters@ == scrobble_parameters(listens_of(scrobbles@)),
    {
        let ghost listens = listens_of(scrobbles@);
        let mut parameters = Parameters::new();
        let mut i: usize = 0;
        while i < scrobbles.len()
            invariant
                i <= scrobbles@.len(),
                listens == listens_of(scrobbles@),
                parameters@ == scrobble_parameters(listens.take(i as int)),
            decreases scrobbles@.len() - i,
        {
            let scrobble = &scrobbles[i];
            proof {
                let upto = listens.take(i + 1);
                assert(upto.drop_last() =~= listens.take(i as int));
                assert(upto.last() == scrobble@);
            }
            parameters.add_track(&scrobble.info, Some(i));
            parameters.add(name_of_field("timestamp", Some(i)), to_decimal(scrobble.timestamp));
            match scrobble.chosen_by_user {
                Some(chosen) => {
                    let text = if chosen {
                        "1"
                    } else {
                        "0"
                    };
                    parameters.add(name_of_field("chosenByUser", Some(i)), String::from_str(text));
                },
                None => {},
            }
            i += 1;
        }
        assert(listens.take(i as int) =~= listens);
        parameters
    }
}

} // verus!
