//! The playback state machine: what one poll of the player does to the
//! tracked track and its ledger, and what has to be told to the reporting
//! destinations because of it.
//!
//! Polls are handled one at a time and in order. Each call of [`proc_once`]
//! takes the outcome of one poll and the wall clock's reading, updates the
//! [`PollingContext`] and answers with a [`Reaction`]; carrying the reaction
//! out is left to the caller.

use vstd::prelude::*;

use crate::status_backend::listened::{elapsed_between, saturating_sum, Listened};
use crate::track::{PlayerSnapshot, PlayerState, Poll, PollError, Track};

verus! {

/// How many `Paused` samples in a row it takes before playback counts as
/// paused: the player also reports `Paused` for a moment while it buffers.
pub const THRESHOLD_CONSIDER_TRULY_PAUSED: u64 = 3;

/// How far the reported position may stray from the expected one, in
/// milliseconds, before the difference counts as a seek.
pub const SEEK_THRESHOLD: u64 = 2000;

/// What is remembered from one poll to the next.
#[derive(Debug)]
pub struct PollingContext {
    /// The track that is being tracked.
    pub last_track: Option<Track>,
    /// What has been heard of it.
    pub listened: Listened,
    /// The number of samples handled so far, the present one included.
    pub polls: u64,
    /// The number of `Paused` samples that came in a row, up to the
    /// present one.
    pub sequential_pause_states: u64,
}

/// A track whose tracking has ended, with its ledger as it was closed.
#[derive(Debug)]
pub struct EndedTrack {
    pub track: Track,
    pub listened: Listened,
}

/// What the caller has to do after a poll.
#[derive(Debug)]
pub enum Reaction {
    /// Nothing.
    Idle,
    /// Playback stopped: clear presence, and report `ended` as ended, if a
    /// track was being tracked.
    Stopped { ended: Option<EndedTrack> },
    /// Playback is paused for good: clear presence.
    Paused,
    /// The listener jumped within the track: report the new position.
    Progress { track: Track, position: u64 },
    /// Another track is playing: report `ended` as ended, if a track was
    /// being tracked, fetch what the destinations solicit for `started`, and
    /// report it as started. Its first span was opened at `position`.
    TrackChanged { ended: Option<EndedTrack>, started: Track, position: u64 },
    /// The player is in a state that is not tracked.
    Unsupported { state: PlayerState },
    /// The player says that the tracked track is playing, but not where.
    MissingPosition,
    /// The poll failed. `report` says whether the failure is worth a
    /// line in the log.
    PollFailed { error: PollError, report: bool },
}

/// Whether a failed poll is reported: missing data and a player that is not
/// playing are everyday conditions; output that cannot be read is an error,
/// unless the process is shutting down and cut the poll short itself.
pub open spec fn reported(error: PollError, terminating: bool) -> bool {
    match error {
        PollError::NoData => false,
        PollError::NotPlaying => false,
        PollError::DeserializationFailed => !terminating,
        PollError::AppCommandFailed => true,
    }
}

/// Whether `reported` is so far from `expected` that the listener must have
/// jumped within the track.
pub open spec fn is_seek(expected: u64, reported: u64) -> bool {
    if expected >= reported {
        expected - reported >= SEEK_THRESHOLD
    } else {
        reported - expected >= SEEK_THRESHOLD
    }
}

/// `count` and one more, held at `u64::MAX`.
pub open spec fn bumped(count: u64) -> u64 {
    if count == u64::MAX {
        count
    } else {
        (count + 1) as u64
    }
}

impl PollingContext {
    /// The context before the first poll.
    pub open spec fn initial() -> PollingContext {
        PollingContext {
            last_track: None,
            listened: Listened::empty(),
            polls: 0,
            sequential_pause_states: 0,
        }
    }

    /// The context with a sample in `state` counted: one more poll, and one
    /// more pause in a row or none at all.
    pub open spec fn counted(self, state: PlayerState) -> PollingContext {
        PollingContext {
            last_track: self.last_track,
            listened: self.listened,
            polls: bumped(self.polls),
            sequential_pause_states: if state == PlayerState::Paused {
                bumped(self.sequential_pause_states)
            } else {
                0
            },
        }
    }

    /// The tracked track, if any, with its ledger closed at `now`.
    pub open spec fn ended_at(self, now: i64) -> Option<EndedTrack> {
        match self.last_track {
            Some(track) => Some(EndedTrack { track, listened: self.listened.flushed_at(now) }),
            None => None,
        }
    }

    /// Whether `track` is the tracked track.
    pub open spec fn tracks(self, track: Track) -> bool {
        self.last_track matches Some(last) && last.same_as(track)
    }

    /// Where the first span of a track that was just found playing opens:
    /// on the first poll the player's position is taken, since the
    /// process may have started in the middle of a track; after that a change
    /// of track is seen right as it happens, when the reported position
    /// cannot be relied on, and the start of the track is taken.
    pub open spec fn opening_position(self, position: Option<u64>, track: Track) -> u64 {
        if self.polls == 1 {
            match position {
                Some(p) => p,
                None => track.start,
            }
        } else {
            track.start
        }
    }

    /// The context and the reaction after a sample that says `Playing`.
    pub open spec fn after_playing(self, position: Option<u64>, track: Track, now: i64) -> (
        PollingContext,
        Reaction,
    ) {
        let counted = self.counted(PlayerState::Playing);
        if self.tracks(track) {
            match (position, self.listened.current) {
                (None, _) => (counted, Reaction::MissingPosition),
                (Some(p), None) => (
                    PollingContext { listened: self.listened.opened_at(p, now), ..counted },
                    Reaction::Idle,
                ),
                (Some(p), Some(current)) => if is_seek(current.expected_position_at(now), p) {
                    (
                        PollingContext {
                            listened: self.listened.flushed_at(now).opened_at(p, now),
                            ..counted
                        },
                        Reaction::Progress { track, position: p },
                    )
                } else {
                    (counted, Reaction::Idle)
                },
            }
        } else {
            let start = counted.opening_position(position, track);
            (
                PollingContext {
                    last_track: Some(track),
                    listened: Listened::empty().opened_at(start, now),
                    ..counted
                },
                Reaction::TrackChanged { ended: self.ended_at(now), started: track, position: start },
            )
        }
    }

    /// The context and the reaction after a sample.
    pub open spec fn after_sample(self, sample: PlayerSnapshot, now: i64) -> (
        PollingContext,
        Reaction,
    ) {
        let counted = self.counted(sample.state);
        match sample.state {
            PlayerState::FastForwarding | PlayerState::Rewinding => (
                counted,
                Reaction::Unsupported { state: sample.state },
            ),
            PlayerState::Stopped => (
                PollingContext {
                    last_track: None,
                    listened: if self.last_track is Some {
                        Listened::empty()
                    } else {
                        self.listened.flushed_at(now)
                    },
                    ..counted
                },
                Reaction::Stopped { ended: self.ended_at(now) },
            ),
            PlayerState::Paused => if counted.sequential_pause_states
                >= THRESHOLD_CONSIDER_TRULY_PAUSED {
                (
                    PollingContext { listened: self.listened.flushed_at(now), ..counted },
                    Reaction::Paused,
                )
            } else {
                (counted, Reaction::Idle)
            },
            PlayerState::Playing => match sample.track {
                Some(track) => self.after_playing(sample.position, track, now),
                None => (counted, Reaction::Idle),
            },
        }
    }

    /// The context and the reaction after a poll. A failed poll changes
    /// nothing.
    pub open spec fn after(self, poll: Poll, now: i64, terminating: bool) -> (
        PollingContext,
        Reaction,
    ) {
        match poll {
            Poll::Failed(error) => (
                self,
                Reaction::PollFailed { error, report: reported(error, terminating) },
            ),
            Poll::Sample(sample) => self.after_sample(sample, now),
        }
    }

    /// The context before the first poll.
    pub fn new() -> (context: Self)
        ensures
            context == PollingContext::initial(),
    {
        PollingContext {
            last_track: None,
            listened: Listened::new(),
            polls: 0,
            sequential_pause_states: 0,
        }
    }

    /// Ends the tracking of the tracked track, if there is one: its ledger is
    /// closed at `now` and handed out with it, and a fresh ledger takes its
    /// place. Without a tracked track the ledger is only flushed.
    fn end_tracking(&mut self, now: i64) -> (ended: Option<EndedTrack>)
        ensures
            ended == old(self).ended_at(now),
            final(self).last_track is None,
            final(self).listened == (if old(self).last_track is Some {
                Listened::empty()
            } else {
                old(self).listened.flushed_at(now)
            }),
            final(self).polls == old(self).polls,
            final(self).sequential_pause_states == old(self).sequential_pause_states,
    {
        self.listened.flush_current_at(now);
        match self.last_track.take() {
            Some(track) => {
                let listened = self.listened;
                self.listened = Listened::new();
                Some(EndedTrack { track, listened })
            },
            None => None,
        }
    }
}

/// Computes [`reported`].
pub fn should_report(error: PollError, terminating: bool) -> (report: bool)
    ensures
        report == reported(error, terminating),
{
    match error {
        PollError::NoData => false,
        PollError::NotPlaying => false,
        PollError::DeserializationFailed => !terminating,
        PollError::AppCommandFailed => true,
    }
}

/// Computes [`is_seek`].
pub fn seek_detected(expected: u64, reported: u64) -> (seek: bool)
    ensures
        seek == is_seek(expected, reported),
{
    if expected >= reported {
        expected - reported >= SEEK_THRESHOLD
    } else {
        reported - expected >= SEEK_THRESHOLD
    }
}

/// Handles one poll of the player, taken when the wall clock read `now`.
/// `terminating` says whether the process has been asked to shut down.
pub fn proc_once(context: &mut PollingContext, poll: Poll, now: i64, terminating: bool) -> (reaction:
    Reaction)
    ensures
        (*final(context), reaction) == old(context).after(poll, now, terminating),
{
    let sample = match poll {
        Poll::Failed(error) => {
            return Reaction::PollFailed { error, report: should_report(error, terminating) };
        },
        Poll::Sample(sample) => sample,
    };
    context.polls = context.polls.saturating_add(1);
    context.sequential_pause_states = match sample.state {
        PlayerState::Paused => context.sequential_pause_states.saturating_add(1),
        _ => 0,
    };
    match sample.state {
        PlayerState::FastForwarding | PlayerState::Rewinding => Reaction::Unsupported {
            state: sample.state,
        },
        PlayerState::Stopped => {
            let ended = context.end_tracking(now);
            Reaction::Stopped { ended }
        },
        PlayerState::Paused => {
            if context.sequential_pause_states >= THRESHOLD_CONSIDER_TRULY_PAUSED {
                context.listened.flush_current_at(now);
                Reaction::Paused
            } else {
                Reaction::Idle
            }
        },
        PlayerState::Playing => {
            let track = match sample.track {
                Some(track) => track,
                None => {
                    return Reaction::Idle;
                },
            };
            let same = match &context.last_track {
                Some(last) => last.is_same_as(&track),
                None => false,
            };
            if same {
                let position = match sample.position {
                    Some(position) => position,
                    None => {
                        return Reaction::MissingPosition;
                    },
                };
                match context.listened.current {
                    None => {
                        context.listened.set_new_current_at(position, now);
                        Reaction::Idle
                    },
                    Some(current) => {
                        let expected = current.get_expected_song_position_at(now);
                        if seek_detected(expected, position) {
                            context.listened.flush_current_at(now);
                            context.listened.set_new_current_at(position, now);
                            Reaction::Progress { track, position }
                        } else {
                            Reaction::Idle
                        }
                    },
                }
            } else {
                let ended = context.end_tracking(now);
                let start = if context.polls == 1 {
                    match sample.position {
                        Some(position) => position,
                        None => track.start,
                    }
                } else {
                    track.start
                };
                context.listened = Listened::new_with_current_at(start, now);
                context.last_track = Some(track.clone());
                Reaction::TrackChanged { ended, started: track, position: start }
            }
        },
    }
}

/// A sample in which the player says `Paused`.
pub open spec fn paused_sample(position: Option<u64>, track: Option<Track>) -> Poll {
    Poll::Sample(PlayerSnapshot { state: PlayerState::Paused, position, track })
}

/// A sample in which the player says that `track` is playing at `position`.
pub open spec fn playing_sample(position: u64, track: Track) -> Poll {
    Poll::Sample(PlayerSnapshot { state: PlayerState::Playing, position: Some(position), track: Some(track) })
}

/// A `Paused` sample is acted on exactly when it is at least the third in a
/// row: then the ledger is flushed and presence is to be cleared. Before
/// that it changes nothing but the counters.
pub proof fn lemma_pause_is_debounced(
    context: PollingContext,
    position: Option<u64>,
    track: Option<Track>,
    now: i64,
    terminating: bool,
)
    ensures
        ({
            let (next, reaction) = context.after(paused_sample(position, track), now, terminating);
            &&& next.sequential_pause_states == bumped(context.sequential_pause_states)
            &&& next.last_track == context.last_track
            &&& context.sequential_pause_states >= 2 ==> reaction == Reaction::Paused
                && next.listened == context.listened.flushed_at(now)
            &&& context.sequential_pause_states < 2 ==> reaction == Reaction::Idle && next.listened
                == context.listened
        }),
{
}

/// Three `Paused` samples in a row, counted from a sample that was not
/// `Paused`, are needed for the flush: the first two do nothing, the third
/// flushes the ledger.
pub proof fn lemma_third_pause_flushes(
    context: PollingContext,
    first: i64,
    second: i64,
    third: i64,
    terminating: bool,
)
    requires
        context.sequential_pause_states == 0,
    ensures
        ({
            let (c1, r1) = context.after(paused_sample(None, None), first, terminating);
            let (c2, r2) = c1.after(paused_sample(None, None), second, terminating);
            let (c3, r3) = c2.after(paused_sample(None, None), third, terminating);
            &&& r1 == Reaction::Idle && c1.listened == context.listened
            &&& r2 == Reaction::Idle && c2.listened == context.listened
            &&& r3 == Reaction::Paused && c3.listened == context.listened.flushed_at(third)
        }),
{
}

/// Any sample that is not `Paused` starts the count of pauses anew, so two
/// `Paused` samples followed by one that is not leave no pause pending: the
/// next `Paused` sample is again the first of three.
pub proof fn lemma_pause_run_is_broken(context: PollingContext, sample: PlayerSnapshot, now: i64)
    requires
        sample.state != PlayerState::Paused,
    ensures
        context.after_sample(sample, now).0.sequential_pause_states == 0,
{
}

/// Two `Paused` samples and then the tracked track playing where it is
/// expected: the ledger is never flushed, and nothing is reported.
pub proof fn lemma_two_pauses_do_not_flush(
    context: PollingContext,
    track: Track,
    position: u64,
    first: i64,
    second: i64,
    third: i64,
    terminating: bool,
)
    requires
        context.sequential_pause_states == 0,
        context.tracks(track),
        context.listened.current matches Some(current) && !is_seek(
            current.expected_position_at(third),
            position,
        ),
    ensures
        ({
            let (c1, r1) = context.after(paused_sample(None, None), first, terminating);
            let (c2, r2) = c1.after(paused_sample(None, None), second, terminating);
            let (c3, r3) = c2.after(playing_sample(position, track), third, terminating);
            &&& r1 == Reaction::Idle && r2 == Reaction::Idle && r3 == Reaction::Idle
            &&& c3.listened == context.listened
            &&& c3.sequential_pause_states == 0
        }),
{
}

/// While the tracked track plays with a span open, a reported position that
/// is 2000 ms or more away from the expected one is a seek: the span is
/// flushed, a new one is opened at the reported position, what was heard is
/// kept, and the new position is to be reported. A nearer position changes
/// nothing.
pub proof fn lemma_seek_threshold(
    context: PollingContext,
    track: Track,
    position: u64,
    now: i64,
    terminating: bool,
)
    requires
        context.tracks(track),
        context.listened.current is Some,
    ensures
        ({
            let current = context.listened.current->0;
            let (next, reaction) = context.after(playing_sample(position, track), now, terminating);
            &&& is_seek(current.expected_position_at(now), position) ==> {
                &&& reaction == Reaction::Progress { track, position }
                &&& next.listened == context.listened.flushed_at(now).opened_at(position, now)
                &&& next.listened.accumulated >= context.listened.accumulated
            }
            &&& !is_seek(current.expected_position_at(now), position) ==> {
                &&& reaction == Reaction::Idle
                &&& next.listened == context.listened
            }
            &&& next.last_track == context.last_track
        }),
{
}

/// Two reports of the tracked track, the first of which opens the span: the
/// second is a seek exactly when its position differs by 2000 ms or more from
/// the first position plus the wall-clock time between the two.
pub proof fn lemma_seek_between_reports(
    context: PollingContext,
    track: Track,
    first_position: u64,
    first: i64,
    second_position: u64,
    second: i64,
    terminating: bool,
)
    requires
        context.tracks(track),
        context.listened.current is None,
    ensures
        ({
            let (c1, r1) = context.after(playing_sample(first_position, track), first, terminating);
            let (c2, r2) = c1.after(playing_sample(second_position, track), second, terminating);
            let expected = saturating_sum(first_position, elapsed_between(first, second));
            &&& r1 == Reaction::Idle
            &&& c1.listened == context.listened.opened_at(first_position, first)
            &&& is_seek(expected, second_position) ==> r2 == Reaction::Progress {
                track,
                position: second_position,
            } && c2.listened == c1.listened.flushed_at(second).opened_at(second_position, second)
            &&& !is_seek(expected, second_position) ==> r2 == Reaction::Idle && c2.listened
                == c1.listened
        }),
{
}

/// A failed poll changes nothing, whatever the failure.
pub proof fn lemma_failed_poll_changes_nothing(
    context: PollingContext,
    error: PollError,
    now: i64,
    terminating: bool,
)
    ensures
        context.after(Poll::Failed(error), now, terminating).0 == context,
        terminating && error == PollError::DeserializationFailed ==> context.after(
            Poll::Failed(error),
            now,
            terminating,
        ).1 == (Reaction::PollFailed { error, report: false }),
{
}

/// At most one span is open at any time, and a change of track is the only
/// thing that lets what was heard start again from nothing: every other
/// sample leaves the accumulated time as it was or adds to it.
pub proof fn lemma_accumulated_only_resets_on_change(
    context: PollingContext,
    poll: Poll,
    now: i64,
    terminating: bool,
)
    ensures
        ({
            let (next, reaction) = context.after(poll, now, terminating);
            ||| next.listened.accumulated >= context.listened.accumulated
            ||| reaction is TrackChanged
            ||| reaction is Stopped
        }),
{
}

/// The track that a reaction reports as ended, if it reports one.
pub open spec fn ended_of(reaction: Reaction) -> Option<EndedTrack> {
    match reaction {
        Reaction::Stopped { ended } => ended,
        Reaction::TrackChanged { ended, .. } => ended,
        _ => None,
    }
}

/// A track that is reported as ended is the track that was being followed,
/// and its ledger is closed: no span is open, and what it has heard is what
/// the ledger had heard when the poll was taken. So whether the track counts
/// as listened to no longer depends on the clock.
pub proof fn lemma_ended_track_is_closed(
    context: PollingContext,
    poll: Poll,
    now: i64,
    terminating: bool,
    later: i64,
)
    ensures
        ({
            let (next, reaction) = context.after(poll, now, terminating);
            ended_of(reaction) matches Some(ended) ==> {
                &&& context.last_track == Some(ended.track)
                &&& ended.listened.current is None
                &&& ended.listened.accumulated == context.listened.heard_at(now)
                &&& ended.listened.heard_at(later) == context.listened.heard_at(now)
                &&& next.listened.accumulated == 0
            }
        }),
{
}

/// The followed track changes only when a reaction says so: after any other
/// reaction the same track is followed as before.
pub proof fn lemma_followed_track_is_kept(
    context: PollingContext,
    poll: Poll,
    now: i64,
    terminating: bool,
)
    ensures
        ({
            let (next, reaction) = context.after(poll, now, terminating);
            ||| next.last_track == context.last_track
            ||| reaction matches Reaction::TrackChanged { started, .. } && next.last_track == Some(
                started,
            )
            ||| reaction is Stopped && next.last_track is None
        }),
{
}

} // verus!
