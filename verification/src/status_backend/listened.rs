//! The listened-time ledger: how much of the tracked track has actually been
//! heard, as opposed to how far into the track the player is.
//!
//! Instants are milliseconds since the Unix epoch (`i64`); durations and
//! positions within a track are milliseconds (`u64`). Every operation exists
//! in a form that takes the current instant as an argument, which carries the
//! exact contract, and in a form that reads the wall clock itself.

use vstd::prelude::*;

use crate::clock::wall_clock_millis;

verus! {

/// The wall-clock time that passed from `anchor` to `now`, never negative:
/// a clock that was set back counts as no time at all.
pub open spec fn elapsed_between(anchor: i64, now: i64) -> u64 {
    if now > anchor {
        (now - anchor) as u64
    } else {
        0
    }
}

/// The sum of two durations, held at `u64::MAX` where it would not fit.
pub open spec fn saturating_sum(a: u64, b: u64) -> u64 {
    if a + b > u64::MAX {
        u64::MAX
    } else {
        (a + b) as u64
    }
}

/// Computes [`elapsed_between`].
pub fn elapsed(anchor: i64, now: i64) -> (d: u64)
    ensures
        d == elapsed_between(anchor, now),
{
    if now > anchor {
        let wide: i128 = now as i128 - anchor as i128;
        wide as u64
    } else {
        0
    }
}

/// An open span of listening: playback was at `position` when the wall clock
/// read `started_at`, and has not been interrupted since.
#[derive(Clone, Copy, Debug)]
pub struct CurrentListened {
    pub started_at: i64,
    pub position: u64,
}

impl CurrentListened {
    /// Where in the track playback should be at `now`, had it gone on
    /// undisturbed since the span was opened.
    pub open spec fn expected_position_at(self, now: i64) -> u64 {
        saturating_sum(self.position, elapsed_between(self.started_at, now))
    }

    /// An open span anchored at `now`.
    pub fn new_at(position: u64, now: i64) -> (c: Self)
        ensures
            c == (CurrentListened { started_at: now, position }),
    {
        CurrentListened { started_at: now, position }
    }

    /// The position that undisturbed playback would have reached at `now`.
    pub fn get_expected_song_position_at(&self, now: i64) -> (expected: u64)
        ensures
            expected == self.expected_position_at(now),
    {
        self.position.saturating_add(elapsed(self.started_at, now))
    }

    /// The position that undisturbed playback would have reached by now,
    /// whatever the wall clock reads.
    pub fn get_expected_song_position(&self) -> (expected: u64)
        ensures
            exists|now: i64| expected == self.expected_position_at(now),
            expected >= self.position,
    {
        let now = wall_clock_millis();
        self.get_expected_song_position_at(now)
    }
}

/// The ledger of one tracked track: what has been heard in spans already
/// closed, and the span that is open, if any.
#[derive(Clone, Copy, Debug)]
pub struct Listened {
    pub current: Option<CurrentListened>,
    pub accumulated: u64,
}

impl Listened {
    /// The ledger with nothing heard and no span open.
    pub open spec fn empty() -> Listened {
        Listened { current: None, accumulated: 0 }
    }

    /// What has been heard up to `now`: the closed spans, and the open one
    /// as far as it has run.
    pub open spec fn heard_at(self, now: i64) -> u64 {
        match self.current {
            Some(current) => saturating_sum(
                self.accumulated,
                elapsed_between(current.started_at, now),
            ),
            None => self.accumulated,
        }
    }

    /// The ledger after the open span, if any, was closed at `now`.
    pub open spec fn flushed_at(self, now: i64) -> Listened {
        Listened { current: None, accumulated: self.heard_at(now) }
    }

    /// The ledger after a span was opened at `now` with playback at `position`.
    pub open spec fn opened_at(self, position: u64, now: i64) -> Listened {
        Listened {
            current: Some(CurrentListened { started_at: now, position }),
            accumulated: self.accumulated,
        }
    }

    pub fn new() -> (l: Self)
        ensures
            l == Listened::empty(),
    {
        Listened { current: None, accumulated: 0 }
    }

    /// A fresh ledger whose first span opens at `now`.
    pub fn new_with_current_at(position: u64, now: i64) -> (l: Self)
        ensures
            l == Listened::empty().opened_at(position, now),
    {
        Listened { current: Some(CurrentListened::new_at(position, now)), accumulated: 0 }
    }

    /// A fresh ledger whose first span opens at the wall clock's reading.
    pub fn new_with_current(position: u64) -> (l: Self)
        ensures
            exists|now: i64| l == Listened::empty().opened_at(position, now),
    {
        let now = wall_clock_millis();
        Self::new_with_current_at(position, now)
    }

    /// Opens a span at `now`. A span that is still open has to be flushed
    /// first: opening a second one is a mistake of the caller.
    pub fn set_new_current_at(&mut self, position: u64, now: i64)
        requires
            old(self).current is None,
        ensures
            *final(self) == old(self).opened_at(position, now),
    {
        self.current = Some(CurrentListened::new_at(position, now));
    }

    /// Opens a span at the wall clock's reading.
    pub fn set_new_current(&mut self, position: u64)
        requires
            old(self).current is None,
        ensures
            exists|now: i64| *final(self) == old(self).opened_at(position, now),
    {
        let now = wall_clock_millis();
        self.set_new_current_at(position, now);
    }

    /// Closes the open span at `now` and adds its duration to what was
    /// heard before. Without an open span nothing changes.
    pub fn flush_current_at(&mut self, now: i64)
        ensures
            *final(self) == old(self).flushed_at(now),
            final(self).accumulated >= old(self).accumulated,
    {
        match self.current {
            Some(current) => {
                self.accumulated = self.accumulated.saturating_add(elapsed(current.started_at, now));
                self.current = None;
            },
            None => {},
        }
    }

    /// Closes the open span at the wall clock's reading.
    pub fn flush_current(&mut self)
        ensures
            exists|now: i64| *final(self) == old(self).flushed_at(now),
            final(self).current is None,
            final(self).accumulated >= old(self).accumulated,
            old(self).current is None ==> *final(self) == *old(self),
    {
        let now = wall_clock_millis();
        self.flush_current_at(now);
    }

    /// What has been heard up to `now`.
    pub fn total_heard_at(&self, now: i64) -> (heard: u64)
        ensures
            heard == self.heard_at(now),
    {
        match self.current {
            Some(current) => self.accumulated.saturating_add(elapsed(current.started_at, now)),
            None => self.accumulated,
        }
    }

    /// What has been heard up to the wall clock's reading.
    pub fn total_heard(&self) -> (heard: u64)
        ensures
            exists|now: i64| heard == self.heard_at(now),
            heard >= self.accumulated,
            self.current is None ==> heard == self.accumulated,
    {
        let now = wall_clock_millis();
        self.total_heard_at(now)
    }
}

/// One span of listening, as the wall clock saw it: opened at `started_at`
/// with playback at `position`, closed at `ended_at`.
pub struct Span {
    pub started_at: i64,
    pub position: u64,
    pub ended_at: i64,
}

impl Span {
    /// The wall-clock time that the span lasted.
    pub open spec fn duration(self) -> u64 {
        elapsed_between(self.started_at, self.ended_at)
    }
}

/// The sum of the durations of `spans`.
pub open spec fn total_duration(spans: Seq<Span>) -> nat
    decreases spans.len(),
{
    if spans.len() == 0 {
        0
    } else {
        total_duration(spans.drop_last()) + spans.last().duration() as nat
    }
}

/// The ledger after each of `spans` was opened and flushed in turn.
pub open spec fn replayed(ledger: Listened, spans: Seq<Span>) -> Listened
    decreases spans.len(),
{
    if spans.len() == 0 {
        ledger
    } else {
        let span = spans.last();
        replayed(ledger, spans.drop_last()).opened_at(span.position, span.started_at).flushed_at(
            span.ended_at,
        )
    }
}

/// What a ledger with no span open has heard after any sequence of spans is
/// what it had heard before plus the wall-clock duration of each span, held
/// at `u64::MAX`; and no span is left open.
pub proof fn lemma_replayed_total(ledger: Listened, spans: Seq<Span>, now: i64)
    requires
        ledger.current is None,
    ensures
        replayed(ledger, spans).current is None,
        replayed(ledger, spans).heard_at(now) == (if ledger.accumulated + total_duration(spans)
            > u64::MAX {
            u64::MAX as int
        } else {
            ledger.accumulated + total_duration(spans)
        }),
    decreases spans.len(),
{
    if spans.len() > 0 {
        lemma_replayed_total(ledger, spans.drop_last(), now);
    }
}

/// Starting from nothing, the total heard after the last flush is the sum of
/// the spans' wall-clock durations, as long as that sum fits in a `u64`.
pub proof fn lemma_total_heard_is_sum_of_spans(spans: Seq<Span>, now: i64)
    requires
        total_duration(spans) <= u64::MAX,
    ensures
        replayed(Listened::empty(), spans).heard_at(now) == total_duration(spans),
{
    lemma_replayed_total(Listened::empty(), spans, now);
}

/// Flushing twice is flushing once: the second flush finds no open span.
pub proof fn lemma_flush_idempotent(ledger: Listened, first: i64, second: i64)
    ensures
        ledger.flushed_at(first).flushed_at(second) == ledger.flushed_at(first),
{
}

/// Right after a span is opened at `position`, the expected position is
/// `position`; later it is `position` plus the time that has passed since.
pub proof fn lemma_expected_position_after_open(
    ledger: Listened,
    position: u64,
    opened: i64,
    now: i64,
)
    ensures
        ledger.opened_at(position, opened).current is Some,
        ledger.opened_at(position, opened).current->0.expected_position_at(opened) == position,
        ledger.opened_at(position, opened).current->0.expected_position_at(now) == saturating_sum(
            position,
            elapsed_between(opened, now),
        ),
{
}

/// What has been heard never shrinks: not by opening a span, not by flushing
/// one, and not by the clock moving in either direction while a span is open.
pub proof fn lemma_accumulated_monotone(ledger: Listened, position: u64, now: i64)
    ensures
        ledger.opened_at(position, now).accumulated == ledger.accumulated,
        ledger.flushed_at(now).accumulated >= ledger.accumulated,
        ledger.heard_at(now) >= ledger.accumulated,
{
}

} // verus!
