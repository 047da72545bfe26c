//! The reporting destinations, what is handed to them, and who is told
//! what.
//!
//! There are three destinations: a scrobbling service, a presence indicator
//! and a listen-submission service. [`StatusBackends`] holds them with their
//! switches and decides, for each thing that happens to the tracked track,
//! which calls are to be made. Making the calls is left to the caller, who
//! makes them side by side and hands back how each one went: a call
//! that failed is listed for the log and costs the other calls nothing.

use vstd::prelude::*;

use crate::status_backend::listened::Listened;
use crate::track::Track;

pub mod first_artist;
pub mod lastfm;
pub mod listened;

verus! {

/// A track shorter than this is never recorded as listened to.
pub const THIRTY_SECONDS: u64 = 30_000;

/// Having heard this much of a track is enough, however long the track is.
pub const FOUR_MINUTES: u64 = 240_000;

/// What a destination is given with a call: the track, where the player was
/// when it was polled, the ledger as it stood, and what was fetched for the
/// call besides.
#[derive(Debug)]
pub struct BackendContext<T> {
    pub track: Track,
    pub position: Option<u64>,
    pub listened: Listened,
    pub data: T,
}

/// Whether a track of length `duration` of which `heard` was heard counts as
/// listened to: the track lasts thirty seconds or more, and four minutes or
/// half of it were heard, whichever is less. A track of unknown length never
/// counts.
pub open spec fn eligible(duration: Option<u64>, heard: u64) -> bool {
    match duration {
        Some(length) => length >= THIRTY_SECONDS && (heard >= FOUR_MINUTES || 2 * heard >= length),
        None => false,
    }
}

/// Computes [`eligible`].
pub fn is_eligible(duration: Option<u64>, heard: u64) -> (b: bool)
    ensures
        b == eligible(duration, heard),
{
    match duration {
        Some(length) => length >= THIRTY_SECONDS && (heard >= FOUR_MINUTES || heard >= length
            - length / 2),
        None => false,
    }
}

/// What has to be heard of a track of `length` for it to count: half of it,
/// rounded up to the millisecond, or four minutes if that is less.
pub open spec fn required_listening(length: u64) -> int {
    let half = length - length / 2;
    if half < FOUR_MINUTES {
        half
    } else {
        FOUR_MINUTES as int
    }
}

/// A track of thirty seconds or more counts exactly when what was heard
/// reaches the lesser of four minutes and half the track; a shorter one never
/// counts, whatever was heard.
pub proof fn lemma_eligibility(length: u64, heard: u64)
    ensures
        length >= THIRTY_SECONDS ==> (eligible(Some(length), heard) <==> heard
            >= required_listening(length)),
        length < THIRTY_SECONDS ==> !eligible(Some(length), heard),
        !eligible(None, heard),
{
}

/// Having heard more never takes eligibility away.
pub proof fn lemma_eligibility_monotone(duration: Option<u64>, heard: u64, more: u64)
    requires
        heard <= more,
        eligible(duration, heard),
    ensures
        eligible(duration, more),
{
}

/// A reporting destination.
#[derive(Clone, Copy, Debug, PartialEq, Eq, Structural)]
pub enum Destination {
    /// The scrobbling service.
    Scrobbler,
    /// The presence indicator.
    Presence,
    /// The listen-submission service.
    ListenSubmitter,
}

impl Destination {
    /// Whether the destination keeps a record of tracks listened to. The
    /// presence indicator shows what is playing and keeps nothing.
    pub open spec fn records_listens(self) -> bool {
        self != Destination::Presence
    }

    /// Whether the destination shows the position of playback.
    pub open spec fn shows_presence(self) -> bool {
        self == Destination::Presence
    }
}

/// What is fetched for a track before it is reported as started.
#[derive(Clone, Copy, Debug, PartialEq, Eq, Structural)]
pub struct Solicitation {
    pub album_artwork: bool,
    pub artist_artwork: bool,
    pub store_listing: bool,
}

impl Solicitation {
    /// Nothing.
    pub open spec fn nothing() -> Solicitation {
        Solicitation { album_artwork: false, artist_artwork: false, store_listing: false }
    }

    /// All that either of the two asks for.
    pub open spec fn joined(self, other: Solicitation) -> Solicitation {
        Solicitation {
            album_artwork: self.album_artwork || other.album_artwork,
            artist_artwork: self.artist_artwork || other.artist_artwork,
            store_listing: self.store_listing || other.store_listing,
        }
    }

    pub fn none() -> (s: Self)
        ensures
            s == Solicitation::nothing(),
    {
        Solicitation { album_artwork: false, artist_artwork: false, store_listing: false }
    }

    /// Computes [`Solicitation::joined`].
    pub fn union(self, other: Solicitation) -> (s: Self)
        ensures
            s == self.joined(other),
    {
        Solicitation {
            album_artwork: self.album_artwork || other.album_artwork,
            artist_artwork: self.artist_artwork || other.artist_artwork,
            store_listing: self.store_listing || other.store_listing,
        }
    }
}

/// A destination with its switch and with what it wants fetched.
#[derive(Clone, Copy, Debug, PartialEq, Eq, Structural)]
pub struct Backend {
    pub destination: Destination,
    pub enabled: bool,
    pub solicits: Solicitation,
}

/// A call that a destination can receive.
#[derive(Clone, Copy, Debug, PartialEq, Eq, Structural)]
pub enum Operation {
    /// A track began to play.
    Started,
    /// A track was listened to.
    Ended,
    /// The position of playback jumped.
    Progress,
    /// Nothing is playing.
    Clear,
}

/// A call to make.
#[derive(Clone, Copy, Debug, PartialEq, Eq, Structural)]
pub struct Delivery {
    pub destination: Destination,
    pub operation: Operation,
}

/// A call that was made, and whether it failed.
#[derive(Clone, Copy, Debug, PartialEq, Eq, Structural)]
pub struct Attempt {
    pub delivery: Delivery,
    pub failed: bool,
}

/// Whether `backend` receives `operation` for a track of length `duration`
/// of which `heard` was heard. A destination that is switched off receives
/// nothing; the start of a track goes to all the others; the end of a track
/// goes to those that keep records, if the track counts as listened to; the
/// position and its clearing go to those that show it.
pub open spec fn receives(backend: Backend, operation: Operation, duration: Option<u64>, heard: u64) -> bool {
    backend.enabled && match operation {
        Operation::Started => true,
        Operation::Ended => backend.destination.records_listens() && eligible(duration, heard),
        Operation::Progress => backend.destination.shows_presence(),
        Operation::Clear => backend.destination.shows_presence(),
    }
}

/// The calls of `operation` to make, one for each of `backends` that
/// receives it, in their order.
pub open spec fn planned(
    backends: Seq<Backend>,
    operation: Operation,
    duration: Option<u64>,
    heard: u64,
) -> Seq<Delivery>
    decreases backends.len(),
{
    if backends.len() == 0 {
        Seq::empty()
    } else {
        let before = planned(backends.drop_last(), operation, duration, heard);
        if receives(backends.last(), operation, duration, heard) {
            before.push(Delivery { destination: backends.last().destination, operation })
        } else {
            before
        }
    }
}

/// All that the enabled ones among `backends` want fetched.
pub open spec fn solicited(backends: Seq<Backend>) -> Solicitation
    decreases backends.len(),
{
    if backends.len() == 0 {
        Solicitation::nothing()
    } else {
        let before = solicited(backends.drop_last());
        if backends.last().enabled {
            before.joined(backends.last().solicits)
        } else {
            before
        }
    }
}

/// The calls among `attempts` that failed, if `failed`, or that went through,
/// if not; in their order.
pub open spec fn outcomes(attempts: Seq<Attempt>, failed: bool) -> Seq<Delivery>
    decreases attempts.len(),
{
    if attempts.len() == 0 {
        Seq::empty()
    } else {
        let before = outcomes(attempts.drop_last(), failed);
        if attempts.last().failed == failed {
            before.push(attempts.last().delivery)
        } else {
            before
        }
    }
}

/// How a round of calls went.
#[derive(Debug)]
pub struct DispatchReport {
    /// The calls that went through.
    pub completed: Vec<Delivery>,
    /// The calls that failed, for the log.
    pub failed: Vec<Delivery>,
}

/// Sorts the calls that were made into those that went through and those that
/// failed. A round of calls as a whole never fails.
pub fn settle(attempts: &Vec<Attempt>) -> (report: DispatchReport)
    ensures
        report.completed@ == outcomes(attempts@, false),
        report.failed@ == outcomes(attempts@, true),
{
    let mut completed: Vec<Delivery> = Vec::new();
    let mut failed: Vec<Delivery> = Vec::new();
    let mut i: usize = 0;
    while i < attempts.len()
        invariant
            i <= attempts@.len(),
            completed@ == outcomes(attempts@.take(i as int), false),
            failed@ == outcomes(attempts@.take(i as int), true),
        decreases attempts@.len() - i,
    {
        proof {
            let upto = attempts@.take(i + 1);
            assert(upto.drop_last() =~= attempts@.take(i as int));
            assert(upto.last() == attempts@[i as int]);
        }
        if attempts[i].failed {
            failed.push(attempts[i].delivery);
        } else {
            completed.push(attempts[i].delivery);
        }
        i += 1;
    }
    assert(attempts@.take(i as int) =~= attempts@);
    DispatchReport { completed, failed }
}

/// The destinations with their switches.
#[derive(Debug)]
pub struct StatusBackends {
    backends: Vec<Backend>,
}

impl View for StatusBackends {
    type V = Seq<Backend>;

    closed spec fn view(&self) -> Seq<Backend> {
        self.backends@
    }
}

impl StatusBackends {
    pub fn new(backends: Vec<Backend>) -> (s: Self)
        ensures
            s@ == backends@,
    {
        StatusBackends { backends }
    }

    /// All the destinations, switched on or off.
    pub fn all(&self) -> (backends: &Vec<Backend>)
        ensures
            backends@ == self@,
    {
        &self.backends
    }

    /// What to fetch for a track that begins: all that an enabled destination
    /// wants.
    pub fn get_solicitations(&self) -> (wanted: Solicitation)
        ensures
            wanted == solicited(self@),
    {
        let mut wanted = Solicitation::none();
        let mut i: usize = 0;
        while i < self.backends.len()
            invariant
                i <= self.backends@.len(),
                wanted == solicited(self.backends@.take(i as int)),
            decreases self.backends@.len() - i,
        {
            proof {
                let upto = self.backends@.take(i + 1);
                assert(upto.drop_last() =~= self.backends@.take(i as int));
                assert(upto.last() == self.backends@[i as int]);
            }
            if self.backends[i].enabled {
                wanted = wanted.union(self.backends[i].solicits);
            }
            i += 1;
        }
        assert(self.backends@.take(i as int) =~= self.backends@);
        wanted
    }

    /// The calls of `operation` to make for a track of length `duration` of
    /// which `heard` was heard.
    pub fn plan(&self, operation: Operation, duration: Option<u64>, heard: u64) -> (deliveries: Vec<
        Delivery,
    >)
        ensures
            deliveries@ == planned(self@, operation, duration, heard),
    {
        let counts = is_eligible(duration, heard);
        let mut deliveries: Vec<Delivery> = Vec::new();
        let mut i: usize = 0;
        while i < self.backends.len()
            invariant
                i <= self.backends@.len(),
                counts == eligible(duration, heard),
                deliveries@ == planned(self.backends@.take(i as int), operation, duration, heard),
            decreases self.backends@.len() - i,
        {
            let backend = self.backends[i];
            proof {
                let upto = self.backends@.take(i + 1);
                assert(upto.drop_last() =~= self.backends@.take(i as int));
                assert(upto.last() == backend);
            }
            let wanted = backend.enabled && match operation {
                Operation::Started => true,
                Operation::Ended => match backend.destination {
                    Destination::Presence => false,
                    _ => counts,
                },
                _ => match backend.destination {
                    Destination::Presence => true,
                    _ => false,
                },
            };
            if wanted {
                deliveries.push(Delivery { destination: backend.destination, operation });
            }
            i += 1;
        }
        assert(self.backends@.take(i as int) =~= self.backends@);
        deliveries
    }

    /// The calls that tell of a track that began to play: one to each
    /// enabled destination.
    pub fn dispatch_track_started<T>(&self, context: &BackendContext<T>) -> (deliveries: Vec<
        Delivery,
    >)
        ensures
            deliveries@ == planned(
                self@,
                Operation::Started,
                context.track.duration,
                context.listened.accumulated,
            ),
    {
        self.plan(Operation::Started, context.track.duration, context.listened.accumulated)
    }

    /// The calls that record a track as listened to, when its tracking ended
    /// at `now`: one to each enabled destination that keeps records, if the
    /// track counts as listened to.
    pub fn dispatch_track_ended<T>(&self, context: &BackendContext<T>, now: i64) -> (deliveries:
        Vec<Delivery>)
        ensures
            deliveries@ == planned(
                self@,
                Operation::Ended,
                context.track.duration,
                context.listened.heard_at(now),
            ),
    {
        self.plan(Operation::Ended, context.track.duration, context.listened.total_heard_at(now))
    }

    /// The calls that tell of a jump in the position of playback: one to
    /// each enabled destination that shows it.
    pub fn dispatch_current_progress<T>(&self, context: &BackendContext<T>) -> (deliveries: Vec<
        Delivery,
    >)
        ensures
            deliveries@ == planned(
                self@,
                Operation::Progress,
                context.track.duration,
                context.listened.accumulated,
            ),
    {
        self.plan(Operation::Progress, context.track.duration, context.listened.accumulated)
    }

    /// The calls that clear what is shown of a track that no longer plays.
    pub fn clear_presence(&self) -> (deliveries: Vec<Delivery>)
        ensures
            deliveries@ == planned(self@, Operation::Clear, None, 0),
    {
        self.plan(Operation::Clear, None, 0)
    }
}

/// A call is planned for a destination exactly when the destination receives
/// it: whether another destination is there, is switched on, or receives
/// the call has no part in it.
pub proof fn lemma_plan_is_per_destination(
    backends: Seq<Backend>,
    operation: Operation,
    duration: Option<u64>,
    heard: u64,
    delivery: Delivery,
)
    ensures
        planned(backends, operation, duration, heard).contains(delivery) <==> exists|i: int|
            0 <= i < backends.len() && receives(#[trigger] backends[i], operation, duration, heard)
                && delivery == (Delivery { destination: backends[i].destination, operation }),
    decreases backends.len(),
{
    let plan = planned(backends, operation, duration, heard);
    if backends.len() > 0 {
        let rest = backends.drop_last();
        let before = planned(rest, operation, duration, heard);
        lemma_plan_is_per_destination(rest, operation, duration, heard, delivery);
        let own = Delivery { destination: backends.last().destination, operation };
        if plan.contains(delivery) {
            let at = choose|k: int| 0 <= k < plan.len() && plan[k] == delivery;
            if at < before.len() {
                assert(before[at] == delivery);
                assert(before.contains(delivery));
                let i = choose|i: int|
                    0 <= i < rest.len() && receives(#[trigger] rest[i], operation, duration, heard)
                        && delivery == (Delivery { destination: rest[i].destination, operation });
                assert(backends[i] == rest[i]);
            } else {
                assert(backends[backends.len() - 1] == backends.last());
            }
        }
        if exists|i: int|
            0 <= i < backends.len() && receives(#[trigger] backends[i], operation, duration, heard)
                && delivery == (Delivery { destination: backends[i].destination, operation }) {
            let i = choose|i: int|
                0 <= i < backends.len() && receives(
                    #[trigger] backends[i],
                    operation,
                    duration,
                    heard,
                ) && delivery == (Delivery { destination: backends[i].destination, operation });
            if i < rest.len() {
                assert(rest[i] == backends[i]);
                assert(before.contains(delivery));
                let at = choose|k: int| 0 <= k < before.len() && before[k] == delivery;
                assert(plan[at] == delivery);
            } else {
                assert(plan[plan.len() - 1] == delivery);
            }
        }
    }
}

/// The outcomes of two rounds put end to end are their outcomes put end to
/// end.
pub proof fn lemma_outcomes_concat(first: Seq<Attempt>, second: Seq<Attempt>, failed: bool)
    ensures
        outcomes(first + second, failed) == outcomes(first, failed) + outcomes(second, failed),
    decreases second.len(),
{
    if second.len() == 0 {
        assert(first + second =~= first);
        assert(outcomes(first, failed) + outcomes(second, failed) =~= outcomes(first, failed));
    } else {
        lemma_outcomes_concat(first, second.drop_last(), failed);
        assert((first + second).drop_last() =~= first + second.drop_last());
        assert((first + second).last() == second.last());
        if second.last().failed == failed {
            assert(outcomes(first, failed) + outcomes(second.drop_last(), failed).push(
                second.last().delivery,
            ) =~= (outcomes(first, failed) + outcomes(second.drop_last(), failed)).push(
                second.last().delivery,
            ));
        }
    }
}

/// A call that fails takes no other call with it: the calls that went
/// through are those that went through before it and those that went through
/// after it, and the failed call is listed once, between the failures before
/// it and those after it.
pub proof fn lemma_failure_is_isolated(before: Seq<Attempt>, broken: Delivery, after: Seq<Attempt>)
    ensures
        outcomes(before + seq![Attempt { delivery: broken, failed: true }] + after, false)
            == outcomes(before, false) + outcomes(after, false),
        outcomes(before + seq![Attempt { delivery: broken, failed: true }] + after, true)
            == outcomes(before, true).push(broken) + outcomes(after, true),
{
    let one = seq![Attempt { delivery: broken, failed: true }];
    lemma_outcomes_concat(before + one, after, false);
    lemma_outcomes_concat(before, one, false);
    lemma_outcomes_concat(before + one, after, true);
    lemma_outcomes_concat(before, one, true);
    assert(outcomes(one, false) =~= Seq::empty()) by {
        reveal_with_fuel(outcomes, 2);
        assert(one.drop_last() =~= Seq::empty());
    }
    assert(outcomes(one, true) =~= seq![broken]) by {
        reveal_with_fuel(outcomes, 2);
        assert(one.drop_last() =~= Seq::empty());
    }
    assert(outcomes(before, false) + Seq::<Delivery>::empty() =~= outcomes(before, false));
    assert(outcomes(before, true) + seq![broken] =~= outcomes(before, true).push(broken));
}

} // verus!
