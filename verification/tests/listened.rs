use playback_status::clock::{instant_of, Reading};
use playback_status::status_backend::listened::{elapsed, CurrentListened, Listened};

#[test]
fn new_ledger_has_heard_nothing() {
    let ledger = Listened::new();
    assert!(ledger.current.is_none());
    assert_eq!(ledger.accumulated, 0);
    assert_eq!(ledger.total_heard_at(123_456), 0);
    assert_eq!(ledger.total_heard(), 0);
}

#[test]
fn elapsed_is_never_negative() {
    assert_eq!(elapsed(1_000, 4_500), 3_500);
    assert_eq!(elapsed(4_500, 1_000), 0);
    assert_eq!(elapsed(7, 7), 0);
    assert_eq!(elapsed(i64::MIN, i64::MAX), u64::MAX);
    assert_eq!(elapsed(-5, 5), 10);
}

#[test]
fn total_after_final_flush_is_sum_of_spans() {
    let mut ledger = Listened::new();
    let spans: [(i64, u64, i64); 4] =
        [(1_000, 0, 4_000), (10_000, 30_000, 10_250), (20_000, 5_000, 20_000), (50_000, 0, 110_000)];
    let mut sum = 0u64;
    for (start, position, end) in spans {
        ledger.set_new_current_at(position, start);
        ledger.flush_current_at(end);
        sum += (end - start) as u64;
    }
    assert_eq!(sum, 3_000 + 250 + 0 + 60_000);
    assert!(ledger.current.is_none());
    assert_eq!(ledger.accumulated, sum);
    assert_eq!(ledger.total_heard_at(999_999), sum);
    assert_eq!(ledger.total_heard(), sum);
}

#[test]
fn flush_is_idempotent() {
    let mut ledger = Listened::new_with_current_at(12_000, 100);
    ledger.flush_current_at(600);
    assert_eq!(ledger.accumulated, 500);
    ledger.flush_current_at(9_000);
    assert_eq!(ledger.accumulated, 500);
    ledger.flush_current();
    assert_eq!(ledger.accumulated, 500);
    assert!(ledger.current.is_none());
}

#[test]
fn flush_with_clock_set_back_adds_nothing() {
    let mut ledger = Listened::new_with_current_at(0, 10_000);
    ledger.flush_current_at(4_000);
    assert_eq!(ledger.accumulated, 0);
    assert!(ledger.current.is_none());
}

#[test]
fn expected_position_right_after_opening_is_the_position() {
    let mut ledger = Listened::new();
    ledger.set_new_current_at(42_000, 1_700_000_000_000);
    let current = ledger.current.unwrap();
    assert_eq!(current.started_at, 1_700_000_000_000);
    assert_eq!(current.position, 42_000);
    assert_eq!(current.get_expected_song_position_at(1_700_000_000_000), 42_000);
    assert_eq!(current.get_expected_song_position_at(1_700_000_001_500), 43_500);
    assert_eq!(current.get_expected_song_position_at(1_600_000_000_000), 42_000);
}

#[test]
fn expected_position_by_the_wall_clock_is_within_a_second() {
    let mut ledger = Listened::new();
    ledger.set_new_current(42_000);
    let expected = ledger.current.unwrap().get_expected_song_position();
    assert!(expected >= 42_000);
    assert!(expected < 43_000);
}

#[test]
fn wall_clock_anchor_is_a_present_day_instant() {
    let ledger = Listened::new_with_current(0);
    let anchor = ledger.current.unwrap().started_at;
    // Later than 2020-01-01 and earlier than 2100-01-01, in milliseconds.
    assert!(anchor > 1_577_836_800_000);
    assert!(anchor < 4_102_444_800_000);
}

#[test]
fn total_heard_counts_the_open_span() {
    let mut ledger = Listened::new();
    ledger.set_new_current_at(0, 1_000);
    ledger.flush_current_at(3_000);
    ledger.set_new_current_at(90_000, 10_000);
    assert_eq!(ledger.total_heard_at(10_000), 2_000);
    assert_eq!(ledger.total_heard_at(14_000), 6_000);
    assert_eq!(ledger.accumulated, 2_000);
}

#[test]
fn sums_saturate() {
    let mut ledger = Listened { current: None, accumulated: u64::MAX - 5 };
    ledger.set_new_current_at(u64::MAX - 1, 0);
    let current: CurrentListened = ledger.current.unwrap();
    assert_eq!(current.get_expected_song_position_at(10), u64::MAX);
    assert_eq!(ledger.total_heard_at(10), u64::MAX);
    ledger.flush_current_at(3);
    assert_eq!(ledger.accumulated, u64::MAX - 2);
}

#[test]
fn every_reading_of_the_clock_is_an_instant() {
    assert_eq!(instant_of(Reading::At(1_700_000_000_123)), 1_700_000_000_123);
    assert_eq!(instant_of(Reading::At(0)), 0);
    assert_eq!(instant_of(Reading::At(-5)), -5);
    assert_eq!(instant_of(Reading::BeforeEpoch), 0);
    assert_eq!(instant_of(Reading::BeyondCount), i64::MAX);
}
