use playback_status::status_backend::listened::Listened;
use playback_status::status_backend::{
    is_eligible, settle, Attempt, Backend, BackendContext, Delivery, Destination, Operation,
    Solicitation, StatusBackends,
};
use playback_status::track::{Album, Track};

fn track(duration: Option<u64>) -> Track {
    Track {
        persistent_id: "0123456789ABCDEF".to_string(),
        name: "name".to_string(),
        artist: Some("artist".to_string()),
        album: Album { name: None, artist: None },
        duration,
        track_number: None,
        start: 0,
    }
}

fn context(duration: Option<u64>, heard: u64) -> BackendContext<()> {
    BackendContext {
        track: track(duration),
        position: None,
        listened: Listened { current: None, accumulated: heard },
        data: (),
    }
}

fn backend(destination: Destination, enabled: bool) -> Backend {
    Backend {
        destination,
        enabled,
        solicits: Solicitation { album_artwork: false, artist_artwork: false, store_listing: false },
    }
}

fn all_enabled() -> StatusBackends {
    StatusBackends::new(vec![
        backend(Destination::Presence, true),
        backend(Destination::Scrobbler, true),
        backend(Destination::ListenSubmitter, true),
    ])
}

#[test]
fn track_of_200_seconds_needs_100() {
    assert!(!is_eligible(Some(200_000), 99_999));
    assert!(is_eligible(Some(200_000), 100_000));
    assert!(is_eligible(Some(200_000), 200_000));
}

#[test]
fn track_of_500_seconds_needs_240() {
    assert!(!is_eligible(Some(500_000), 239_999));
    assert!(is_eligible(Some(500_000), 240_000));
    assert!(is_eligible(Some(500_000), 250_000));
}

#[test]
fn track_of_25_seconds_is_never_eligible() {
    assert!(!is_eligible(Some(25_000), 0));
    assert!(!is_eligible(Some(25_000), 25_000));
    assert!(!is_eligible(Some(25_000), 1_000_000));
    assert!(!is_eligible(Some(29_999), u64::MAX));
}

#[test]
fn eligibility_edges() {
    assert!(is_eligible(Some(30_000), 15_000));
    assert!(!is_eligible(Some(30_000), 14_999));
    assert!(!is_eligible(Some(30_001), 15_000));
    assert!(is_eligible(Some(30_001), 15_001));
    assert!(is_eligible(Some(480_000), 240_000));
    assert!(is_eligible(Some(u64::MAX), 240_000));
    assert!(is_eligible(Some(u64::MAX), u64::MAX));
    assert!(!is_eligible(None, u64::MAX));
}

#[test]
fn started_goes_to_every_enabled_destination() {
    let backends = StatusBackends::new(vec![
        backend(Destination::Presence, true),
        backend(Destination::Scrobbler, false),
        backend(Destination::ListenSubmitter, true),
    ]);
    let plan = backends.dispatch_track_started(&context(Some(200_000), 0));
    assert_eq!(
        plan,
        vec![
            Delivery { destination: Destination::Presence, operation: Operation::Started },
            Delivery { destination: Destination::ListenSubmitter, operation: Operation::Started },
        ]
    );
}

#[test]
fn ended_goes_to_recording_destinations_when_eligible() {
    let backends = all_enabled();
    let plan = backends.dispatch_track_ended(&context(Some(200_000), 100_000), 0);
    assert_eq!(
        plan,
        vec![
            Delivery { destination: Destination::Scrobbler, operation: Operation::Ended },
            Delivery { destination: Destination::ListenSubmitter, operation: Operation::Ended },
        ]
    );
    assert!(backends.dispatch_track_ended(&context(Some(200_000), 99_999), 0).is_empty());
    assert!(backends.dispatch_track_ended(&context(Some(25_000), 25_000), 0).is_empty());
    assert!(backends.dispatch_track_ended(&context(None, 500_000), 0).is_empty());
}

#[test]
fn ended_counts_the_open_span_up_to_now() {
    let backends = all_enabled();
    let mut open = context(Some(200_000), 40_000);
    open.listened.set_new_current_at(0, 1_000_000);
    assert!(backends.dispatch_track_ended(&open, 1_059_999).is_empty());
    assert_eq!(backends.dispatch_track_ended(&open, 1_060_000).len(), 2);
}

#[test]
fn progress_and_clear_go_to_presence_only() {
    let backends = all_enabled();
    assert_eq!(
        backends.dispatch_current_progress(&context(Some(200_000), 0)),
        vec![Delivery { destination: Destination::Presence, operation: Operation::Progress }]
    );
    assert_eq!(
        backends.clear_presence(),
        vec![Delivery { destination: Destination::Presence, operation: Operation::Clear }]
    );
    let without = StatusBackends::new(vec![
        backend(Destination::Presence, false),
        backend(Destination::Scrobbler, true),
    ]);
    assert!(without.dispatch_current_progress(&context(Some(200_000), 0)).is_empty());
    assert!(without.clear_presence().is_empty());
}

#[test]
fn nothing_enabled_nothing_planned() {
    let backends = StatusBackends::new(Vec::new());
    assert!(backends.dispatch_track_started(&context(Some(200_000), 0)).is_empty());
    assert!(backends.dispatch_track_ended(&context(Some(200_000), 200_000), 0).is_empty());
    assert_eq!(
        backends.get_solicitations(),
        Solicitation { album_artwork: false, artist_artwork: false, store_listing: false }
    );
}

#[test]
fn solicitations_are_joined_over_enabled_destinations() {
    let backends = StatusBackends::new(vec![
        Backend {
            destination: Destination::Presence,
            enabled: true,
            solicits: Solicitation { album_artwork: true, artist_artwork: false, store_listing: false },
        },
        Backend {
            destination: Destination::Scrobbler,
            enabled: false,
            solicits: Solicitation { album_artwork: false, artist_artwork: true, store_listing: false },
        },
        Backend {
            destination: Destination::ListenSubmitter,
            enabled: true,
            solicits: Solicitation { album_artwork: false, artist_artwork: false, store_listing: true },
        },
    ]);
    assert_eq!(
        backends.get_solicitations(),
        Solicitation { album_artwork: true, artist_artwork: false, store_listing: true }
    );
    assert_eq!(backends.all().len(), 3);
}

#[test]
fn failing_destination_does_not_stop_the_other() {
    let backends = StatusBackends::new(vec![
        backend(Destination::Scrobbler, true),
        backend(Destination::ListenSubmitter, true),
    ]);
    let plan = backends.dispatch_track_ended(&context(Some(200_000), 200_000), 0);
    assert_eq!(plan.len(), 2);
    // The first destination always fails; every planned call is still made.
    let mut calls = Vec::new();
    let mut attempts = Vec::new();
    for delivery in plan {
        calls.push(delivery.destination);
        let failed = delivery.destination == Destination::Scrobbler;
        attempts.push(Attempt { delivery, failed });
    }
    assert_eq!(calls, vec![Destination::Scrobbler, Destination::ListenSubmitter]);
    let report = settle(&attempts);
    assert_eq!(
        report.completed,
        vec![Delivery { destination: Destination::ListenSubmitter, operation: Operation::Ended }]
    );
    assert_eq!(
        report.failed,
        vec![Delivery { destination: Destination::Scrobbler, operation: Operation::Ended }]
    );
}

#[test]
fn settle_keeps_the_order_of_calls() {
    let started = |destination| Delivery { destination, operation: Operation::Started };
    let attempts = vec![
        Attempt { delivery: started(Destination::Presence), failed: false },
        Attempt { delivery: started(Destination::Scrobbler), failed: true },
        Attempt { delivery: started(Destination::ListenSubmitter), failed: false },
    ];
    let report = settle(&attempts);
    assert_eq!(
        report.completed,
        vec![started(Destination::Presence), started(Destination::ListenSubmitter)]
    );
    assert_eq!(report.failed, vec![started(Destination::Scrobbler)]);
    let nothing = settle(&Vec::new());
    assert!(nothing.completed.is_empty());
    assert!(nothing.failed.is_empty());
}
