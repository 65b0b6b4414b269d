use sipnab::clock::Moment;
use sipnab::rate_limit::{
    FixedWindowLimiter, Refusal, DEFAULT_MAX_TRACKED_PEERS, MIN_TRACKED_PEERS, WINDOW,
};

const NOW: Moment = Moment { nanos: 5_000_000_000 };

fn after(nanos: u64) -> Moment {
    Moment { nanos: NOW.nanos + nanos }
}

#[test]
fn the_per_peer_cap_refuses_the_event_that_exceeds_it() {
    let mut lim = FixedWindowLimiter::new(0, 2, DEFAULT_MAX_TRACKED_PEERS, NOW);
    assert_eq!(lim.check("a", NOW), Ok(()));
    assert_eq!(lim.check("a", NOW), Ok(()));
    assert_eq!(
        lim.check("a", NOW),
        Err(Refusal::PerPeer),
        "the third event in a 2/s window must be refused"
    );
}

#[test]
fn one_noisy_peer_does_not_spend_another_peers_allowance() {
    let mut lim = FixedWindowLimiter::new(1000, 1, DEFAULT_MAX_TRACKED_PEERS, NOW);
    assert_eq!(lim.check("noisy", NOW), Ok(()));
    assert_eq!(lim.check("noisy", NOW), Err(Refusal::PerPeer));
    assert_eq!(lim.check("quiet", NOW), Ok(()), "a quiet peer keeps its own allowance");
}

#[test]
fn a_new_window_restores_the_allowance() {
    let mut lim = FixedWindowLimiter::new(0, 1, DEFAULT_MAX_TRACKED_PEERS, NOW);
    assert_eq!(lim.check("a", NOW), Ok(()));
    assert_eq!(
        lim.check("a", after(999_000_000)),
        Err(Refusal::PerPeer),
        "still inside the window, so still refused"
    );
    assert_eq!(
        lim.check("a", after(WINDOW)),
        Ok(()),
        "a whole window later the allowance is back"
    );
}

#[test]
fn the_global_ceiling_bounds_every_peer_together() {
    let mut lim = FixedWindowLimiter::new(2, 100, DEFAULT_MAX_TRACKED_PEERS, NOW);
    assert_eq!(lim.check("a", NOW), Ok(()));
    assert_eq!(lim.check("b", NOW), Ok(()));
    assert_eq!(
        lim.check("a", NOW),
        Err(Refusal::Global),
        "the third event hits the global ceiling of 2 whoever sends it"
    );
}

#[test]
fn zero_disables_a_cap_rather_than_refusing_everything() {
    let mut lim = FixedWindowLimiter::new(0, 0, DEFAULT_MAX_TRACKED_PEERS, NOW);
    for _ in 0..10_000 {
        assert_eq!(lim.check("a", NOW), Ok(()), "0 and 0 must limit nothing");
    }
    assert_eq!(lim.refused_total(), 0);
}

#[test]
fn a_full_tracking_map_refuses_a_new_peer() {
    let mut lim = FixedWindowLimiter::new(u64::MAX, 1, DEFAULT_MAX_TRACKED_PEERS, NOW);
    for i in 0..DEFAULT_MAX_TRACKED_PEERS {
        assert_eq!(lim.check(i, NOW), Ok(()), "first event from fresh peer {i} is allowed");
    }
    assert_eq!(
        lim.check(DEFAULT_MAX_TRACKED_PEERS, NOW),
        Err(Refusal::TrackingFull),
        "a new peer past the tracking bound must be refused, not waved through"
    );
}

#[test]
fn the_configured_capacity_is_what_bounds_the_map() {
    let mut lim = FixedWindowLimiter::new(u64::MAX, 1, 3, NOW);
    for i in 0..3 {
        assert_eq!(lim.check(i, NOW), Ok(()), "peer {i} fits in a map of 3");
    }
    assert_eq!(
        lim.check(3, NOW),
        Err(Refusal::TrackingFull),
        "the fourth peer must be refused by a map of 3, which the shipped \
         default would have admitted"
    );
    assert_eq!(lim.max_tracked_peers(), 3, "the caller's figure is reported");
}

#[test]
fn a_map_of_one_is_clamped_up_to_the_floor() {
    let mut lim = FixedWindowLimiter::new(u64::MAX, 1, 1, NOW);
    assert_eq!(lim.max_tracked_peers(), MIN_TRACKED_PEERS);
    assert_eq!(lim.check("first", NOW), Ok(()));
    assert_eq!(
        lim.check("second", NOW),
        Ok(()),
        "at the floor a second peer still gets its own allowance; at 1 the \
         first sender would have taken the whole window"
    );
}

#[test]
fn refusals_are_counted_and_admissions_are_not() {
    let mut lim = FixedWindowLimiter::new(0, 1, DEFAULT_MAX_TRACKED_PEERS, NOW);
    assert_eq!(lim.check("a", NOW), Ok(()));
    assert_eq!(lim.refused_total(), 0, "an admitted event is not a refusal");
    assert!(lim.check("a", NOW).is_err());
    assert!(lim.check("a", NOW).is_err());
    assert_eq!(lim.refused_total(), 2, "both refusals counted");
}

#[test]
fn the_configured_caps_are_reported() {
    let lim: FixedWindowLimiter<u64> = FixedWindowLimiter::new(7, 3, 50, NOW);
    assert_eq!(lim.global_max(), 7);
    assert_eq!(lim.per_peer_max(), 3);
    assert_eq!(lim.max_tracked_peers(), 50);
}

#[test]
fn a_known_peer_is_still_served_when_the_map_is_full() {
    let mut lim = FixedWindowLimiter::new(0, 2, 2, NOW);
    assert_eq!(lim.check(1u64, NOW), Ok(()));
    assert_eq!(lim.check(2u64, NOW), Ok(()));
    assert_eq!(lim.check(3u64, NOW), Err(Refusal::TrackingFull));
    assert_eq!(lim.check(1u64, NOW), Ok(()));
    assert_eq!(lim.check(3u64, after(WINDOW)), Ok(()), "a new window forgets the peers");
}

#[test]
fn a_burst_can_straddle_a_boundary_and_a_loop_cannot_exceed_the_cap() {
    let mut lim = FixedWindowLimiter::new(2, 0, 10, NOW);
    assert!(lim.check("a", after(900_000_000)).is_ok());
    assert!(lim.check("a", after(900_000_000)).is_ok());
    assert!(lim.check("a", after(WINDOW)).is_ok());
    assert!(lim.check("a", after(WINDOW)).is_ok());
    assert_eq!(lim.check("a", after(WINDOW)), Err(Refusal::Global));

    let mut lim = FixedWindowLimiter::new(0, 3, 10, NOW);
    let admitted =
        (0..100u64).filter(|i| lim.check("a", after(i * 50_000_000)).is_ok()).count();
    assert_eq!(admitted, 15, "five windows of three");
}
