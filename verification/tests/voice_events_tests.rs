use djbot::voice_events::{ChannelIdleChecker, IdleTick, IDLE_TICK_LIMIT};

#[test]
fn idle_teardown_after_five_ticks() {
    // P6, monitor half: five consecutive idle samples tear the
    // session down on the fifth, not earlier.
    assert_eq!(IDLE_TICK_LIMIT, 5);
    let mut m = ChannelIdleChecker::new();
    for _ in 0..4 {
        assert_eq!(m.tick(true, 0), IdleTick::Continue);
    }
    assert_eq!(m.tick(true, 0), IdleTick::Teardown);
}

#[test]
fn either_idleness_counts() {
    // Zero occupants with a busy queue is idle; so is an empty queue
    // with listeners present.
    let mut m = ChannelIdleChecker::new();
    for _ in 0..4 {
        assert_eq!(m.tick(false, 0), IdleTick::Continue);
    }
    assert_eq!(m.tick(true, 3), IdleTick::Teardown);
}

#[test]
fn activity_resets_the_count() {
    let mut m = ChannelIdleChecker::new();
    for _ in 0..4 {
        assert_eq!(m.tick(true, 0), IdleTick::Continue);
    }
    // A non-idle sample: occupants present and something queued.
    assert_eq!(m.tick(false, 2), IdleTick::Continue);
    for _ in 0..4 {
        assert_eq!(m.tick(true, 0), IdleTick::Continue);
    }
    assert_eq!(m.tick(true, 0), IdleTick::Teardown);
}
