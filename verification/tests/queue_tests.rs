use djbot::queue::{
    AddEffect, ContinuationEffect, DequeueEffect, EndedEffect, FailEffect, PlaybackHandle, Queue,
    QueueError, QueuedTrack, QueueMap, ResolutionEffect,
};

fn track(name: &str, uuid: u128) -> QueuedTrack {
    QueuedTrack { name: String::from(name), uuid }
}

#[test]
fn fresh_ids_keep_the_name() {
    let t = QueuedTrack::new(String::from("a song"));
    assert_eq!(t.name, "a song");
}

#[test]
fn add_effects_follow_queue_length() {
    let mut q = Queue::new();
    assert_eq!(q.add(track("a", 1)), AddEffect::StartResolve);
    assert_eq!(q.add(track("b", 2)), AddEffect::Prefetch);
    assert_eq!(q.add(track("c", 3)), AddEffect::Queued);
    assert_eq!(q.len(), 3);
}

#[test]
fn resolution_routes_to_waiting_slot() {
    let mut q = Queue::new();
    q.add(track("a", 1));
    q.add(track("b", 2));
    assert_eq!(q.resolution_done(1), ResolutionEffect::PlayNow);
    assert_eq!(q.current(), Some(PlaybackHandle { uuid: 1 }));
    assert_eq!(q.resolution_done(2), ResolutionEffect::HoldPaused);
    // A result nobody waits for is discarded.
    assert_eq!(q.resolution_done(99), ResolutionEffect::Stale);
}

#[test]
fn settled_occupancy_invariant_observable() {
    // P1 at the observable surface: once resolutions have settled, a
    // current handle exists exactly when the queue is non-empty.
    let mut q = Queue::new();
    assert!(q.is_empty() && q.current().is_none());
    q.add(track("a", 1));
    q.resolution_done(1);
    assert!(!q.is_empty() && q.current().is_some());
    q.track_ended(1);
    assert!(q.is_empty() && q.current().is_none());
}

#[test]
fn skip_names_current_and_does_not_advance() {
    let mut q = Queue::new();
    assert_eq!(q.skip(), Err(QueueError::NothingPlaying));
    q.add(track("a", 1));
    q.add(track("b", 2));
    q.resolution_done(1);
    q.resolution_done(2);
    assert_eq!(q.skip(), Ok(1));
    // Skipping twice before the ended notification still names the
    // same handle, and the queue has not moved.
    assert_eq!(q.skip(), Ok(1));
    assert_eq!(q.len(), 2);
}

#[test]
fn single_advancement_under_rapid_skips() {
    // P2: one pop per matching ended notification, never more.
    let mut q = Queue::new();
    q.add(track("a", 1));
    q.add(track("b", 2));
    q.resolution_done(1);
    q.resolution_done(2);
    let skipped = q.skip().unwrap();
    match q.track_ended(skipped) {
        EndedEffect::Advanced(ContinuationEffect::Promote { resume, prefetch }) => {
            assert_eq!(resume, 2);
            assert!(prefetch.is_none());
        }
        other => panic!("unexpected effect: {:?}", other),
    }
    assert_eq!(q.len(), 1);
    // The duplicate notification for the same ended handle is stale.
    assert!(matches!(q.track_ended(skipped), EndedEffect::Stale));
    assert_eq!(q.len(), 1);
}

#[test]
fn stale_notification_immunity() {
    // P3: an ended notification for a superseded handle mutates nothing.
    let mut q = Queue::new();
    q.add(track("a", 1));
    q.add(track("b", 2));
    q.resolution_done(1);
    q.resolution_done(2);
    assert!(matches!(q.track_ended(42), EndedEffect::Stale));
    assert_eq!(q.len(), 2);
    assert_eq!(q.current(), Some(PlaybackHandle { uuid: 1 }));
}

#[test]
fn gapless_pipelining_two_adds() {
    // P4: two adds on an empty queue pre-buffer the second track with
    // no trigger beyond the adds and their resolutions.
    let mut q = Queue::new();
    assert_eq!(q.add(track("a", 1)), AddEffect::StartResolve);
    assert_eq!(q.resolution_done(1), ResolutionEffect::PlayNow);
    assert_eq!(q.add(track("b", 2)), AddEffect::Prefetch);
    assert_eq!(q.resolution_done(2), ResolutionEffect::HoldPaused);
    // The pre-buffered handle is promoted without any new resolution.
    match q.track_ended(1) {
        EndedEffect::Advanced(ContinuationEffect::Promote { resume, .. }) => assert_eq!(resume, 2),
        other => panic!("unexpected effect: {:?}", other),
    }
}

#[test]
fn resolution_failure_skip_over() {
    // P5: with the middle track failing to resolve, one natural end
    // drops two entries and the third track plays.
    let mut q = Queue::new();
    q.add(track("a", 1));
    q.resolution_done(1);
    q.add(track("b", 2));
    assert!(matches!(q.resolution_failed(2), FailEffect::LookaheadFailed));
    q.add(track("c", 3));
    assert_eq!(q.len(), 3);
    match q.track_ended(1) {
        EndedEffect::Advanced(ContinuationEffect::ResolveFront(t)) => assert_eq!(t.uuid, 2),
        other => panic!("unexpected effect: {:?}", other),
    }
    match q.resolution_failed(2) {
        FailEffect::FrontDropped(ContinuationEffect::ResolveFront(t)) => assert_eq!(t.uuid, 3),
        other => panic!("unexpected effect: {:?}", other),
    }
    assert_eq!(q.resolution_done(3), ResolutionEffect::PlayNow);
    assert_eq!(q.len(), 1);
    assert_eq!(q.current(), Some(PlaybackHandle { uuid: 3 }));
}

#[test]
fn example_add_add_skip_add_then_natural_end() {
    // P7: add(A); add(B); skip(); add(C); natural end of A's handle.
    let mut q = Queue::new();
    q.add(track("a", 1));
    q.resolution_done(1);
    q.add(track("b", 2));
    q.resolution_done(2);
    let stop = q.skip().unwrap();
    assert_eq!(stop, 1);
    q.add(track("c", 3));
    match q.track_ended(1) {
        EndedEffect::Advanced(ContinuationEffect::Promote { resume, prefetch }) => {
            assert_eq!(resume, 2);
            assert_eq!(prefetch.unwrap().uuid, 3);
        }
        other => panic!("unexpected effect: {:?}", other),
    }
    assert_eq!(q.len(), 2);
    assert_eq!(q.current(), Some(PlaybackHandle { uuid: 2 }));
    let names: Vec<String> = q.current_queue().into_iter().map(|t| t.name).collect();
    assert_eq!(names, vec![String::from("b"), String::from("c")]);
}

#[test]
fn failed_first_resolution_reaches_idle() {
    let mut q = Queue::new();
    q.add(track("a", 1));
    match q.resolution_failed(1) {
        FailEffect::FrontDropped(ContinuationEffect::Finished) => {}
        other => panic!("unexpected effect: {:?}", other),
    }
    assert!(q.is_empty());
    assert!(q.current().is_none());
}

#[test]
fn stop_clears_and_is_idempotent() {
    let mut q = Queue::new();
    q.add(track("a", 1));
    q.resolution_done(1);
    q.add(track("b", 2));
    q.resolution_done(2);
    let eff = q.stop();
    assert_eq!(eff.stop_current, Some(1));
    assert_eq!(eff.stop_next, Some(2));
    assert!(q.is_empty());
    let again = q.stop();
    assert_eq!(again.stop_current, None);
    assert_eq!(again.stop_next, None);
    assert!(q.is_empty());
}

#[test]
fn dequeue_regimes() {
    let mut q = Queue::new();
    q.add(track("a", 1));
    q.resolution_done(1);
    q.add(track("b", 2));
    q.resolution_done(2);
    q.add(track("c", 3));
    q.add(track("d", 4));

    // Out of bounds: nothing happens.
    let DequeueEffect { removed, stop, prefetch } = q.dequeue(9);
    assert!(removed.is_none() && stop.is_none() && prefetch.is_none());
    assert_eq!(q.len(), 4);

    // A middle entry: plain removal, no playback side effect.
    let eff = q.dequeue(2);
    assert_eq!(eff.removed.unwrap().uuid, 3);
    assert!(eff.stop.is_none() && eff.prefetch.is_none());
    assert_eq!(q.len(), 3);

    // Index one: the pre-fetched handle is stopped and re-derived for
    // the new second entry.
    let eff = q.dequeue(1);
    assert_eq!(eff.removed.unwrap().uuid, 2);
    assert_eq!(eff.stop, Some(2));
    assert_eq!(eff.prefetch.unwrap().uuid, 4);
    assert_eq!(q.len(), 2);

    // Index zero: equivalent to a skip; the structural change waits
    // for the continuation.
    let eff = q.dequeue(0);
    assert_eq!(eff.removed.unwrap().uuid, 1);
    assert_eq!(eff.stop, Some(1));
    assert_eq!(q.len(), 2);
}

#[test]
fn shuffle_keeps_head_and_contents() {
    let mut q = Queue::new();
    for (i, name) in ["a", "b", "c", "d", "e"].iter().enumerate() {
        q.add(track(name, i as u128 + 1));
    }
    q.resolution_done(1);
    q.resolution_done(2);
    for _ in 0..20 {
        let eff = q.shuffle();
        assert_eq!(q.len(), 5);
        let snapshot = q.current_queue();
        assert_eq!(snapshot[0].uuid, 1);
        let mut ids: Vec<u128> = snapshot.iter().map(|t| t.uuid).collect();
        ids.sort();
        assert_eq!(ids, vec![1, 2, 3, 4, 5]);
        // The next slot is re-derived for whatever is second now.
        assert_eq!(eff.prefetch.unwrap().uuid, snapshot[1].uuid);
    }
}

#[test]
fn shuffle_of_short_queue_changes_nothing() {
    let mut q = Queue::new();
    q.add(track("a", 1));
    q.resolution_done(1);
    let eff = q.shuffle();
    assert!(eff.stop.is_none() && eff.prefetch.is_none());
    assert_eq!(q.len(), 1);
}

#[test]
fn registry_join_take_restore() {
    let mut m = QueueMap::new();
    assert!(!m.contains_guild(10));
    assert!(m.join_guild(10));
    assert!(!m.join_guild(10));
    assert!(m.contains_guild(10));

    let mut q = m.take_queue(10).unwrap();
    assert!(!m.contains_guild(10));
    q.add(track("a", 1));
    q.resolution_done(1);
    m.restore_queue(10, q);
    assert!(m.contains_guild(10));
    assert_eq!(m.take_queue(10).unwrap().len(), 1);
    assert!(m.take_queue(10).is_none());
}

#[test]
fn registry_teardown_exactly_once() {
    // P6, registry half: teardown removes the entry and reports the
    // handles to stop; a second teardown finds nothing.
    let mut m = QueueMap::new();
    m.join_guild(10);
    let mut q = m.take_queue(10).unwrap();
    q.add(track("a", 1));
    q.resolution_done(1);
    q.add(track("b", 2));
    q.resolution_done(2);
    m.restore_queue(10, q);

    let eff = m.teardown_guild(10).unwrap();
    assert_eq!(eff.stop_current, Some(1));
    assert_eq!(eff.stop_next, Some(2));
    assert!(!m.contains_guild(10));
    assert!(m.teardown_guild(10).is_none());
}
