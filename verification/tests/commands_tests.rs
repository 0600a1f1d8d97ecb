use djbot::commands::{
    classify_play_request, pause_toggle, plan_remove, resume_decision, volume_in_range,
    PauseAction, PlayRequest, PlayState, RemovePlan, ResumeAction,
};
use djbot::queue::QueueError;

#[test]
fn classify_search_text() {
    match classify_play_request(String::from("never gonna give you up")) {
        PlayRequest::Search(s) => assert_eq!(s, "never gonna give you up"),
        other => panic!("unexpected: {:?}", other),
    }
}

#[test]
fn classify_direct_link() {
    match classify_play_request(String::from("https://example.com/v?x=1")) {
        PlayRequest::DirectUrl(u) => assert_eq!(u, "https://example.com/v?x=1"),
        other => panic!("unexpected: {:?}", other),
    }
}

#[test]
fn classify_playlist_link() {
    match classify_play_request(String::from("https://example.com/watch?v=a&list=PL123")) {
        PlayRequest::YtPlaylist(u) => assert_eq!(u, "https://example.com/watch?v=a&list=PL123"),
        other => panic!("unexpected: {:?}", other),
    }
}

#[test]
fn classify_spotify_playlist() {
    match classify_play_request(String::from(
        "https://open.spotify.com/playlist/5I1uPiJpPmphKfQHDjWHFa?si=xyz",
    )) {
        PlayRequest::SpotifyPlaylist(id) => assert_eq!(id, "5I1uPiJpPmphKfQHDjWHFa"),
        other => panic!("unexpected: {:?}", other),
    }
    match classify_play_request(String::from(
        "https://open.spotify.com/playlist/5I1uPiJpPmphKfQHDjWHFa",
    )) {
        PlayRequest::SpotifyPlaylist(id) => assert_eq!(id, "5I1uPiJpPmphKfQHDjWHFa"),
        other => panic!("unexpected: {:?}", other),
    }
}

#[test]
fn pause_and_resume_decisions() {
    assert_eq!(pause_toggle(PlayState::Playing), PauseAction::PauseNow);
    assert_eq!(pause_toggle(PlayState::Paused), PauseAction::ResumeNow);
    assert_eq!(pause_toggle(PlayState::Stopped), PauseAction::ReportIdle);

    assert_eq!(resume_decision(PlayState::Paused), ResumeAction::ResumeNow);
    assert_eq!(resume_decision(PlayState::Playing), ResumeAction::ReportAlreadyPlaying);
    assert_eq!(resume_decision(PlayState::Stopped), ResumeAction::ReportIdle);
}

#[test]
fn volume_range_edges() {
    assert!(volume_in_range(0));
    assert!(volume_in_range(100));
    assert!(!volume_in_range(-1));
    assert!(!volume_in_range(101));
}

#[test]
fn prefix_length_limit() {
    assert!(djbot::commands::valid_prefix("~"));
    assert!(djbot::commands::valid_prefix("12345"));
    assert!(!djbot::commands::valid_prefix("123456"));
}

#[test]
fn remove_plans() {
    assert_eq!(plan_remove(3, 0), Ok(RemovePlan::SkipCurrent));
    assert_eq!(plan_remove(3, 1), Ok(RemovePlan::TakeAt(1)));
    assert_eq!(plan_remove(3, 2), Ok(RemovePlan::TakeAt(2)));
    assert_eq!(plan_remove(3, 3), Err(QueueError::IndexOutOfRange));
    assert_eq!(plan_remove(3, 9), Err(QueueError::IndexOutOfRange));
}
