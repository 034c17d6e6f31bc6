use selfsonic::api::models::Child;
use selfsonic::playback::dj::{filter_dedupe, to_metas};
use selfsonic::playback::engine::{
    scrobble_threshold, should_scrobble, take_matching, LoopMode, ReadyTrack, TakeReady, TrackMeta,
};
use selfsonic::playback::position::{PositionGuard, SWITCH_TIMEOUT_MS};
use std::collections::HashSet;
use std::sync::Mutex;
use std::time::Duration;

fn track(id: &str) -> TrackMeta {
    TrackMeta {
        id: id.to_string(),
        title: format!("title {id}"),
        artist: "artist".into(),
        album: "album".into(),
        album_id: String::new(),
        cover_art: None,
        duration: 0,
        track_number: None,
        disc_number: None,
    }
}

#[test]
fn loop_mode_cycle() {
    assert_eq!(LoopMode::Off.cycle(), LoopMode::Track);
    assert_eq!(LoopMode::Track.cycle(), LoopMode::Playlist);
    assert_eq!(LoopMode::Playlist.cycle(), LoopMode::Off);
}

#[test]
fn scrobble_short_track_threshold_is_half() {
    let duration = Duration::from_secs(6 * 60).as_nanos();
    assert_eq!(scrobble_threshold(duration), Duration::from_secs(3 * 60).as_nanos());
    assert!(!should_scrobble(Duration::from_secs(3 * 60 - 1).as_nanos(), duration));
    assert!(should_scrobble(Duration::from_secs(3 * 60).as_nanos(), duration));
    assert!(should_scrobble(Duration::from_secs(5 * 60).as_nanos(), duration));
}

#[test]
fn scrobble_long_track_threshold_is_four_minutes() {
    let duration = Duration::from_secs(20 * 60).as_nanos();
    assert_eq!(scrobble_threshold(duration), Duration::from_secs(4 * 60).as_nanos());
    assert!(!should_scrobble(Duration::from_secs(4 * 60 - 1).as_nanos(), duration));
    assert!(should_scrobble(Duration::from_secs(4 * 60).as_nanos(), duration));
    assert!(should_scrobble(Duration::from_secs(10 * 60).as_nanos(), duration));
}

#[test]
fn scrobble_unknown_duration_falls_back_to_four_minutes() {
    let duration = Duration::ZERO.as_nanos();
    assert_eq!(scrobble_threshold(duration), Duration::from_secs(4 * 60).as_nanos());
    assert!(!should_scrobble(Duration::from_secs(3 * 60).as_nanos(), duration));
    assert!(should_scrobble(Duration::from_secs(4 * 60).as_nanos(), duration));
}

#[test]
fn take_matching_consumes_matching_track() {
    let slot = Mutex::new(Some(ReadyTrack { id: "a".into(), value: 42 }));
    assert!(matches!(
        take_matching(&mut slot.lock().unwrap(), "a"),
        TakeReady::Consumed(42)
    ));
    assert!(slot.lock().unwrap().is_none());
}

#[test]
fn take_matching_discards_foreign_track() {
    let slot = Mutex::new(Some(ReadyTrack { id: "b".into(), value: 7 }));
    match take_matching(&mut slot.lock().unwrap(), "a") {
        TakeReady::Discarded(id) => assert_eq!(id, "b"),
        other => panic!("expected Discarded, got {other:?}"),
    }
    assert!(slot.lock().unwrap().is_none());
}

#[test]
fn take_matching_reports_empty_slot() {
    let slot = Mutex::new(None::<ReadyTrack<i32>>);
    assert!(matches!(take_matching(&mut slot.lock().unwrap(), "a"), TakeReady::Empty));
}

#[test]
fn filter_dedupes_and_excludes() {
    let candidates = vec![track("a"), track("b"), track("c"), track("a")];
    let exclude: HashSet<_> = ["b".to_string()].into_iter().collect();
    let out = filter_dedupe(candidates, &exclude);
    let ids: Vec<_> = out.iter().map(|t| t.id.clone()).collect();
    assert_eq!(ids, vec!["a", "c"]);
}

#[test]
fn filter_keeps_order_of_unique_tracks() {
    let candidates = vec![track("x"), track("y"), track("z")];
    let out = filter_dedupe(candidates, &HashSet::new());
    let ids: Vec<_> = out.iter().map(|t| t.id.clone()).collect();
    assert_eq!(ids, vec!["x", "y", "z"]);
}

#[test]
fn filter_drops_directories() {
    let dir = Child { id: "dir1".into(), is_dir: Some(true), ..Default::default() };
    let map = to_metas(vec![dir, Child { id: "song1".into(), ..Default::default() }]);
    let ids: Vec<_> = map.iter().map(|t| t.id.clone()).collect();
    assert_eq!(ids, vec!["song1"]);
}

#[test]
fn position_publishes_after_first_track_from_zero() {
    let mut pos = PositionGuard::new();
    pos.on_track_started(Duration::ZERO);
    assert_eq!(pos.next(Duration::ZERO), Duration::ZERO);
    assert_eq!(pos.next(Duration::ZERO), Duration::ZERO);
    let p = pos.next(Duration::from_millis(50));
    assert_eq!(p, Duration::from_millis(50));
    assert_eq!(pos.next(Duration::from_secs(12)), Duration::from_secs(12));
}

#[test]
fn position_hides_old_track_value_until_switch() {
    let mut pos = PositionGuard::new();
    pos.on_track_started(Duration::from_secs(45));
    assert_eq!(pos.next(Duration::from_secs(45)), Duration::ZERO);
    assert_eq!(pos.next(Duration::from_secs(45)), Duration::ZERO);
    assert_eq!(pos.next(Duration::ZERO), Duration::ZERO);
    assert_eq!(pos.next(Duration::from_millis(10)), Duration::from_millis(10));
}

#[test]
fn position_switch_falls_back_to_timeout() {
    let mut pos = PositionGuard::new();
    pos.on_track_started(Duration::ZERO);
    assert_eq!(pos.next(Duration::ZERO), Duration::ZERO);
    assert_eq!(pos.step(Duration::ZERO, Duration::from_millis(SWITCH_TIMEOUT_MS)), Duration::ZERO);
    assert_eq!(pos.next(Duration::from_secs(1)), Duration::from_secs(1));
}

#[test]
fn position_passes_through_when_no_switch() {
    let mut pos = PositionGuard::new();
    assert_eq!(pos.next(Duration::from_secs(1)), Duration::from_secs(1));
    assert_eq!(pos.next(Duration::from_secs(2)), Duration::from_secs(2));
}
