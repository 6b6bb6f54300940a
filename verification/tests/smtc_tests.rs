//! A media session's reports turned into a track: the timeline's ticks, the
//! cached titles, and when they are read again.

use ceyrad::portable::models::PlayerState;
use ceyrad::smtc::{
    duration_moved, metadata_from, timeline_from_ticks, Cached, Metadata, SessionCache, Timeline,
    TICKS_TO_UNIX_EPOCH,
};

const NOW_MS: u64 = 1_700_000_000_000;
const TICKS_PER_SEC: i64 = 10_000_000;

fn timeline(duration_ms: Option<u64>) -> Timeline {
    Timeline { duration_ms, position_ms: Some(0), sampled_at_ms: None }
}

fn unix_ticks(ms: u64) -> i64 {
    TICKS_TO_UNIX_EPOCH + ms as i64 * 10_000
}

#[test]
fn ticks_become_milliseconds_measured_from_the_start() {
    let t = timeline_from_ticks(5 * TICKS_PER_SEC, 245 * TICKS_PER_SEC, 35 * TICKS_PER_SEC, None, NOW_MS);
    assert_eq!(t.duration_ms, Some(240_000));
    assert_eq!(t.position_ms, Some(30_000));
    assert_eq!(t.sampled_at_ms, None);
}

#[test]
fn an_implausible_duration_says_nothing() {
    let none = Timeline { duration_ms: None, position_ms: None, sampled_at_ms: None };
    assert_eq!(timeline_from_ticks(0, 0, 0, None, NOW_MS), none);
    assert_eq!(timeline_from_ticks(10, 5, 0, None, NOW_MS), none);
    assert_eq!(timeline_from_ticks(0, 25 * 3600 * TICKS_PER_SEC, 0, None, NOW_MS), none);
    assert_eq!(timeline_from_ticks(i64::MIN, i64::MAX, 0, None, NOW_MS), none);
    assert!(timeline_from_ticks(0, 24 * 3600 * TICKS_PER_SEC, 0, None, NOW_MS).duration_ms.is_some());
}

#[test]
fn a_position_before_the_start_reads_as_zero() {
    let t = timeline_from_ticks(10 * TICKS_PER_SEC, 100 * TICKS_PER_SEC, 0, None, NOW_MS);
    assert_eq!(t.position_ms, Some(0));
}

#[test]
fn only_a_past_timestamp_is_trusted() {
    let past = timeline_from_ticks(0, TICKS_PER_SEC, 0, Some(unix_ticks(NOW_MS - 5_000)), NOW_MS);
    assert_eq!(past.sampled_at_ms, Some(NOW_MS - 5_000));
    let future = timeline_from_ticks(0, TICKS_PER_SEC, 0, Some(unix_ticks(NOW_MS + 5_000)), NOW_MS);
    assert_eq!(future.sampled_at_ms, None);
    let before_epoch = timeline_from_ticks(0, TICKS_PER_SEC, 0, Some(TICKS_TO_UNIX_EPOCH), NOW_MS);
    assert_eq!(before_epoch.sampled_at_ms, None);
    let garbage = timeline_from_ticks(0, TICKS_PER_SEC, 0, Some(i64::MIN), NOW_MS);
    assert_eq!(garbage.sampled_at_ms, None);
}

#[test]
fn a_duration_moves_by_more_than_a_second_or_by_appearing() {
    assert!(!duration_moved(Some(200_000), Some(200_900)));
    assert!(!duration_moved(Some(200_000), Some(199_000)));
    assert!(duration_moved(Some(200_000), Some(201_001)));
    assert!(duration_moved(None, Some(1)));
    assert!(duration_moved(Some(1), None));
    assert!(!duration_moved(None, None));
}

#[test]
fn an_answer_with_no_title_and_no_artist_is_empty() {
    assert_eq!(metadata_from("", "", "Album"), Cached::Empty);
    assert_eq!(
        metadata_from("Song", "Artist \u{2014} Album", ""),
        Cached::Track(Metadata { name: "Song".into(), artist: "Artist".into(), album: "Album".into() })
    );
}

#[test]
fn titles_are_read_once_and_reused_until_something_moves() {
    let mut cache = SessionCache::new();
    let t = timeline(Some(200_000));
    assert!(cache.observe(PlayerState::Playing, &t, false), "never read");
    assert!(!cache.metadata_read(Some(metadata_from("Song", "Artist", "Album"))));
    assert!(!cache.observe(PlayerState::Playing, &t, false), "nothing moved");
    assert!(cache.observe(PlayerState::Paused, &t, false), "the status moved");
    assert!(!cache.observe(PlayerState::Paused, &t, false));
    assert!(cache.observe(PlayerState::Paused, &t, true), "the session said so");
    assert!(cache.observe(PlayerState::Paused, &timeline(Some(100_000)), false), "another length");

    let track = cache.track(PlayerState::Paused, &t, NOW_MS).expect("a track");
    assert_eq!(track.name, "Song");
    assert_eq!(track.duration_ms, Some(200_000));
    assert_eq!(track.position_sampled_at_ms, NOW_MS);
}

#[test]
fn a_failed_read_keeps_the_titles_and_asks_again() {
    let mut cache = SessionCache::new();
    let t = timeline(Some(200_000));
    cache.observe(PlayerState::Playing, &t, false);
    cache.metadata_read(Some(metadata_from("Song", "Artist", "Album")));
    assert!(cache.metadata_read(None));
    assert_eq!(cache.track(PlayerState::Playing, &t, NOW_MS).unwrap().name, "Song");
}

#[test]
fn a_stopped_session_has_no_track_and_forgets_its_titles() {
    let mut cache = SessionCache::new();
    let t = timeline(Some(200_000));
    cache.observe(PlayerState::Playing, &t, false);
    cache.metadata_read(Some(metadata_from("Song", "Artist", "Album")));
    assert!(!cache.observe(PlayerState::Stopped, &t, false));
    assert!(cache.track(PlayerState::Stopped, &t, NOW_MS).is_none());
    assert_eq!(cache.metadata, Cached::Unknown);
    assert!(cache.observe(PlayerState::Playing, &t, false), "read again after a stop");
}

#[test]
fn an_empty_answer_is_an_answer() {
    let mut cache = SessionCache::new();
    let t = timeline(None);
    assert!(cache.observe(PlayerState::Playing, &t, false));
    cache.metadata_read(Some(metadata_from("", "", "")));
    assert!(!cache.observe(PlayerState::Playing, &t, false), "not asked again every tick");
    assert!(cache.track(PlayerState::Playing, &t, NOW_MS).is_none());
}
