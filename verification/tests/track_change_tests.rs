//! Telling a real change apart from SMTC repeating itself.

use ceyrad::portable::models::TrackInfo;
use ceyrad::portable::track_change::{position_jumped, same_identity};

const NOW: u64 = 1_700_000_000_000;

fn at(position_ms: u64, sampled_at_ms: u64) -> TrackInfo {
    let mut track = TrackInfo::new("Song", "Artist", "Album");
    track.position_ms = Some(position_ms);
    track.position_sampled_at_ms = sampled_at_ms;
    track
}

#[test]
fn the_same_track_has_the_same_identity() {
    let a = TrackInfo::new("Song", "Artist", "Album");
    let b = TrackInfo::new("Song", "Artist", "Album");
    assert!(same_identity(Some(&a), Some(&b)));
}

#[test]
fn a_different_album_is_a_different_track() {
    let a = TrackInfo::new("Song", "Artist", "Album");
    let b = TrackInfo::new("Song", "Artist", "Other");
    assert!(!same_identity(Some(&a), Some(&b)));
}

#[test]
fn same_identity_answers_what_comparing_identities_would() {
    fn track(name: &str, artist: &str, album: &str) -> TrackInfo {
        TrackInfo::new(name, artist, album)
    }
    let cases = [
        track("Song", "Artist", "Album"),
        track("Song", "Artist", "Other"),
        track("Song", "Other", "Album"),
        track("Other", "Artist", "Album"),
        track("Song", "", ""),
        track("", "", ""),
        track("Song\u{1F}Artist", "", "Album"),
    ];
    for a in &cases {
        for b in &cases {
            assert_eq!(
                same_identity(Some(a), Some(b)),
                a.identity() == b.identity(),
                "{a:?}\nvs\n{b:?}"
            );
            assert_eq!(
                a.matches_identity(&b.identity()),
                a.identity() == b.identity(),
                "matches_identity: {a:?}\nvs\n{b:?}"
            );
        }
    }
}

#[test]
fn nothing_matches_nothing_but_not_something() {
    let a = TrackInfo::new("Song", "Artist", "Album");
    assert!(same_identity(None, None));
    assert!(!same_identity(Some(&a), None));
    assert!(!same_identity(None, Some(&a)));
}

#[test]
fn ordinary_playback_is_not_a_seek() {
    let old = at(30_000, NOW);
    let new = at(50_000, NOW + 20_000);
    assert!(!position_jumped(Some(&old), Some(&new)));
}

#[test]
fn a_small_sampling_lag_is_not_a_seek() {
    let old = at(30_000, NOW);
    let new = at(52_000, NOW + 20_000);
    assert!(!position_jumped(Some(&old), Some(&new)));
}

#[test]
fn jumping_forward_is_a_seek() {
    let old = at(30_000, NOW);
    let new = at(150_000, NOW + 1_000);
    assert!(position_jumped(Some(&old), Some(&new)));
}

#[test]
fn jumping_backward_is_a_seek() {
    let old = at(150_000, NOW);
    let new = at(10_000, NOW + 1_000);
    assert!(position_jumped(Some(&old), Some(&new)));
}

#[test]
fn a_missing_position_cannot_be_a_seek() {
    let old = at(30_000, NOW);
    let mut new = at(200_000, NOW);
    new.position_ms = None;
    assert!(!position_jumped(Some(&old), Some(&new)));
    assert!(!position_jumped(None, Some(&old)));
    assert!(!position_jumped(Some(&old), None));
}

#[test]
fn a_paused_track_read_twice_is_not_a_seek() {
    let old = at(75_000, NOW);
    let new = at(75_000, NOW);
    assert!(!position_jumped(Some(&old), Some(&new)));
}

#[test]
fn the_threshold_itself_is_not_a_seek() {
    let old = at(30_000, NOW);
    assert!(!position_jumped(Some(&old), Some(&at(33_000, NOW))));
    assert!(position_jumped(Some(&old), Some(&at(33_001, NOW))));
}

#[test]
fn a_different_track_is_never_a_seek() {
    let old = at(10_000, NOW);
    let mut new = at(120_000, NOW);
    new.name = "Another Song".into();
    assert!(!position_jumped(Some(&old), Some(&new)));
    let mut same = at(120_000, NOW);
    same.name = "Song".into();
    assert!(position_jumped(Some(&old), Some(&same)));
}
