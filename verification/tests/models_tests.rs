//! What the app knows about the track and the player.

use ceyrad::portable::models::{CatalogInfo, MusicState, PlayerState, TrackInfo};

#[test]
fn fields_are_joined_by_a_unit_separator() {
    let track = TrackInfo::new("Song", "Artist", "Album");
    assert_eq!(track.identity(), "Song\u{1F}Artist\u{1F}Album");

    let empty = TrackInfo::new("Song", "", "");
    assert_eq!(empty.identity(), "Song\u{1F}\u{1F}");
}

#[test]
fn tracks_differing_only_in_album_have_different_identities() {
    let a = TrackInfo::new("Song", "Artist", "Album One");
    let b = TrackInfo::new("Song", "Artist", "Album Two");
    assert_ne!(a.identity(), b.identity());
}

#[test]
fn adopting_playback_leaves_nothing_a_clone_would_have_carried() {
    let mut held = TrackInfo::new("Song", "Artist", "Album");
    held.duration_ms = Some(200_000);
    held.position_ms = Some(10_000);

    let mut incoming = TrackInfo::new("Song", "Artist", "Album");
    incoming.duration_ms = Some(201_000);
    incoming.position_ms = Some(42_500);
    incoming.position_sampled_at_ms = 1_700_000_030_000;

    assert_eq!(held.identity(), incoming.identity(), "the same track");
    held.adopt_playback_from(&incoming);
    assert_eq!(held, incoming);
}

fn playing_with_track() -> MusicState {
    MusicState {
        running: true,
        player_state: PlayerState::Playing,
        track: Some(TrackInfo::new("Song", "Artist", "Album")),
        ..MusicState::default()
    }
}

#[test]
fn nothing_is_displayable_until_a_running_player_has_a_track() {
    assert!(!MusicState::default().is_displayable());
    assert!(playing_with_track().is_displayable());

    let mut no_track = playing_with_track();
    no_track.track = None;
    assert!(!no_track.is_displayable(), "no track yet");

    let mut gone = playing_with_track();
    gone.running = false;
    assert!(!gone.is_displayable(), "player gone");

    let mut stopped = playing_with_track();
    stopped.player_state = PlayerState::Stopped;
    assert!(!stopped.is_displayable(), "stopped");

    let mut paused = playing_with_track();
    paused.player_state = PlayerState::Paused;
    assert!(paused.is_displayable());
}

#[test]
fn clearing_the_catalog_also_clears_the_request_guard() {
    let mut state = playing_with_track();
    state.catalog = Some(CatalogInfo::default());
    state.catalog_requested_for = Some("Song\u{1F}Artist\u{1F}Album".into());
    state.catalog_retry_at = Some(1_700_000_000_000);

    state.clear_catalog();

    assert!(state.catalog.is_none());
    assert!(state.catalog_requested_for.is_none());
    assert!(state.catalog_retry_at.is_none());
}

#[test]
fn a_track_matches_its_own_identity_and_no_other() {
    let track = TrackInfo::new("Song", "Artist", "Album");
    assert!(track.matches_identity("Song\u{1F}Artist\u{1F}Album"));
    assert!(!track.matches_identity("Song\u{1F}Artist\u{1F}Other"));
    assert!(!track.matches_identity("Song"));
}

#[test]
fn a_duplicated_catalog_entry_has_the_same_links() {
    let entry = CatalogInfo {
        song_url: Some("https://music.apple.com/song".into()),
        artist_url: None,
        album_url: Some("https://music.apple.com/album".into()),
        artwork_url: None,
    };
    assert_eq!(entry.duplicate(), entry);
}
