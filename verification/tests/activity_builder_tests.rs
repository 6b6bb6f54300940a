//! The Rich Presence activity: its fields, its progress bar, the paused
//! display, the badge and the buttons.

use ceyrad::portable::activity_builder::{build, clamp, is_valid_button_url, Activity, PAD_CHAR};
use ceyrad::portable::models::{CatalogInfo, PlayerState, TrackInfo};
use ceyrad::portable::settings_model::{
    BadgeLabelType, ButtonSlot, LinkType, Settings, DEFAULT_REPOSITORY_URL,
};

const NOW: u64 = 1_700_000_000_000;

fn track() -> TrackInfo {
    let mut t = TrackInfo::new("Song", "Artist", "Album");
    t.duration_ms = Some(200_000);
    t.position_ms = Some(50_000);
    t.position_sampled_at_ms = NOW;
    t
}

fn track_with(name: &str, artist: &str, position_ms: Option<u64>, duration_ms: Option<u64>) -> TrackInfo {
    let mut t = TrackInfo::new(name, artist, "Album");
    t.duration_ms = duration_ms;
    t.position_ms = position_ms;
    t.position_sampled_at_ms = NOW;
    t
}

fn catalog() -> CatalogInfo {
    CatalogInfo {
        song_url: Some("https://music.apple.com/song".into()),
        artist_url: None,
        album_url: None,
        artwork_url: Some("https://example.com/art.jpg".into()),
    }
}

fn build_now(track: &TrackInfo, state: PlayerState, catalog: Option<&CatalogInfo>, settings: &Settings) -> Activity {
    build(track, state, catalog, settings, NOW)
}

#[test]
fn clamp_pads_with_braille_blank_not_space() {
    let padded = clamp("A");
    assert_eq!(padded.chars().count(), 2);
    assert!(padded.starts_with('A'));
    assert!(!padded.ends_with(' '));
    assert!(padded.ends_with(PAD_CHAR));
}

#[test]
fn clamp_truncates_to_128_chars() {
    let long = "あ".repeat(300);
    assert_eq!(clamp(&long).chars().count(), 128);
}

#[test]
fn listening_type_and_basic_fields() {
    let activity = build_now(&track(), PlayerState::Playing, None, &Settings::default());
    assert_eq!(activity.activity_type, 2);
    assert_eq!(activity.details, "Song");
    assert_eq!(activity.state, "Artist");
}

#[test]
fn short_strings_are_padded_to_two_characters() {
    let activity = build_now(
        &track_with("A", "", Some(50_000), Some(200_000)),
        PlayerState::Playing,
        None,
        &Settings::default(),
    );
    let details = &activity.details;
    assert_eq!(details.chars().count(), 2);
    assert!(details.starts_with('A'));
    assert!(!details.ends_with(' '));
}

#[test]
fn long_strings_are_clamped_to_128_characters() {
    let long = "あ".repeat(300);
    let activity = build_now(
        &track_with(&long, "Artist", Some(50_000), Some(200_000)),
        PlayerState::Playing,
        None,
        &Settings::default(),
    );
    assert_eq!(activity.details.chars().count(), 128);
}

#[test]
fn clamping_does_not_leave_a_dangling_joiner() {
    let long = "\u{1F468}\u{200D}\u{1F469}\u{200D}\u{1F467}\u{200D}\u{1F466}".repeat(40);
    let activity = build_now(
        &track_with(&long, "Artist", Some(50_000), Some(200_000)),
        PlayerState::Playing,
        None,
        &Settings::default(),
    );
    let details = &activity.details;
    assert!(details.chars().count() <= 128);
    assert!(!details.ends_with('\u{200D}'), "{details:?}");
}

#[test]
fn clamping_does_not_orphan_a_combining_mark() {
    let long = "e\u{301}\u{300}".repeat(200);
    let activity = build_now(
        &track_with(&long, "Artist", Some(50_000), Some(200_000)),
        PlayerState::Playing,
        None,
        &Settings::default(),
    );
    let details = &activity.details;
    assert!(details.chars().count() <= 128);
    assert!(details.ends_with('e'), "{details:?}");
}

#[test]
fn clamping_keeps_an_accent_that_fits_whole() {
    let long = "e\u{301}".repeat(200);
    let activity = build_now(
        &track_with(&long, "Artist", Some(50_000), Some(200_000)),
        PlayerState::Playing,
        None,
        &Settings::default(),
    );
    let details = &activity.details;
    assert_eq!(details.chars().count(), 128);
    assert!(details.ends_with("e\u{301}"), "{details:?}");
}

#[test]
fn timestamps_are_clamped_once_the_position_has_run_past_the_end() {
    let t = track_with("Song", "Artist", Some(500_000), Some(200_000));
    let activity = build_now(&t, PlayerState::Playing, None, &Settings::default());
    let stamps = activity.timestamps.expect("timestamps");
    assert_eq!(stamps.end - stamps.start, 200_000);
}

#[test]
fn timestamps_only_while_playing() {
    let settings = Settings::default();
    let playing = build_now(&track(), PlayerState::Playing, None, &settings);
    let stamps = playing.timestamps.expect("timestamps");
    assert_eq!(stamps.end - stamps.start, 200_000);

    let mut settings = Settings::default();
    settings.pause_hide_minutes = -1;
    let paused = build_now(&track(), PlayerState::Paused, None, &settings);
    assert!(paused.timestamps.is_none());
}

#[test]
fn stale_position_sample_is_corrected_for_elapsed_time() {
    let mut stale = track();
    stale.position_ms = Some(50_000);
    stale.position_sampled_at_ms = NOW - 10_000;

    let activity = build(&stale, PlayerState::Playing, None, &Settings::default(), NOW);
    let start = activity.timestamps.expect("timestamps").start;

    let expected_position = 60_000;
    let expected_start = NOW as i64 - expected_position;
    assert!(
        (start - expected_start).abs() < 500,
        "elapsed time was not added back into the position"
    );
}

#[test]
fn no_timestamps_without_position_or_duration() {
    let activity = build_now(
        &track_with("Song", "Artist", None, None),
        PlayerState::Playing,
        None,
        &Settings::default(),
    );
    assert!(activity.timestamps.is_none());
}

#[test]
fn paused_label_goes_to_album_line_with_artwork() {
    let activity = build_now(
        &track_with("Song", "Artist", Some(168_000), Some(200_000)),
        PlayerState::Paused,
        Some(&catalog()),
        &Settings::default(),
    );
    let assets = activity.assets.expect("assets");
    assert_eq!(assets.large_text.as_deref(), Some("Album · ⏸ Paused at 2:48"));
    assert_eq!(activity.state, "Artist");
}

#[test]
fn paused_label_goes_to_artist_line_without_artwork() {
    let activity = build_now(
        &track_with("Song", "Artist", Some(3_725_000), Some(200_000)),
        PlayerState::Paused,
        None,
        &Settings::default(),
    );
    assert_eq!(activity.state, "⏸ Paused at 1:02:05 · Artist");
}

#[test]
fn paused_without_position_omits_time() {
    let activity = build_now(
        &track_with("Song", "Artist", None, Some(200_000)),
        PlayerState::Paused,
        None,
        &Settings::default(),
    );
    assert_eq!(activity.state, "⏸ Paused · Artist");
}

#[test]
fn status_display_type_defaults_to_artist() {
    let activity = build_now(&track(), PlayerState::Playing, None, &Settings::default());
    assert_eq!(activity.status_display_type, BadgeLabelType::Artist.raw_value());
}

#[test]
fn status_display_type_follows_setting() {
    let mut settings = Settings::default();
    settings.badge_label = BadgeLabelType::Track;
    let activity = build_now(&track(), PlayerState::Playing, None, &settings);
    assert_eq!(activity.status_display_type, BadgeLabelType::Track.raw_value());

    settings.badge_label = BadgeLabelType::AppName;
    let activity = build_now(&track(), PlayerState::Playing, None, &settings);
    assert_eq!(activity.status_display_type, BadgeLabelType::AppName.raw_value());
}

#[test]
fn artist_badge_falls_back_to_app_name_when_pause_label_is_on_artist_line() {
    let mut settings = Settings::default();
    let paused = build_now(&track(), PlayerState::Paused, None, &settings);
    assert_eq!(paused.status_display_type, BadgeLabelType::AppName.raw_value());

    let paused_with_art = build_now(&track(), PlayerState::Paused, Some(&catalog()), &settings);
    assert_eq!(paused_with_art.status_display_type, BadgeLabelType::Artist.raw_value());

    settings.badge_label = BadgeLabelType::Track;
    let paused_track = build_now(&track(), PlayerState::Paused, None, &settings);
    assert_eq!(paused_track.status_display_type, BadgeLabelType::Track.raw_value());
}

#[test]
fn duplicate_button_urls_are_deduplicated() {
    let mut settings = Settings::default();
    settings.set_button_type(ButtonSlot::One, LinkType::Repository);
    settings.set_button_type(ButtonSlot::Two, LinkType::Repository);
    let activity = build_now(&track(), PlayerState::Playing, None, &settings);
    assert_eq!(activity.buttons.len(), 1);
    assert_eq!(activity.buttons[0].url, DEFAULT_REPOSITORY_URL);
}

#[test]
fn unresolved_catalog_drops_button_instead_of_fallback() {
    let activity = build_now(&track(), PlayerState::Playing, None, &Settings::default());
    assert_eq!(activity.buttons.len(), 1);
    assert_eq!(activity.buttons[0].label, "About This App");
    assert_eq!(activity.buttons[0].url, DEFAULT_REPOSITORY_URL);
}

#[test]
fn both_buttons_off_omits_buttons_key() {
    let mut settings = Settings::default();
    settings.set_button_type(ButtonSlot::One, LinkType::Disabled);
    settings.set_button_type(ButtonSlot::Two, LinkType::Disabled);
    let activity = build_now(&track(), PlayerState::Playing, Some(&catalog()), &settings);
    assert!(activity.buttons.is_empty());
}

#[test]
fn button2_promoted_when_button1_is_off() {
    let mut settings = Settings::default();
    settings.set_button_type(ButtonSlot::One, LinkType::Disabled);
    let activity = build_now(&track(), PlayerState::Playing, Some(&catalog()), &settings);
    assert_eq!(activity.buttons.len(), 1);
    assert_eq!(activity.buttons[0].label, "About This App");
    assert_eq!(activity.buttons[0].url, DEFAULT_REPOSITORY_URL);
}

#[test]
fn two_buttons_with_resolved_catalog() {
    let activity = build_now(&track(), PlayerState::Playing, Some(&catalog()), &Settings::default());
    assert_eq!(activity.buttons.len(), 2);
    assert_eq!(activity.buttons[0].url, "https://music.apple.com/song");
    assert_eq!(activity.buttons[0].label, "Play on Apple Music");
}

#[test]
fn invalid_custom_url_is_skipped() {
    let mut settings = Settings::default();
    settings.set_button_type(ButtonSlot::One, LinkType::Custom);
    settings.set_button_type(ButtonSlot::Two, LinkType::Disabled);
    settings.custom_url = "ftp://example.com".into();
    let activity = build_now(&track(), PlayerState::Playing, None, &settings);
    assert!(activity.buttons.is_empty());
}

#[test]
fn song_button_label_follows_source() {
    let mut settings = Settings::default();
    settings.set_button_type(ButtonSlot::Two, LinkType::Disabled);
    let apple_music = build(&track(), PlayerState::Playing, Some(&catalog()), &settings, NOW);
    assert_eq!(apple_music.buttons[0].label, "Play on Apple Music");
}

#[test]
fn custom_button_label_wins_over_source_default() {
    let mut settings = Settings::default();
    settings.set_button_type(ButtonSlot::Two, LinkType::Disabled);
    settings.set_button_label(ButtonSlot::One, "My Label");
    let apple_music = build(&track(), PlayerState::Playing, Some(&catalog()), &settings, NOW);
    assert_eq!(apple_music.buttons[0].label, "My Label");
}

#[test]
fn button_label_is_truncated_to_32_characters() {
    let mut settings = Settings::default();
    settings.set_button_type(ButtonSlot::Two, LinkType::Disabled);
    settings.set_button_label(ButtonSlot::One, &"x".repeat(64));
    let activity = build_now(&track(), PlayerState::Playing, Some(&catalog()), &settings);
    assert_eq!(activity.buttons[0].label.chars().count(), 32);
}

#[test]
fn is_valid_button_url_cases() {
    assert!(is_valid_button_url("https://example.com"));
    assert!(is_valid_button_url("http://example.com/path?q=1"));
    assert!(!is_valid_button_url("ftp://example.com"));
    assert!(!is_valid_button_url("javascript:alert(1)"));
    assert!(!is_valid_button_url(""));
    assert!(!is_valid_button_url(&format!("https://example.com/{}", "a".repeat(512))));
}

#[test]
fn a_track_with_no_name_or_artist_gets_stand_ins() {
    let activity = build_now(&track_with("", "", None, None), PlayerState::Playing, None, &Settings::default());
    assert_eq!(activity.details, "Unknown Track");
    assert_eq!(activity.state, "Unknown Artist");
}

#[test]
fn the_artwork_carries_the_album_as_its_caption_while_playing() {
    let activity = build_now(&track(), PlayerState::Playing, Some(&catalog()), &Settings::default());
    let assets = activity.assets.expect("assets");
    assert_eq!(assets.large_image, "https://example.com/art.jpg");
    assert_eq!(assets.large_text.as_deref(), Some("Album"));
    let stamps = activity.timestamps.expect("timestamps");
    assert_eq!(stamps.start, NOW as i64 - 50_000);
    assert_eq!(stamps.end, NOW as i64 + 150_000);
}
