//! The event loop's decisions: readings in, deadlines and sends out.

use ceyrad::catalog::{Outcome, Resolved};
use ceyrad::orchestrator::{
    apply_menu_action, should_show_activity, MenuCommand, Resettled, Conductor, SessionReading, CATALOG_RETRY_DELAY_MS, DEBOUNCE_MS,
    FIRST_UPDATE_CHECK_DELAY_MS, HANDSHAKE_TIMEOUT_MS, UPDATE_CHECK_INTERVAL_MS,
};
use ceyrad::portable::models::{CatalogInfo, ConnState, PlayerState, TrackInfo};
use ceyrad::portable::i18n::AppLanguage;
use ceyrad::portable::menu_model::{ButtonSlot, MenuAction};
use ceyrad::portable::settings_model::{BadgeLabelType, LinkType, Settings};
use ceyrad::portable::source_selector::MusicSourceId;
use ceyrad::portable::timers::Timer;

const NOW: u64 = 1_700_000_000_000;

fn song(name: &str) -> TrackInfo {
    let mut t = TrackInfo::new(name, "Artist", "Album");
    t.duration_ms = Some(200_000);
    t.position_ms = Some(10_000);
    t.position_sampled_at_ms = NOW;
    t
}

fn playing(name: &str) -> Option<SessionReading> {
    Some(SessionReading { player_state: PlayerState::Playing, track: Some(song(name)) })
}

#[test]
fn a_presence_shows_while_playing_and_not_when_stopped() {
    assert!(should_show_activity(PlayerState::Playing, 0, true));
    assert!(!should_show_activity(PlayerState::Stopped, 5, false));
    assert!(should_show_activity(PlayerState::Paused, 5, false));
    assert!(!should_show_activity(PlayerState::Paused, 0, false));
    assert!(!should_show_activity(PlayerState::Paused, 5, true));
}

#[test]
fn the_first_update_check_waits_after_launch() {
    let c = Conductor::new(NOW);
    assert!(!c.displaying);
    assert!(c.status_dirty);
    assert_eq!(c.next_deadline(), Some(NOW + FIRST_UPDATE_CHECK_DELAY_MS));
}

#[test]
fn a_player_appearing_asks_for_its_catalog_entry_and_a_send() {
    let settings = Settings::default();
    let mut c = Conductor::new(NOW);
    let actions = c.on_snapshot(playing("Song"), &settings, NOW);
    assert!(actions.observation.changed);
    assert!(!actions.dormant);
    let request = actions.request.expect("a lookup for the new track");
    assert_eq!(request.name, "Song");
    assert_eq!(request.source, MusicSourceId::AppleMusic);
    assert!(c.displaying);
    assert_eq!(c.next_deadline(), Some(NOW + DEBOUNCE_MS));

    // The same reading again changes nothing and asks for nothing.
    let actions = c.on_snapshot(playing("Song"), &settings, NOW + 100);
    assert!(!actions.observation.changed);
    assert!(actions.request.is_none());
}

#[test]
fn the_debounce_flushes_what_was_held() {
    let settings = Settings::default();
    let mut c = Conductor::new(NOW);
    c.on_snapshot(playing("Song"), &settings, NOW);
    let fired = c.fire_due_timers(ConnState::Connected, &settings, NOW + DEBOUNCE_MS);
    let activity = fired.flush.expect("the debounce fired").expect("something to show");
    assert_eq!(activity.details, "Song");
    assert!(!fired.check_updates);
}

#[test]
fn a_player_going_away_goes_dormant() {
    let settings = Settings::default();
    let mut c = Conductor::new(NOW);
    c.on_snapshot(playing("Song"), &settings, NOW);
    let actions = c.on_snapshot(None, &settings, NOW + 10);
    assert!(actions.dormant);
    assert!(!c.displaying);
    assert!(c.pending_activity.is_none());
}

#[test]
fn a_late_answer_for_another_track_is_ignored() {
    let settings = Settings::default();
    let mut c = Conductor::new(NOW);
    c.on_snapshot(playing("Song"), &settings, NOW);
    let stale = Resolved {
        source: MusicSourceId::AppleMusic,
        key: "not the track".into(),
        outcome: Outcome::Missing,
    };
    assert!(!c.apply_resolved(stale, &settings, NOW + 1));
}

#[test]
fn a_found_entry_is_kept_for_the_track_playing() {
    let settings = Settings::default();
    let mut c = Conductor::new(NOW);
    c.on_snapshot(playing("Song"), &settings, NOW);
    let key = song("Song").identity();
    let found = CatalogInfo {
        song_url: Some("https://music.apple.com/s".into()),
        artist_url: None,
        album_url: None,
        artwork_url: None,
    };
    let resolved = Resolved { source: MusicSourceId::AppleMusic, key, outcome: Outcome::Found(found.clone()) };
    assert!(c.apply_resolved(resolved, &settings, NOW + 1));
    assert_eq!(c.music.catalog, Some(found));
}

#[test]
fn a_failed_lookup_is_tried_again_after_it_cools_off() {
    let settings = Settings::default();
    let mut c = Conductor::new(NOW);
    c.on_snapshot(playing("Song"), &settings, NOW);
    let key = song("Song").identity();
    let failed = Resolved { source: MusicSourceId::AppleMusic, key, outcome: Outcome::Failed };
    assert!(c.apply_resolved(failed, &settings, NOW + 1));
    let fired = c.fire_due_timers(ConnState::Connected, &settings, NOW + 1 + CATALOG_RETRY_DELAY_MS);
    assert!(fired.request.is_some());
}

#[test]
fn a_connection_is_wanted_only_while_a_player_runs() {
    let settings = Settings::default();
    let mut c = Conductor::new(NOW);
    assert!(!c.wants_connection(ConnState::Disconnected));
    c.on_snapshot(playing("Song"), &settings, NOW);
    assert!(c.wants_connection(ConnState::Disconnected));
    assert!(!c.wants_connection(ConnState::Connecting));
}

#[test]
fn an_unanswered_handshake_is_given_up_and_retried_later() {
    let settings = Settings::default();
    let mut c = Conductor::new(NOW);
    c.on_snapshot(playing("Song"), &settings, NOW);
    c.connect_attempted(true, NOW);
    assert!(c.timers.is_armed(Timer::Handshake));
    let fired = c.fire_due_timers(ConnState::Connecting, &settings, NOW + HANDSHAKE_TIMEOUT_MS);
    assert!(fired.give_up_handshake);
    assert!(c.timers.is_armed(Timer::Reconnect));
    assert!(!c.timers.is_armed(Timer::Handshake));
}

#[test]
fn a_ready_resets_the_backoff_and_ends_the_handshake_wait() {
    let settings = Settings::default();
    let mut c = Conductor::new(NOW);
    c.on_snapshot(playing("Song"), &settings, NOW);
    c.connect_attempted(false, NOW);
    assert!(c.timers.is_armed(Timer::Reconnect));
    c.connect_attempted(true, NOW + 1);
    c.on_ready(&settings, NOW + 2);
    assert_eq!(c.backoff.attempt(), 0);
    assert!(!c.timers.is_armed(Timer::Handshake));
}

#[test]
fn an_update_check_rearms_the_next_one() {
    let settings = Settings::default();
    let mut c = Conductor::new(NOW);
    let at = NOW + FIRST_UPDATE_CHECK_DELAY_MS;
    let fired = c.fire_due_timers(ConnState::Disconnected, &settings, at);
    assert!(fired.check_updates);
    assert_eq!(c.next_deadline(), Some(at + UPDATE_CHECK_INTERVAL_MS));
}

#[test]
fn menu_choices_change_the_settings_they_name() {

    let mut settings = Settings::default();
    assert_eq!(
        apply_menu_action(&mut settings, MenuAction::SetPauseHideMinutes(-1)),
        MenuCommand::SettingsChanged
    );
    assert_eq!(settings.pause_hide_minutes, -1);
    assert_eq!(
        apply_menu_action(&mut settings, MenuAction::SetBadgeLabel(BadgeLabelType::Track)),
        MenuCommand::SettingsChanged
    );
    assert_eq!(settings.badge_label, BadgeLabelType::Track);
    assert_eq!(
        apply_menu_action(&mut settings, MenuAction::SetLanguage(AppLanguage::Ja)),
        MenuCommand::LanguageChanged
    );
    assert_eq!(settings.language, AppLanguage::Ja);
    assert_eq!(
        apply_menu_action(
            &mut settings,
            MenuAction::SetButtonType { button: ButtonSlot::Two, link_type: LinkType::Custom }
        ),
        MenuCommand::SettingsChanged
    );
    assert_eq!(settings.button_type(ButtonSlot::Two), LinkType::Custom);

    let before = settings.clone();
    assert_eq!(
        apply_menu_action(&mut settings, MenuAction::EditButtonLabel(ButtonSlot::One)),
        MenuCommand::EditButtonLabel(ButtonSlot::One)
    );
    assert_eq!(apply_menu_action(&mut settings, MenuAction::Quit), MenuCommand::Quit);
    assert_eq!(apply_menu_action(&mut settings, MenuAction::Reconnect), MenuCommand::Reconnect);
    assert_eq!(settings.pause_hide_minutes, before.pause_hide_minutes);
    assert_eq!(settings.custom_url, before.custom_url);
}

#[test]
fn a_settings_change_without_a_player_goes_dormant() {
    let settings = Settings::default();
    let mut c = Conductor::new(NOW);
    assert_eq!(c.settings_changed(&settings, NOW), Resettled::Dormant);
    assert!(c.status_dirty);
    c.on_snapshot(playing("Song"), &settings, NOW);
    assert_eq!(c.settings_changed(&settings, NOW + 1), Resettled::Refreshed);
    assert!(c.pending_activity.is_some());
}

#[test]
fn a_requested_reconnect_starts_the_backoff_over() {
    let settings = Settings::default();
    let mut c = Conductor::new(NOW);
    c.on_snapshot(playing("Song"), &settings, NOW);
    c.connect_attempted(false, NOW);
    c.connect_attempted(false, NOW + 1);
    assert!(c.backoff.attempt() > 0);
    c.reconnect_requested();
    assert_eq!(c.backoff.attempt(), 0);
    assert!(!c.timers.is_armed(Timer::Reconnect));
    assert!(!c.timers.is_armed(Timer::Handshake));
}

#[test]
fn a_pipe_that_does_not_open_is_retried_with_a_growing_wait() {
    let settings = Settings::default();
    let mut c = Conductor::new(NOW);
    c.on_snapshot(playing("Song"), &settings, NOW);
    c.connect_attempted(false, NOW);
    assert_eq!(c.backoff.attempt(), 1);
    assert!(!c.fire_due_timers(ConnState::Disconnected, &settings, NOW + 999).reconnect);
    assert!(c.fire_due_timers(ConnState::Disconnected, &settings, NOW + 1_000).reconnect);

    c.connect_attempted(false, NOW + 1_000);
    assert_eq!(c.backoff.attempt(), 2);
    assert!(!c.fire_due_timers(ConnState::Disconnected, &settings, NOW + 2_999).reconnect);
    assert!(c.fire_due_timers(ConnState::Disconnected, &settings, NOW + 3_000).reconnect);
}

#[test]
fn a_paused_presence_is_hidden_once_its_minutes_are_up() {
    let settings = Settings::default();
    assert_eq!(settings.pause_hide_minutes, 5);
    let mut c = Conductor::new(NOW);
    c.on_snapshot(playing("Song"), &settings, NOW);
    let paused = Some(SessionReading { player_state: PlayerState::Paused, track: Some(song("Song")) });
    c.on_snapshot(paused, &settings, NOW + 1_000);
    assert!(c.timers.is_armed(Timer::PauseHide));
    assert!(!c.paused_timed_out);

    let hide_at = NOW + 1_000 + 5 * 60_000;
    c.fire_due_timers(ConnState::Connected, &settings, hide_at - 1);
    assert!(!c.paused_timed_out);
    c.fire_due_timers(ConnState::Connected, &settings, hide_at);
    assert!(c.paused_timed_out);
    let fired = c.fire_due_timers(ConnState::Connected, &settings, hide_at + DEBOUNCE_MS);
    assert!(matches!(fired.flush, Some(None)), "the hidden presence is sent as a clear");
}

#[test]
fn the_retried_lookup_asks_for_the_track_playing() {
    let settings = Settings::default();
    let mut c = Conductor::new(NOW);
    c.on_snapshot(playing("Song"), &settings, NOW);
    let key = song("Song").identity();
    let failed = Resolved { source: MusicSourceId::AppleMusic, key: key.clone(), outcome: Outcome::Failed };
    assert!(c.apply_resolved(failed, &settings, NOW + 1));
    let early = c.fire_due_timers(ConnState::Connected, &settings, NOW + CATALOG_RETRY_DELAY_MS);
    assert!(early.request.is_none());
    let fired = c.fire_due_timers(ConnState::Connected, &settings, NOW + 1 + CATALOG_RETRY_DELAY_MS);
    let request = fired.request.expect("asked again");
    assert_eq!(request.key, key);
    assert_eq!(request.name, "Song");
    assert_eq!(request.artist, "Artist");
    assert_eq!(request.album, "Album");
}
