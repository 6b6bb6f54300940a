//! What the tray menu says, as data.

use ceyrad::portable::i18n::AppLanguage;
use ceyrad::portable::menu_model::{
    action_id, build_menu, parse_action_id, pause_choice_name, ButtonSlot, MenuAction, MenuInput,
    MenuRow,
};
use ceyrad::portable::models::{ConnState, MusicState};
use ceyrad::portable::settings_model::{LinkType, Settings};
use ceyrad::portable::source_selector::MusicSourceId;
use ceyrad::portable::status_lines::{self, lines};

fn menu(settings: &Settings, music: &MusicState) -> Vec<MenuRow> {
    menu_with(settings, music, false, None)
}

fn menu_with(
    settings: &Settings,
    music: &MusicState,
    launch_at_login: bool,
    update_available: Option<&str>,
) -> Vec<MenuRow> {
    build_menu(&MenuInput {
        status: status_lines::Input {
            music,
            discord_state: ConnState::Disconnected,
            language: settings.language,
        },
        settings,
        launch_at_login,
        update_available,
    })
}

fn default_menu() -> Vec<MenuRow> {
    menu(&Settings::default(), &MusicState::default())
}

fn walk<'a>(rows: &'a [MenuRow], out: &mut Vec<&'a MenuRow>) {
    for row in rows {
        out.push(row);
        if let MenuRow::Submenu { rows, .. } = row {
            walk(rows, out);
        }
    }
}

fn all_rows(rows: &[MenuRow]) -> Vec<&MenuRow> {
    let mut out = Vec::new();
    walk(rows, &mut out);
    out
}

fn submenu<'a>(rows: &'a [MenuRow], label_starts_with: &str) -> &'a [MenuRow] {
    rows.iter()
        .find_map(|row| match row {
            MenuRow::Submenu { label, rows } if label.starts_with(label_starts_with) => {
                Some(rows.as_slice())
            }
            _ => None,
        })
        .unwrap_or_else(|| panic!("no submenu starting with {label_starts_with:?}"))
}

fn checked_labels(rows: &[MenuRow]) -> Vec<&str> {
    rows.iter()
        .filter_map(|row| match row {
            MenuRow::Choice { label, checked: true, .. } => Some(label.as_str()),
            _ => None,
        })
        .collect()
}

#[test]
fn the_status_rows_come_first_and_are_not_clickable() {
    let settings = Settings::default();
    let music = MusicState::default();
    let rows = menu(&settings, &music);
    let expected = lines(&status_lines::Input {
        music: &music,
        discord_state: ConnState::Disconnected,
        language: AppLanguage::En,
    });

    for (row, line) in rows.iter().zip(&expected) {
        assert_eq!(row, &MenuRow::Info(line.clone()));
    }
    assert_eq!(rows[expected.len()], MenuRow::Separator);
}

#[test]
fn every_action_round_trips_through_its_id() {
    let mut seen = 0;
    for row in all_rows(&default_menu()) {
        let action = match row {
            MenuRow::Item { action, .. } | MenuRow::Choice { action, .. } => *action,
            _ => continue,
        };
        let id = action_id(action);
        assert_eq!(parse_action_id(&id), Some(action), "id {id:?}");
        seen += 1;
    }
    assert!(seen > 20, "expected a full menu, saw {seen} actions");
}

#[test]
fn ids_are_unique_across_the_whole_menu() {
    let mut ids: Vec<String> = all_rows(&default_menu())
        .iter()
        .filter_map(|row| match row {
            MenuRow::Item { action, .. } | MenuRow::Choice { action, .. } => Some(action_id(*action)),
            _ => None,
        })
        .collect();
    let total = ids.len();
    ids.sort();
    ids.dedup();
    assert_eq!(ids.len(), total, "duplicate menu ids");
}

#[test]
fn an_unknown_id_is_rejected_rather_than_guessed() {
    for id in ["", "1000", "Quit", "button3.label", "badge.nonsense", "pause."] {
        assert_eq!(parse_action_id(id), None, "id {id:?}");
    }
}

#[test]
fn each_button_submenu_marks_its_current_destination() {
    let mut settings = Settings::default();
    settings.set_button_type(ButtonSlot::One, LinkType::Album);
    let rows = menu(&settings, &MusicState::default());

    let button1 = submenu(&rows, "Button 1:");
    assert_eq!(checked_labels(button1), vec!["Album Page"]);
    assert_eq!(checked_labels(submenu(&rows, "Button 2:")), vec!["Repository"]);
}

#[test]
fn the_button_submenu_is_titled_with_its_destination() {
    let rows = default_menu();
    assert!(rows.iter().any(|row| matches!(
        row,
        MenuRow::Submenu { label, .. } if label == "Button 1: Song Page"
    )));
}

#[test]
fn the_label_row_shows_the_label_it_would_change() {
    let rows = default_menu();
    let button1 = submenu(&rows, "Button 1:");
    assert!(button1.iter().any(|row| matches!(
        row,
        MenuRow::Item { label, action: MenuAction::EditButtonLabel(ButtonSlot::One) }
            if label == "Change Label… (\"Play on Apple Music\")"
    )));
}

#[test]
fn a_disabled_button_offers_no_label_to_change() {
    let mut settings = Settings::default();
    settings.set_button_type(ButtonSlot::One, LinkType::Disabled);
    let rows = menu(&settings, &MusicState::default());
    let button1 = submenu(&rows, "Button 1:");

    assert!(
        !button1.iter().any(|row| matches!(
            row,
            MenuRow::Item { action: MenuAction::EditButtonLabel(_), .. }
        )),
        "the label is not shown anywhere, so it must not be editable"
    );
    assert!(button1.contains(&MenuRow::Info("Change Label…".to_string())));
}

#[test]
fn off_is_set_apart_from_the_real_destinations() {
    let rows = default_menu();
    let button1 = submenu(&rows, "Button 1:");
    let off = button1
        .iter()
        .position(|row| matches!(row, MenuRow::Choice { label, .. } if label == "Off"))
        .expect("an Off row");
    assert_eq!(button1[off - 1], MenuRow::Separator);
}

#[test]
fn sources_show_which_are_being_watched() {
    let rows = default_menu();
    assert_eq!(checked_labels(submenu(&rows, "Music Sources")), vec!["Apple Music"]);
}

#[test]
fn the_pause_submenu_names_behaviours_not_numbers() {
    let rows = default_menu();
    let pause = submenu(&rows, "When Paused:");
    let labels: Vec<&str> = pause
        .iter()
        .filter_map(|row| match row {
            MenuRow::Choice { label, .. } => Some(label.as_str()),
            _ => None,
        })
        .collect();
    assert_eq!(
        labels,
        vec![
            "Keep Showing",
            "Hide Immediately",
            "Hide After 1 Minute",
            "Hide After 3 Minutes",
            "Hide After 5 Minutes",
            "Hide After 10 Minutes",
        ]
    );
    assert_eq!(checked_labels(pause), vec!["Hide After 5 Minutes"]);
}

#[test]
fn japanese_translates_the_menu_but_never_discord_wording() {
    let mut settings = Settings::default();
    settings.language = AppLanguage::Ja;
    let rows = menu(&settings, &MusicState::default());
    let flat = all_rows(&rows);

    let has = |text: &str| {
        flat.iter().any(|row| match row {
            MenuRow::Info(label)
            | MenuRow::Item { label, .. }
            | MenuRow::Choice { label, .. }
            | MenuRow::Submenu { label, .. } => label == text,
            MenuRow::Separator => false,
        })
    };
    assert!(has("ボタン1: 曲ページ"));
    assert!(has("ミュージックソース"));
    assert!(has("一時停止時: 5分後に消す"));
    assert!(has("Ceyradを終了"));
    assert!(has("Reconnect to Discord"));
}

#[test]
fn launch_at_login_reflects_the_os_not_the_settings_file() {
    let settings = Settings::default();
    let music = MusicState::default();
    let off = menu_with(&settings, &music, false, None);
    let on = menu_with(&settings, &music, true, None);

    let checked = |rows: &[MenuRow]| {
        rows.iter().any(|row| {
            matches!(
                row,
                MenuRow::Choice { action: MenuAction::ToggleLaunchAtLogin, checked: true, .. }
            )
        })
    };
    assert!(!checked(&off));
    assert!(checked(&on));
}

#[test]
fn with_no_update_known_the_row_offers_to_look() {
    let rows = default_menu();
    assert!(rows.iter().any(|row| matches!(
        row,
        MenuRow::Item { label, action: MenuAction::CheckForUpdates }
            if label == "Check for Updates…"
    )));
}

#[test]
fn a_known_update_replaces_the_check_row_and_names_the_version() {
    let rows = menu_with(&Settings::default(), &MusicState::default(), false, Some("v0.2.0"));
    assert!(rows.iter().any(|row| matches!(
        row,
        MenuRow::Item { label, action: MenuAction::OpenReleasePage }
            if label == "Update Available: v0.2.0"
    )));
    assert!(!rows.iter().any(|row| matches!(
        row,
        MenuRow::Item { action: MenuAction::CheckForUpdates, .. }
    )));
}

#[test]
fn the_language_row_names_each_language_in_itself() {
    let rows = default_menu();
    let languages = submenu(&rows, "Language:");
    let labels: Vec<&str> = languages
        .iter()
        .filter_map(|row| match row {
            MenuRow::Choice { label, .. } => Some(label.as_str()),
            _ => None,
        })
        .collect();
    assert_eq!(labels, vec!["English", "日本語"]);
}

#[test]
fn ids_spell_out_the_action_they_stand_for() {
    assert_eq!(
        action_id(MenuAction::SetButtonType { button: ButtonSlot::Two, link_type: LinkType::Custom }),
        "button2.type.custom"
    );
    assert_eq!(action_id(MenuAction::EditButtonLabel(ButtonSlot::One)), "button1.label");
    assert_eq!(action_id(MenuAction::SetPauseHideMinutes(-1)), "pause.-1");
    assert_eq!(action_id(MenuAction::ToggleSource(MusicSourceId::AppleMusic)), "source.apple_music");
    assert_eq!(action_id(MenuAction::SetLanguage(AppLanguage::Ja)), "language.ja");
    assert_eq!(parse_action_id("pause.+7"), Some(MenuAction::SetPauseHideMinutes(7)));
    assert_eq!(parse_action_id("pause.99999999999"), None);
    assert_eq!(parse_action_id("button1.type.nowhere"), None);
}

#[test]
fn pause_choices_are_named_in_both_languages() {
    assert_eq!(pause_choice_name(-1, AppLanguage::En), "Keep Showing");
    assert_eq!(pause_choice_name(0, AppLanguage::Ja), "すぐに消す");
    assert_eq!(pause_choice_name(1, AppLanguage::En), "Hide After 1 Minute");
    assert_eq!(pause_choice_name(15, AppLanguage::En), "Hide After 15 Minutes");
    assert_eq!(pause_choice_name(10, AppLanguage::Ja), "10分後に消す");
}
