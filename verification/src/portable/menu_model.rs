//! What the tray menu contains, as data.
//!
//! This decides the rows and their labels with no OS call in sight, and a thin
//! renderer turns them into a real menu. That keeps "what does the menu say
//! right now" answerable by a unit test rather than only by opening it.
use crate::numbers::{decimal, parse_i32, parsed_i32, push_signed_decimal, signed_decimal};
use crate::portable::i18n::{pick, t, AppLanguage};
use crate::portable::settings_model::{
    badge_display_name, link_display_name, BadgeLabelType, LinkType, Settings,
};
use crate::portable::source_selector::MusicSourceId;
use crate::portable::status_lines::{self, discord_line_of, source_line_of};
use crate::strings::{
    chars_eq, chars_of, chars_start_with, find, find_chars, find_from, lemma_find_occurs, occurs_at,
    push_str, slice_chars,
    starts_with, to_owned_string,
};
use vstd::prelude::*;

pub use crate::portable::settings_model::ButtonSlot;

verus! {

/// Something the user asked for by clicking a row.
///
/// The `Edit*` variants only say which dialog to open: the text comes back
/// through the platform layer, which then applies the matching setter.
#[derive(Debug, Clone, Copy, PartialEq, Eq, Structural)]
pub enum MenuAction {
    SetButtonType { button: ButtonSlot, link_type: LinkType },
    EditButtonLabel(ButtonSlot),
    EditCustomUrl,
    EditRepositoryUrl,
    ToggleSource(MusicSourceId),
    SetBadgeLabel(BadgeLabelType),
    SetPauseHideMinutes(i32),
    SetLanguage(AppLanguage),
    ToggleLaunchAtLogin,
    Reconnect,
    CheckForUpdates,
    /// Opens the release page for an update already known to exist.
    OpenReleasePage,
    Quit,
}

/// One row of the menu, in display order.
#[derive(Debug, PartialEq)]
pub enum MenuRow {
    /// A greyed-out line; not clickable. Status lines, headings, and options
    /// that are currently meaningless all land here.
    Info(String),
    Separator,
    /// A plain command.
    Item { label: String, action: MenuAction },
    /// One of a set the user picks from; `checked` marks the current state.
    Choice { label: String, action: MenuAction, checked: bool },
    Submenu { label: String, rows: Vec<MenuRow> },
}

/// A row as the contracts describe it.
pub enum RowView {
    Info(Seq<char>),
    Separator,
    Item { label: Seq<char>, action: MenuAction },
    Choice { label: Seq<char>, action: MenuAction, checked: bool },
    Submenu { label: Seq<char>, rows: Seq<RowView> },
}

/// Whether `r` is the row `v` describes, submenus included.
pub open spec fn row_matches(r: MenuRow, v: RowView) -> bool
    decreases v,
{
    match v {
        RowView::Info(l) => match r {
            MenuRow::Info(x) => x@ == l,
            _ => false,
        },
        RowView::Separator => r is Separator,
        RowView::Item { label, action } => match r {
            MenuRow::Item { label: x, action: a } => x@ == label && a == action,
            _ => false,
        },
        RowView::Choice { label, action, checked } => match r {
            MenuRow::Choice { label: x, action: a, checked: c } => x@ == label && a == action && c
                == checked,
            _ => false,
        },
        RowView::Submenu { label, rows } => match r {
            MenuRow::Submenu { label: x, rows: rs } => x@ == label && rs@.len() == rows.len()
                && forall|i: int| 0 <= i < rows.len() ==> row_matches(#[trigger] rs@[i], rows[i]),
            _ => false,
        },
    }
}

/// Whether `rs` are, one for one, the rows `vs` describe.
pub open spec fn rows_match(rs: Seq<MenuRow>, vs: Seq<RowView>) -> bool {
    rs.len() == vs.len() && forall|i: int| 0 <= i < vs.len() ==> row_matches(#[trigger] rs[i], vs[i])
}

proof fn lemma_rows_push(rs: Seq<MenuRow>, vs: Seq<RowView>, r: MenuRow, v: RowView)
    requires
        rows_match(rs, vs),
        row_matches(r, v),
    ensures
        rows_match(rs.push(r), vs.push(v)),
{
    assert forall|i: int| 0 <= i < vs.push(v).len() implies row_matches(
        #[trigger] rs.push(r)[i],
        vs.push(v)[i],
    ) by {
        if i < vs.len() {
            assert(rs.push(r)[i] == rs[i]);
        }
    }
}

/// What the menu is built from.
pub struct MenuInput<'a> {
    pub status: status_lines::Input<'a>,
    pub settings: &'a Settings,
    /// Read from the OS rather than from settings: the user can turn this off
    /// from Task Manager, and the menu should agree with whatever it says.
    pub launch_at_login: bool,
    /// The tag of a newer release, once one has been found.
    pub update_available: Option<&'a str>,
}

// MARK: - What each part of the menu says

pub open spec fn language_name(l: AppLanguage) -> Seq<char> {
    match l {
        AppLanguage::En => "English"@,
        AppLanguage::Ja => "日本語"@,
    }
}

/// Names the two sentinel values as behaviours rather than as numbers, which
/// is the only way "-1" and "0" read as anything.
pub open spec fn pause_name(minutes: i32, lang: AppLanguage) -> Seq<char> {
    if minutes == -1 {
        pick(lang, "Keep Showing"@, "表示し続ける"@)
    } else if minutes == 0 {
        pick(lang, "Hide Immediately"@, "すぐに消す"@)
    } else if minutes == 1 {
        pick(lang, "Hide After 1 Minute"@, "1分後に消す"@)
    } else {
        pick(
            lang,
            "Hide After "@ + signed_decimal(minutes as int) + " Minutes"@,
            signed_decimal(minutes as int) + "分後に消す"@,
        )
    }
}

pub open spec fn link_choice_view(slot: ButtonSlot, candidate: LinkType, current: LinkType, lang: AppLanguage) -> RowView {
    RowView::Choice {
        label: link_display_name(candidate, lang),
        action: MenuAction::SetButtonType { button: slot, link_type: candidate },
        checked: candidate == current,
    }
}

/// The row that edits a button's label. A button that is off shows no label,
/// so offering to change it would only mislead.
pub open spec fn label_row_view(settings: Settings, slot: ButtonSlot, lang: AppLanguage) -> RowView {
    if settings.link_of(slot) == LinkType::Disabled {
        RowView::Info(pick(lang, "Change Label…"@, "ラベルを変更…"@))
    } else {
        let label = settings.label_of(slot);
        RowView::Item {
            label: pick(
                lang,
                "Change Label… (\""@ + label + "\")"@,
                "ラベルを変更…（\""@ + label + "\"）"@,
            ),
            action: MenuAction::EditButtonLabel(slot),
        }
    }
}

/// One button's submenu: the destinations, with "Off" set apart, then its label.
pub open spec fn button_submenu_view(settings: Settings, slot: ButtonSlot, lang: AppLanguage) -> RowView {
    let current = settings.link_of(slot);
    let number = decimal(slot.spec_number() as nat);
    let kind_name = link_display_name(current, lang);
    RowView::Submenu {
        label: pick(lang, "Button "@ + number + ": "@ + kind_name, "ボタン"@ + number + ": "@ + kind_name),
        rows: seq![
            RowView::Info(pick(lang, "Link Destination"@, "リンク先"@)),
            link_choice_view(slot, LinkType::Song, current, lang),
            link_choice_view(slot, LinkType::Artist, current, lang),
            link_choice_view(slot, LinkType::Album, current, lang),
            link_choice_view(slot, LinkType::Custom, current, lang),
            link_choice_view(slot, LinkType::Repository, current, lang),
            RowView::Separator,
            link_choice_view(slot, LinkType::Disabled, current, lang),
            RowView::Separator,
            label_row_view(settings, slot, lang),
        ],
    }
}

/// The players the presence watches. Apple Music is the only one and is
/// always watched.
pub open spec fn sources_submenu_view(lang: AppLanguage) -> RowView {
    RowView::Submenu {
        label: pick(lang, "Music Sources"@, "ミュージックソース"@),
        rows: seq![
            RowView::Choice {
                label: "Apple Music"@,
                action: MenuAction::ToggleSource(MusicSourceId::AppleMusic),
                checked: true,
            },
        ],
    }
}

pub open spec fn badge_choice_view(candidate: BadgeLabelType, current: BadgeLabelType, lang: AppLanguage) -> RowView {
    RowView::Choice {
        label: badge_display_name(candidate, lang),
        action: MenuAction::SetBadgeLabel(candidate),
        checked: candidate == current,
    }
}

pub open spec fn badge_submenu_view(settings: Settings, lang: AppLanguage) -> RowView {
    let current = settings.badge_label;
    let name = badge_display_name(current, lang);
    RowView::Submenu {
        label: pick(lang, "Status Badge: "@ + name, "ステータスバッジ: "@ + name),
        rows: seq![
            badge_choice_view(BadgeLabelType::AppName, current, lang),
            badge_choice_view(BadgeLabelType::Artist, current, lang),
            badge_choice_view(BadgeLabelType::Track, current, lang),
        ],
    }
}

pub open spec fn pause_choice_view(minutes: i32, current: i32, lang: AppLanguage) -> RowView {
    RowView::Choice {
        label: pause_name(minutes, lang),
        action: MenuAction::SetPauseHideMinutes(minutes),
        checked: minutes == current,
    }
}

/// One choice per entry of `PAUSE_HIDE_CHOICES`, in its order.
pub open spec fn pause_submenu_view(settings: Settings, lang: AppLanguage) -> RowView {
    let current = settings.pause_hide_minutes;
    let name = pause_name(current, lang);
    RowView::Submenu {
        label: pick(lang, "When Paused: "@ + name, "一時停止時: "@ + name),
        rows: seq![
            pause_choice_view(-1i32, current, lang),
            pause_choice_view(0i32, current, lang),
            pause_choice_view(1i32, current, lang),
            pause_choice_view(3i32, current, lang),
            pause_choice_view(5i32, current, lang),
            pause_choice_view(10i32, current, lang),
        ],
    }
}

/// Each language named in itself, so someone who cannot read the current
/// one can still find their own.
pub open spec fn language_submenu_view(current: AppLanguage) -> RowView {
    let name = language_name(current);
    RowView::Submenu {
        label: pick(current, "Language: "@ + name, "言語: "@ + name),
        rows: seq![
            RowView::Choice {
                label: "English"@,
                action: MenuAction::SetLanguage(AppLanguage::En),
                checked: current == AppLanguage::En,
            },
            RowView::Choice {
                label: "日本語"@,
                action: MenuAction::SetLanguage(AppLanguage::Ja),
                checked: current == AppLanguage::Ja,
            },
        ],
    }
}

/// An available update gets its own row in place of the check, so the news
/// is not hidden behind the same wording that means "go and look".
pub open spec fn update_row_view(update: Option<Seq<char>>, lang: AppLanguage) -> RowView {
    match update {
        Some(tag) => RowView::Item {
            label: pick(lang, "Update Available: "@ + tag, "アップデートがあります: "@ + tag),
            action: MenuAction::OpenReleasePage,
        },
        None => RowView::Item {
            label: pick(lang, "Check for Updates…"@, "アップデートを確認…"@),
            action: MenuAction::CheckForUpdates,
        },
    }
}

pub open spec fn str_opt_view(o: Option<&str>) -> Option<Seq<char>> {
    match o {
        Some(s) => Some(s@),
        None => None,
    }
}

/// The whole menu: the status rows, then the buttons, the settings, Discord,
/// updates and quitting, each group set apart.
pub open spec fn menu_view(input: MenuInput) -> Seq<RowView> {
    let settings = *input.settings;
    let lang = settings.language;
    let music = *input.status.music;
    seq![
        RowView::Info(source_line_of(music, input.status.language)),
        RowView::Info(discord_line_of(music, input.status.discord_state)),
        RowView::Separator,
        button_submenu_view(settings, ButtonSlot::One, lang),
        button_submenu_view(settings, ButtonSlot::Two, lang),
        RowView::Separator,
        RowView::Item {
            label: pick(lang, "Set Custom URL…"@, "カスタムURLを設定…"@),
            action: MenuAction::EditCustomUrl,
        },
        RowView::Item {
            label: pick(lang, "Set Repository URL…"@, "リポジトリURLを設定…"@),
            action: MenuAction::EditRepositoryUrl,
        },
        sources_submenu_view(lang),
        badge_submenu_view(settings, lang),
        pause_submenu_view(settings, lang),
        language_submenu_view(lang),
        RowView::Choice {
            label: pick(lang, "Launch at Login"@, "ログイン時に自動起動"@),
            action: MenuAction::ToggleLaunchAtLogin,
            checked: input.launch_at_login,
        },
        RowView::Separator,
        RowView::Item { label: "Reconnect to Discord"@, action: MenuAction::Reconnect },
        RowView::Separator,
        update_row_view(str_opt_view(input.update_available), lang),
        RowView::Separator,
        RowView::Item { label: pick(lang, "Quit Ceyrad"@, "Ceyradを終了"@), action: MenuAction::Quit },
    ]
}


// MARK: - Building the rows

fn push_row(rows: &mut Vec<MenuRow>, row: MenuRow, Ghost(vs): Ghost<Seq<RowView>>, Ghost(v): Ghost<RowView>)
    requires
        rows_match(old(rows)@, vs),
        row_matches(row, v),
    ensures
        rows_match(final(rows)@, vs.push(v)),
{
    proof {
        lemma_rows_push(rows@, vs, row, v);
    }
    rows.push(row);
}

/// `head` then `tail`, as a new string.
fn joined(head: &str, tail: &str) -> (r: String)
    ensures
        r@ == head@ + tail@,
{
    let mut out = to_owned_string(head);
    push_str(&mut out, tail);
    out
}

/// `a`, `b` and `c` run together.
fn joined3(a: &str, b: &str, c: &str) -> (r: String)
    ensures
        r@ == a@ + b@ + c@,
{
    let mut out = to_owned_string(a);
    push_str(&mut out, b);
    push_str(&mut out, c);
    out
}

fn link_choice_row(slot: ButtonSlot, candidate: LinkType, current: LinkType, lang: AppLanguage) -> (r: MenuRow)
    ensures
        row_matches(r, link_choice_view(slot, candidate, current, lang)),
{
    MenuRow::Choice {
        label: candidate.display_name(lang),
        action: MenuAction::SetButtonType { button: slot, link_type: candidate },
        checked: candidate == current,
    }
}

fn label_row(settings: &Settings, slot: ButtonSlot, lang: AppLanguage) -> (r: MenuRow)
    ensures
        row_matches(r, label_row_view(*settings, slot, lang)),
{
    if settings.button_type(slot) == LinkType::Disabled {
        MenuRow::Info(t(lang, "Change Label…", "ラベルを変更…"))
    } else {
        let label = settings.button_label(slot);
        let en = joined3("Change Label… (\"", label.as_str(), "\")");
        let ja = joined3("ラベルを変更…（\"", label.as_str(), "\"）");
        MenuRow::Item { label: t(lang, en.as_str(), ja.as_str()), action: MenuAction::EditButtonLabel(slot) }
    }
}

fn button_submenu(settings: &Settings, slot: ButtonSlot, lang: AppLanguage) -> (r: MenuRow)
    ensures
        row_matches(r, button_submenu_view(*settings, slot, lang)),
{
    let current = settings.button_type(slot);
    let number = crate::numbers::decimal_string(slot.number() as u64);
    let kind_name = current.display_name(lang);
    let ghost v = button_submenu_view(*settings, slot, lang);
    let ghost vs = match v {
        RowView::Submenu { rows, .. } => rows,
        _ => Seq::empty(),
    };
    let mut rows: Vec<MenuRow> = Vec::new();
    push_row(&mut rows, MenuRow::Info(t(lang, "Link Destination", "リンク先")), Ghost(Seq::empty()), Ghost(vs[0]));
    // "Off" is not another destination but a way to drop the button, so it
    // is set apart.
    push_row(&mut rows, link_choice_row(slot, LinkType::Song, current, lang), Ghost(vs.take(1)), Ghost(vs[1]));
    push_row(&mut rows, link_choice_row(slot, LinkType::Artist, current, lang), Ghost(vs.take(2)), Ghost(vs[2]));
    push_row(&mut rows, link_choice_row(slot, LinkType::Album, current, lang), Ghost(vs.take(3)), Ghost(vs[3]));
    push_row(&mut rows, link_choice_row(slot, LinkType::Custom, current, lang), Ghost(vs.take(4)), Ghost(vs[4]));
    push_row(&mut rows, link_choice_row(slot, LinkType::Repository, current, lang), Ghost(vs.take(5)), Ghost(vs[5]));
    push_row(&mut rows, MenuRow::Separator, Ghost(vs.take(6)), Ghost(vs[6]));
    push_row(&mut rows, link_choice_row(slot, LinkType::Disabled, current, lang), Ghost(vs.take(7)), Ghost(vs[7]));
    push_row(&mut rows, MenuRow::Separator, Ghost(vs.take(8)), Ghost(vs[8]));
    push_row(&mut rows, label_row(settings, slot, lang), Ghost(vs.take(9)), Ghost(vs[9]));
    let en = joined3("Button ", number.as_str(), ": ");
    let en = joined(en.as_str(), kind_name.as_str());
    let ja = joined3("ボタン", number.as_str(), ": ");
    let ja = joined(ja.as_str(), kind_name.as_str());
    proof {
        assert(vs.take(10) =~= vs);
    }
    MenuRow::Submenu { label: t(lang, en.as_str(), ja.as_str()), rows }
}


fn sources_submenu(lang: AppLanguage) -> (r: MenuRow)
    ensures
        row_matches(r, sources_submenu_view(lang)),
{
    let ghost vs = match sources_submenu_view(lang) {
        RowView::Submenu { rows, .. } => rows,
        _ => Seq::empty(),
    };
    let mut rows: Vec<MenuRow> = Vec::new();
    let apple_music = MenuRow::Choice {
        label: to_owned_string(crate::portable::apple_music::DISPLAY_NAME),
        action: MenuAction::ToggleSource(MusicSourceId::AppleMusic),
        checked: true,
    };
    push_row(&mut rows, apple_music, Ghost(Seq::empty()), Ghost(vs[0]));
    proof {
        assert(vs.take(1) =~= vs);
    }
    MenuRow::Submenu { label: t(lang, "Music Sources", "ミュージックソース"), rows }
}

fn badge_choice_row(candidate: BadgeLabelType, current: BadgeLabelType, lang: AppLanguage) -> (r: MenuRow)
    ensures
        row_matches(r, badge_choice_view(candidate, current, lang)),
{
    MenuRow::Choice {
        label: candidate.display_name(lang),
        action: MenuAction::SetBadgeLabel(candidate),
        checked: candidate == current,
    }
}

fn badge_submenu(settings: &Settings, lang: AppLanguage) -> (r: MenuRow)
    ensures
        row_matches(r, badge_submenu_view(*settings, lang)),
{
    let current = settings.badge_label;
    let name = current.display_name(lang);
    let ghost vs = match badge_submenu_view(*settings, lang) {
        RowView::Submenu { rows, .. } => rows,
        _ => Seq::empty(),
    };
    let mut rows: Vec<MenuRow> = Vec::new();
    push_row(&mut rows, badge_choice_row(BadgeLabelType::AppName, current, lang), Ghost(Seq::empty()), Ghost(vs[0]));
    push_row(&mut rows, badge_choice_row(BadgeLabelType::Artist, current, lang), Ghost(vs.take(1)), Ghost(vs[1]));
    push_row(&mut rows, badge_choice_row(BadgeLabelType::Track, current, lang), Ghost(vs.take(2)), Ghost(vs[2]));
    proof {
        assert(vs.take(3) =~= vs);
    }
    let en = joined("Status Badge: ", name.as_str());
    let ja = joined("ステータスバッジ: ", name.as_str());
    MenuRow::Submenu { label: t(lang, en.as_str(), ja.as_str()), rows }
}

/// Names the two sentinel values as behaviours rather than as numbers, which
/// is the only way "-1" and "0" read as anything.
pub fn pause_choice_name(minutes: i32, language: AppLanguage) -> (r: String)
    ensures
        r@ == pause_name(minutes, language),
{
    if minutes == -1 {
        t(language, "Keep Showing", "表示し続ける")
    } else if minutes == 0 {
        t(language, "Hide Immediately", "すぐに消す")
    } else if minutes == 1 {
        t(language, "Hide After 1 Minute", "1分後に消す")
    } else {
        let mut en = to_owned_string("Hide After ");
        push_signed_decimal(&mut en, minutes as i64);
        push_str(&mut en, " Minutes");
        let mut ja = String::new();
        push_signed_decimal(&mut ja, minutes as i64);
        push_str(&mut ja, "分後に消す");
        proof {
            assert(ja@ =~= signed_decimal(minutes as int) + "分後に消す"@);
        }
        t(language, en.as_str(), ja.as_str())
    }
}

fn pause_choice_row(minutes: i32, current: i32, lang: AppLanguage) -> (r: MenuRow)
    ensures
        row_matches(r, pause_choice_view(minutes, current, lang)),
{
    MenuRow::Choice {
        label: pause_choice_name(minutes, lang),
        action: MenuAction::SetPauseHideMinutes(minutes),
        checked: minutes == current,
    }
}

fn pause_submenu(settings: &Settings, lang: AppLanguage) -> (r: MenuRow)
    ensures
        row_matches(r, pause_submenu_view(*settings, lang)),
{
    let current = settings.pause_hide_minutes;
    let name = pause_choice_name(current, lang);
    let ghost vs = match pause_submenu_view(*settings, lang) {
        RowView::Submenu { rows, .. } => rows,
        _ => Seq::empty(),
    };
    let mut rows: Vec<MenuRow> = Vec::new();
    push_row(&mut rows, pause_choice_row(-1, current, lang), Ghost(Seq::empty()), Ghost(vs[0]));
    push_row(&mut rows, pause_choice_row(0, current, lang), Ghost(vs.take(1)), Ghost(vs[1]));
    push_row(&mut rows, pause_choice_row(1, current, lang), Ghost(vs.take(2)), Ghost(vs[2]));
    push_row(&mut rows, pause_choice_row(3, current, lang), Ghost(vs.take(3)), Ghost(vs[3]));
    push_row(&mut rows, pause_choice_row(5, current, lang), Ghost(vs.take(4)), Ghost(vs[4]));
    push_row(&mut rows, pause_choice_row(10, current, lang), Ghost(vs.take(5)), Ghost(vs[5]));
    proof {
        assert(vs.take(6) =~= vs);
    }
    let en = joined("When Paused: ", name.as_str());
    let ja = joined("一時停止時: ", name.as_str());
    MenuRow::Submenu { label: t(lang, en.as_str(), ja.as_str()), rows }
}

fn language_submenu(current: AppLanguage) -> (r: MenuRow)
    ensures
        row_matches(r, language_submenu_view(current)),
{
    let name = current.display_name();
    let ghost vs = match language_submenu_view(current) {
        RowView::Submenu { rows, .. } => rows,
        _ => Seq::empty(),
    };
    let mut rows: Vec<MenuRow> = Vec::new();
    let english = MenuRow::Choice {
        label: to_owned_string(AppLanguage::En.display_name()),
        action: MenuAction::SetLanguage(AppLanguage::En),
        checked: current == AppLanguage::En,
    };
    push_row(&mut rows, english, Ghost(Seq::empty()), Ghost(vs[0]));
    let japanese = MenuRow::Choice {
        label: to_owned_string(AppLanguage::Ja.display_name()),
        action: MenuAction::SetLanguage(AppLanguage::Ja),
        checked: current == AppLanguage::Ja,
    };
    push_row(&mut rows, japanese, Ghost(vs.take(1)), Ghost(vs[1]));
    proof {
        assert(vs.take(2) =~= vs);
    }
    let en = joined("Language: ", name);
    let ja = joined("言語: ", name);
    MenuRow::Submenu { label: t(current, en.as_str(), ja.as_str()), rows }
}

fn update_row(update: Option<&str>, lang: AppLanguage) -> (r: MenuRow)
    ensures
        row_matches(r, update_row_view(str_opt_view(update), lang)),
{
    match update {
        Some(tag) => {
            let en = joined("Update Available: ", tag);
            let ja = joined("アップデートがあります: ", tag);
            MenuRow::Item { label: t(lang, en.as_str(), ja.as_str()), action: MenuAction::OpenReleasePage }
        },
        None => MenuRow::Item {
            label: t(lang, "Check for Updates…", "アップデートを確認…"),
            action: MenuAction::CheckForUpdates,
        },
    }
}

/// The rows of the tray menu, top to bottom.
pub fn build_menu(input: &MenuInput) -> (r: Vec<MenuRow>)
    ensures
        rows_match(r@, menu_view(*input)),
{
    let settings = input.settings;
    let language = settings.language;
    let ghost vs = menu_view(*input);
    let status = status_lines::lines(&input.status);
    let mut rows: Vec<MenuRow> = Vec::new();
    let first = status[0].clone();
    let second = status[1].clone();
    push_row(&mut rows, MenuRow::Info(first), Ghost(Seq::empty()), Ghost(vs[0]));
    push_row(&mut rows, MenuRow::Info(second), Ghost(vs.take(1)), Ghost(vs[1]));
    push_row(&mut rows, MenuRow::Separator, Ghost(vs.take(2)), Ghost(vs[2]));
    push_row(&mut rows, button_submenu(settings, ButtonSlot::One, language), Ghost(vs.take(3)), Ghost(vs[3]));
    push_row(&mut rows, button_submenu(settings, ButtonSlot::Two, language), Ghost(vs.take(4)), Ghost(vs[4]));
    push_row(&mut rows, MenuRow::Separator, Ghost(vs.take(5)), Ghost(vs[5]));
    let custom = MenuRow::Item {
        label: t(language, "Set Custom URL…", "カスタムURLを設定…"),
        action: MenuAction::EditCustomUrl,
    };
    push_row(&mut rows, custom, Ghost(vs.take(6)), Ghost(vs[6]));
    let repository = MenuRow::Item {
        label: t(language, "Set Repository URL…", "リポジトリURLを設定…"),
        action: MenuAction::EditRepositoryUrl,
    };
    push_row(&mut rows, repository, Ghost(vs.take(7)), Ghost(vs[7]));
    push_row(&mut rows, sources_submenu(language), Ghost(vs.take(8)), Ghost(vs[8]));
    push_row(&mut rows, badge_submenu(settings, language), Ghost(vs.take(9)), Ghost(vs[9]));
    push_row(&mut rows, pause_submenu(settings, language), Ghost(vs.take(10)), Ghost(vs[10]));
    push_row(&mut rows, language_submenu(language), Ghost(vs.take(11)), Ghost(vs[11]));
    let launch = MenuRow::Choice {
        label: t(language, "Launch at Login", "ログイン時に自動起動"),
        action: MenuAction::ToggleLaunchAtLogin,
        checked: input.launch_at_login,
    };
    push_row(&mut rows, launch, Ghost(vs.take(12)), Ghost(vs[12]));
    push_row(&mut rows, MenuRow::Separator, Ghost(vs.take(13)), Ghost(vs[13]));
    // Not translated: everything naming Discord stays in Discord's own language.
    let reconnect = MenuRow::Item {
        label: to_owned_string("Reconnect to Discord"),
        action: MenuAction::Reconnect,
    };
    push_row(&mut rows, reconnect, Ghost(vs.take(14)), Ghost(vs[14]));
    push_row(&mut rows, MenuRow::Separator, Ghost(vs.take(15)), Ghost(vs[15]));
    push_row(&mut rows, update_row(input.update_available, language), Ghost(vs.take(16)), Ghost(vs[16]));
    push_row(&mut rows, MenuRow::Separator, Ghost(vs.take(17)), Ghost(vs[17]));
    let quit = MenuRow::Item { label: t(language, "Quit Ceyrad", "Ceyradを終了"), action: MenuAction::Quit };
    push_row(&mut rows, quit, Ghost(vs.take(18)), Ghost(vs[18]));
    proof {
        assert(vs.take(19) =~= vs);
    }
    rows
}


// MARK: - Row identity
//
// A renderer attaches these to rows and hands them back on click, so no
// numeric command ids have to be tracked anywhere. The vocabulary is owned
// here rather than borrowed from the settings file's names: the two serve
// different readers and should be free to diverge.

pub open spec fn link_slug(link: LinkType) -> Seq<char> {
    match link {
        LinkType::Song => "song"@,
        LinkType::Artist => "artist"@,
        LinkType::Album => "album"@,
        LinkType::Custom => "custom"@,
        LinkType::Repository => "repository"@,
        LinkType::Disabled => "disabled"@,
    }
}

/// The selectable link type with this slug.
pub open spec fn link_from_slug(slug: Seq<char>) -> Option<LinkType> {
    if slug == "song"@ {
        Some(LinkType::Song)
    } else if slug == "artist"@ {
        Some(LinkType::Artist)
    } else if slug == "album"@ {
        Some(LinkType::Album)
    } else if slug == "custom"@ {
        Some(LinkType::Custom)
    } else if slug == "repository"@ {
        Some(LinkType::Repository)
    } else if slug == "disabled"@ {
        Some(LinkType::Disabled)
    } else {
        None
    }
}

pub open spec fn source_slug(source: MusicSourceId) -> Seq<char> {
    match source {
        MusicSourceId::AppleMusic => "apple_music"@,
    }
}

pub open spec fn source_from_slug(slug: Seq<char>) -> Option<MusicSourceId> {
    if slug == "apple_music"@ {
        Some(MusicSourceId::AppleMusic)
    } else {
        None
    }
}

pub open spec fn badge_slug(badge: BadgeLabelType) -> Seq<char> {
    match badge {
        BadgeLabelType::AppName => "app_name"@,
        BadgeLabelType::Artist => "artist"@,
        BadgeLabelType::Track => "track"@,
    }
}

pub open spec fn badge_from_slug(slug: Seq<char>) -> Option<BadgeLabelType> {
    if slug == "app_name"@ {
        Some(BadgeLabelType::AppName)
    } else if slug == "artist"@ {
        Some(BadgeLabelType::Artist)
    } else if slug == "track"@ {
        Some(BadgeLabelType::Track)
    } else {
        None
    }
}

pub open spec fn language_slug(language: AppLanguage) -> Seq<char> {
    match language {
        AppLanguage::En => "en"@,
        AppLanguage::Ja => "ja"@,
    }
}

pub open spec fn language_from_slug(slug: Seq<char>) -> Option<AppLanguage> {
    if slug == "en"@ {
        Some(AppLanguage::En)
    } else if slug == "ja"@ {
        Some(AppLanguage::Ja)
    } else {
        None
    }
}

/// The id a row carries for its action.
pub open spec fn action_id_of(action: MenuAction) -> Seq<char> {
    match action {
        MenuAction::SetButtonType { button, link_type } => "button"@ + decimal(
            button.spec_number() as nat,
        ) + ".type."@ + link_slug(link_type),
        MenuAction::EditButtonLabel(button) => "button"@ + decimal(button.spec_number() as nat)
            + ".label"@,
        MenuAction::EditCustomUrl => "url.custom"@,
        MenuAction::EditRepositoryUrl => "url.repository"@,
        MenuAction::ToggleSource(source) => "source."@ + source_slug(source),
        MenuAction::SetBadgeLabel(badge) => "badge."@ + badge_slug(badge),
        MenuAction::SetPauseHideMinutes(minutes) => "pause."@ + signed_decimal(minutes as int),
        MenuAction::SetLanguage(language) => "language."@ + language_slug(language),
        MenuAction::ToggleLaunchAtLogin => "launch_at_login"@,
        MenuAction::Reconnect => "reconnect"@,
        MenuAction::CheckForUpdates => "update.check"@,
        MenuAction::OpenReleasePage => "update.open"@,
        MenuAction::Quit => "quit"@,
    }
}

/// The action behind an id: one of the fixed ids, or a group and what
/// follows its first `.`. Anything else names no action.
pub open spec fn parsed_action(id: Seq<char>) -> Option<MenuAction> {
    if id == "url.custom"@ {
        Some(MenuAction::EditCustomUrl)
    } else if id == "url.repository"@ {
        Some(MenuAction::EditRepositoryUrl)
    } else if id == "launch_at_login"@ {
        Some(MenuAction::ToggleLaunchAtLogin)
    } else if id == "reconnect"@ {
        Some(MenuAction::Reconnect)
    } else if id == "update.check"@ {
        Some(MenuAction::CheckForUpdates)
    } else if id == "update.open"@ {
        Some(MenuAction::OpenReleasePage)
    } else if id == "quit"@ {
        Some(MenuAction::Quit)
    } else {
        match find(id, seq!['.']) {
            None => None,
            Some(k) => {
                let head = id.take(k);
                let tail = id.skip(k + 1);
                if head == "button1"@ || head == "button2"@ {
                    let button = if head == "button1"@ {
                        ButtonSlot::One
                    } else {
                        ButtonSlot::Two
                    };
                    if tail == "label"@ {
                        Some(MenuAction::EditButtonLabel(button))
                    } else if starts_with(tail, "type."@) {
                        match link_from_slug(tail.skip("type."@.len() as int)) {
                            Some(link_type) => Some(MenuAction::SetButtonType { button, link_type }),
                            None => None,
                        }
                    } else {
                        None
                    }
                } else if head == "source"@ {
                    match source_from_slug(tail) {
                        Some(source) => Some(MenuAction::ToggleSource(source)),
                        None => None,
                    }
                } else if head == "badge"@ {
                    match badge_from_slug(tail) {
                        Some(badge) => Some(MenuAction::SetBadgeLabel(badge)),
                        None => None,
                    }
                } else if head == "pause"@ {
                    // Parsed rather than matched against the list: the choices
                    // are the menu's business, and a value that is no longer
                    // offered is still a value this can apply.
                    match parsed_i32(tail) {
                        Some(minutes) => Some(MenuAction::SetPauseHideMinutes(minutes)),
                        None => None,
                    }
                } else if head == "language"@ {
                    match language_from_slug(tail) {
                        Some(language) => Some(MenuAction::SetLanguage(language)),
                        None => None,
                    }
                } else {
                    None
                }
            },
        }
    }
}

fn link_slug_str(link: LinkType) -> (r: &'static str)
    ensures
        r@ == link_slug(link),
{
    match link {
        LinkType::Song => "song",
        LinkType::Artist => "artist",
        LinkType::Album => "album",
        LinkType::Custom => "custom",
        LinkType::Repository => "repository",
        LinkType::Disabled => "disabled",
    }
}

fn badge_slug_str(badge: BadgeLabelType) -> (r: &'static str)
    ensures
        r@ == badge_slug(badge),
{
    match badge {
        BadgeLabelType::AppName => "app_name",
        BadgeLabelType::Artist => "artist",
        BadgeLabelType::Track => "track",
    }
}

fn language_slug_str(language: AppLanguage) -> (r: &'static str)
    ensures
        r@ == language_slug(language),
{
    match language {
        AppLanguage::En => "en",
        AppLanguage::Ja => "ja",
    }
}

/// The id a row carries for `action`.
pub fn action_id(action: MenuAction) -> (r: String)
    ensures
        r@ == action_id_of(action),
{
    match action {
        MenuAction::SetButtonType { button, link_type } => {
            let mut out = to_owned_string("button");
            crate::numbers::push_decimal(&mut out, button.number() as u64);
            push_str(&mut out, ".type.");
            push_str(&mut out, link_slug_str(link_type));
            out
        },
        MenuAction::EditButtonLabel(button) => {
            let mut out = to_owned_string("button");
            crate::numbers::push_decimal(&mut out, button.number() as u64);
            push_str(&mut out, ".label");
            out
        },
        MenuAction::EditCustomUrl => to_owned_string("url.custom"),
        MenuAction::EditRepositoryUrl => to_owned_string("url.repository"),
        MenuAction::ToggleSource(source) => match source {
            MusicSourceId::AppleMusic => joined("source.", "apple_music"),
        },
        MenuAction::SetBadgeLabel(badge) => joined("badge.", badge_slug_str(badge)),
        MenuAction::SetPauseHideMinutes(minutes) => {
            let mut out = to_owned_string("pause.");
            push_signed_decimal(&mut out, minutes as i64);
            out
        },
        MenuAction::SetLanguage(language) => joined("language.", language_slug_str(language)),
        MenuAction::ToggleLaunchAtLogin => to_owned_string("launch_at_login"),
        MenuAction::Reconnect => to_owned_string("reconnect"),
        MenuAction::CheckForUpdates => to_owned_string("update.check"),
        MenuAction::OpenReleasePage => to_owned_string("update.open"),
        MenuAction::Quit => to_owned_string("quit"),
    }
}

fn is_word(s: &[char], word: &str) -> (r: bool)
    ensures
        r == (s@ == word@),
{
    let w = chars_of(word);
    chars_eq(s, w.as_slice())
}

fn link_from_slug_exec(slug: &[char]) -> (r: Option<LinkType>)
    ensures
        r == link_from_slug(slug@),
{
    if is_word(slug, "song") {
        Some(LinkType::Song)
    } else if is_word(slug, "artist") {
        Some(LinkType::Artist)
    } else if is_word(slug, "album") {
        Some(LinkType::Album)
    } else if is_word(slug, "custom") {
        Some(LinkType::Custom)
    } else if is_word(slug, "repository") {
        Some(LinkType::Repository)
    } else if is_word(slug, "disabled") {
        Some(LinkType::Disabled)
    } else {
        None
    }
}

fn badge_from_slug_exec(slug: &[char]) -> (r: Option<BadgeLabelType>)
    ensures
        r == badge_from_slug(slug@),
{
    if is_word(slug, "app_name") {
        Some(BadgeLabelType::AppName)
    } else if is_word(slug, "artist") {
        Some(BadgeLabelType::Artist)
    } else if is_word(slug, "track") {
        Some(BadgeLabelType::Track)
    } else {
        None
    }
}

fn language_from_slug_exec(slug: &[char]) -> (r: Option<AppLanguage>)
    ensures
        r == language_from_slug(slug@),
{
    if is_word(slug, "en") {
        Some(AppLanguage::En)
    } else if is_word(slug, "ja") {
        Some(AppLanguage::Ja)
    } else {
        None
    }
}

/// The action an id names; `None` for ids minted for rows that carry none.
pub fn parse_action_id(id: &str) -> (r: Option<MenuAction>)
    ensures
        r == parsed_action(id@),
{
    let chars = chars_of(id);
    let s = chars.as_slice();
    if is_word(s, "url.custom") {
        return Some(MenuAction::EditCustomUrl);
    }
    if is_word(s, "url.repository") {
        return Some(MenuAction::EditRepositoryUrl);
    }
    if is_word(s, "launch_at_login") {
        return Some(MenuAction::ToggleLaunchAtLogin);
    }
    if is_word(s, "reconnect") {
        return Some(MenuAction::Reconnect);
    }
    if is_word(s, "update.check") {
        return Some(MenuAction::CheckForUpdates);
    }
    if is_word(s, "update.open") {
        return Some(MenuAction::OpenReleasePage);
    }
    if is_word(s, "quit") {
        return Some(MenuAction::Quit);
    }
    let dot = vec!['.'];
    assert(dot@ =~= seq!['.']);
    let k = match find_chars(s, dot.as_slice()) {
        None => return None,
        Some(k) => k,
    };
    proof {
        lemma_find_occurs(s@, dot@, 0);
    }
    let n = s.len();
    let head = slice_chars(s, 0, k);
    let tail = slice_chars(s, k + 1, n);
    proof {
        assert(head@ =~= s@.take(k as int));
        assert(tail@ =~= s@.skip(k + 1));
    }
    let h = head.as_slice();
    let rest = tail.as_slice();
    if is_word(h, "button1") || is_word(h, "button2") {
        let button = if is_word(h, "button1") {
            ButtonSlot::One
        } else {
            ButtonSlot::Two
        };
        if is_word(rest, "label") {
            return Some(MenuAction::EditButtonLabel(button));
        }
        let prefix = chars_of("type.");
        if !chars_start_with(rest, prefix.as_slice()) {
            return None;
        }
        let slug = slice_chars(rest, prefix.len(), rest.len());
        proof {
            assert(slug@ =~= tail@.skip("type."@.len() as int));
        }
        match link_from_slug_exec(slug.as_slice()) {
            Some(link_type) => Some(MenuAction::SetButtonType { button, link_type }),
            None => None,
        }
    } else if is_word(h, "source") {
        if is_word(rest, "apple_music") {
            Some(MenuAction::ToggleSource(MusicSourceId::AppleMusic))
        } else {
            None
        }
    } else if is_word(h, "badge") {
        match badge_from_slug_exec(rest) {
            Some(badge) => Some(MenuAction::SetBadgeLabel(badge)),
            None => None,
        }
    } else if is_word(h, "pause") {
        match parse_i32(rest) {
            Some(minutes) => Some(MenuAction::SetPauseHideMinutes(minutes)),
            None => None,
        }
    } else if is_word(h, "language") {
        match language_from_slug_exec(rest) {
            Some(language) => Some(MenuAction::SetLanguage(language)),
            None => None,
        }
    } else {
        None
    }
}


proof fn lemma_find_from_first(s: Seq<char>, pat: Seq<char>, from: int, k: int)
    requires
        0 <= from <= k,
        occurs_at(s, k, pat),
        forall|j: int| from <= j < k ==> !occurs_at(s, j, pat),
    ensures
        find_from(s, pat, from) == Some(k),
    decreases k - from,
{
    if from < k {
        lemma_find_from_first(s, pat, from + 1, k);
    }
}

/// In `head . rest`, with no `.` in `head`, the first `.` is the one after it.
proof fn lemma_first_dot(head: Seq<char>, rest: Seq<char>)
    requires
        forall|i: int| 0 <= i < head.len() ==> head[i] != '.',
    ensures
        find(head + seq!['.'] + rest, seq!['.']) == Some(head.len() as int),
        (head + seq!['.'] + rest).take(head.len() as int) == head,
        (head + seq!['.'] + rest).skip(head.len() as int + 1) == rest,
{
    let s = head + seq!['.'] + rest;
    let k = head.len() as int;
    assert(s.subrange(k, k + 1) =~= seq!['.']);
    assert forall|j: int| 0 <= j < k implies !occurs_at(s, j, seq!['.']) by {
        if occurs_at(s, j, seq!['.']) {
            assert(s.subrange(j, j + 1)[0] == s[j]);
            assert(s[j] == head[j]);
        }
    }
    lemma_find_from_first(s, seq!['.'], 0, k);
    assert(s.take(k) =~= head);
    assert(s.skip(k + 1) =~= rest);
}

proof fn lemma_fixed_ids()
    ensures
        "url.custom"@.len() == 10 && "url.custom"@[0] == 'u',
        "url.repository"@.len() == 14 && "url.repository"@[0] == 'u',
        "launch_at_login"@.len() == 15 && "launch_at_login"@[0] == 'l',
        "reconnect"@.len() == 9 && "reconnect"@[0] == 'r',
        "update.check"@.len() == 12 && "update.check"@[0] == 'u',
        "update.open"@.len() == 11 && "update.open"@[0] == 'u',
        "quit"@.len() == 4 && "quit"@[0] == 'q',
{
    reveal_strlit("url.custom");
    reveal_strlit("url.repository");
    reveal_strlit("launch_at_login");
    reveal_strlit("reconnect");
    reveal_strlit("update.check");
    reveal_strlit("update.open");
    reveal_strlit("quit");
}

proof fn lemma_fixed_ids_round_trip(action: MenuAction)
    requires
        !(action is SetButtonType || action is EditButtonLabel || action is ToggleSource
            || action is SetBadgeLabel || action is SetPauseHideMinutes || action is SetLanguage),
    ensures
        parsed_action(action_id_of(action)) == Some(action),
{
    lemma_fixed_ids();
}

proof fn lemma_button_head(button: ButtonSlot)
    ensures
        "button"@ + decimal(button.spec_number() as nat) == if button == ButtonSlot::One {
            "button1"@
        } else {
            "button2"@
        },
        "button1"@ != "button2"@,
        forall|i: int| 0 <= i < 7 ==> ("button"@ + decimal(button.spec_number() as nat))[i] != '.',
        ("button"@ + decimal(button.spec_number() as nat)).len() == 7,
        ("button"@ + decimal(button.spec_number() as nat))[0] == 'b',
{
    reveal_strlit("button");
    reveal_strlit("button1");
    reveal_strlit("button2");
    assert(decimal(1) =~= seq!['1']);
    assert(decimal(2) =~= seq!['2']);
    assert("button1"@[6] != "button2"@[6]);
    if button == ButtonSlot::One {
        assert("button"@ + decimal(1) =~= "button1"@);
    } else {
        assert("button"@ + decimal(2) =~= "button2"@);
    }
}

proof fn lemma_link_slug_reads_back(link_type: LinkType)
    ensures
        link_from_slug(link_slug(link_type)) == Some(link_type),
        link_slug(link_type).len() > 0,
{
    reveal_strlit("song");
    reveal_strlit("artist");
    reveal_strlit("album");
    reveal_strlit("custom");
    reveal_strlit("repository");
    reveal_strlit("disabled");
    assert("song"@.len() == 4);
    assert("artist"@.len() == 6);
    assert("album"@.len() == 5);
    assert("custom"@.len() == 6);
    assert("repository"@.len() == 10);
    assert("disabled"@.len() == 8);
    assert("custom"@[0] != "artist"@[0]);
}

proof fn lemma_button_type_round_trip(button: ButtonSlot, link_type: LinkType)
    ensures
        parsed_action(action_id_of(MenuAction::SetButtonType { button, link_type })) == Some(
            MenuAction::SetButtonType { button, link_type },
        ),
{
    let id = action_id_of(MenuAction::SetButtonType { button, link_type });
    lemma_fixed_ids();
    lemma_button_head(button);
    lemma_link_slug_reads_back(link_type);
    reveal_strlit(".type.");
    reveal_strlit("type.");
    reveal_strlit("label");
    let head = "button"@ + decimal(button.spec_number() as nat);
    let rest = "type."@ + link_slug(link_type);
    assert(id =~= head + seq!['.'] + rest);
    lemma_first_dot(head, rest);
    assert(id[0] == 'b');
    assert(rest.len() > "label"@.len());
    assert(rest.subrange(0, 5) =~= "type."@);
    assert(rest.skip(5) =~= link_slug(link_type));
}

proof fn lemma_button_label_round_trip(button: ButtonSlot)
    ensures
        parsed_action(action_id_of(MenuAction::EditButtonLabel(button))) == Some(
            MenuAction::EditButtonLabel(button),
        ),
{
    let id = action_id_of(MenuAction::EditButtonLabel(button));
    lemma_fixed_ids();
    lemma_button_head(button);
    reveal_strlit(".label");
    reveal_strlit("label");
    let head = "button"@ + decimal(button.spec_number() as nat);
    assert(id =~= head + seq!['.'] + "label"@);
    lemma_first_dot(head, "label"@);
    assert(id[0] == 'b');
}

proof fn lemma_group_heads()
    ensures
        "source"@ != "button1"@ && "source"@ != "button2"@,
        "badge"@ != "button1"@ && "badge"@ != "button2"@ && "badge"@ != "source"@,
        "pause"@ != "button1"@ && "pause"@ != "button2"@ && "pause"@ != "source"@ && "pause"@
            != "badge"@,
        "language"@ != "button1"@ && "language"@ != "button2"@ && "language"@ != "source"@
            && "language"@ != "badge"@ && "language"@ != "pause"@,
{
    reveal_strlit("button1");
    reveal_strlit("button2");
    reveal_strlit("source");
    reveal_strlit("badge");
    reveal_strlit("pause");
    reveal_strlit("language");
    assert("button1"@.len() == 7);
    assert("button2"@.len() == 7);
    assert("source"@.len() == 6);
    assert("badge"@.len() == 5);
    assert("pause"@.len() == 5);
    assert("language"@.len() == 8);
    assert("pause"@[0] != "badge"@[0]);
}

proof fn lemma_source_round_trip(source: MusicSourceId)
    ensures
        parsed_action(action_id_of(MenuAction::ToggleSource(source))) == Some(
            MenuAction::ToggleSource(source),
        ),
{
    let id = action_id_of(MenuAction::ToggleSource(source));
    lemma_fixed_ids();
    lemma_group_heads();
    reveal_strlit("source.");
    reveal_strlit("source");
    assert(id =~= "source"@ + seq!['.'] + source_slug(source));
    lemma_first_dot("source"@, source_slug(source));
    assert(id[0] == 's');
}

proof fn lemma_badge_round_trip(badge: BadgeLabelType)
    ensures
        parsed_action(action_id_of(MenuAction::SetBadgeLabel(badge))) == Some(
            MenuAction::SetBadgeLabel(badge),
        ),
{
    let id = action_id_of(MenuAction::SetBadgeLabel(badge));
    lemma_fixed_ids();
    lemma_group_heads();
    reveal_strlit("badge.");
    reveal_strlit("badge");
    reveal_strlit("app_name");
    reveal_strlit("artist");
    reveal_strlit("track");
    assert(id =~= "badge"@ + seq!['.'] + badge_slug(badge));
    lemma_first_dot("badge"@, badge_slug(badge));
    assert(id[0] == 'b');
}

proof fn lemma_pause_round_trip(minutes: i32)
    ensures
        parsed_action(action_id_of(MenuAction::SetPauseHideMinutes(minutes))) == Some(
            MenuAction::SetPauseHideMinutes(minutes),
        ),
{
    let id = action_id_of(MenuAction::SetPauseHideMinutes(minutes));
    lemma_fixed_ids();
    lemma_group_heads();
    reveal_strlit("pause.");
    reveal_strlit("pause");
    assert(id =~= "pause"@ + seq!['.'] + signed_decimal(minutes as int));
    lemma_first_dot("pause"@, signed_decimal(minutes as int));
    assert(id[0] == 'p');
    crate::numbers::lemma_signed_decimal_parses(minutes);
}

proof fn lemma_language_round_trip(language: AppLanguage)
    ensures
        parsed_action(action_id_of(MenuAction::SetLanguage(language))) == Some(
            MenuAction::SetLanguage(language),
        ),
{
    let id = action_id_of(MenuAction::SetLanguage(language));
    lemma_fixed_ids();
    lemma_group_heads();
    reveal_strlit("language.");
    reveal_strlit("language");
    reveal_strlit("en");
    reveal_strlit("ja");
    assert(id =~= "language"@ + seq!['.'] + language_slug(language));
    lemma_first_dot("language"@, language_slug(language));
    assert(id[0] == 'l');
    assert(id.len() == 11);
}

/// Every action reads back from its id as itself, so the renderer never has to
/// keep a table of which row meant what.
pub proof fn lemma_action_id_round_trips(action: MenuAction)
    ensures
        parsed_action(action_id_of(action)) == Some(action),
{
    match action {
        MenuAction::SetButtonType { button, link_type } => lemma_button_type_round_trip(button, link_type),
        MenuAction::EditButtonLabel(button) => lemma_button_label_round_trip(button),
        MenuAction::ToggleSource(source) => lemma_source_round_trip(source),
        MenuAction::SetBadgeLabel(badge) => lemma_badge_round_trip(badge),
        MenuAction::SetPauseHideMinutes(minutes) => lemma_pause_round_trip(minutes),
        MenuAction::SetLanguage(language) => lemma_language_round_trip(language),
        _ => lemma_fixed_ids_round_trip(action),
    }
}

/// No two actions share an id, so a click can never trigger another row's action.
pub proof fn lemma_action_ids_are_distinct(a: MenuAction, b: MenuAction)
    requires
        a != b,
    ensures
        action_id_of(a) != action_id_of(b),
{
    lemma_action_id_round_trips(a);
    lemma_action_id_round_trips(b);
}

} // verus!
