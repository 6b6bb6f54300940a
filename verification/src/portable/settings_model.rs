//! The user's settings and the rules about the two Discord buttons.
use crate::portable::i18n::{pick, t, AppLanguage};
use crate::portable::text::{truncate, truncated};
use crate::strings::{str_eq, to_owned_string};
use vstd::prelude::*;

verus! {

pub const DEFAULT_REPOSITORY_URL: &'static str = "https://github.com/Narcissus-tazetta/Ceyrad";

/// Minutes of continuous pause before the status is cleared.
/// `-1` never clears, `0` clears immediately.
pub const PAUSE_HIDE_CHOICES: [i32; 6] = [-1, 0, 1, 3, 5, 10];

pub const MAX_LABEL_CHARS: usize = 32;

/// Which of the two configurable Discord buttons something is about.
#[derive(Debug, Clone, Copy, PartialEq, Eq, Structural)]
pub enum ButtonSlot {
    One,
    Two,
}

impl ButtonSlot {
    pub const ALL: [ButtonSlot; 2] = [ButtonSlot::One, ButtonSlot::Two];

    pub open spec fn spec_number(self) -> u8 {
        match self {
            ButtonSlot::One => 1,
            ButtonSlot::Two => 2,
        }
    }

    pub fn number(self) -> (n: u8)
        ensures
            n == self.spec_number(),
    {
        match self {
            ButtonSlot::One => 1,
            ButtonSlot::Two => 2,
        }
    }

    /// The link type a fresh install starts with: the song page and the repo.
    pub open spec fn spec_default_type(self) -> LinkType {
        match self {
            ButtonSlot::One => LinkType::Song,
            ButtonSlot::Two => LinkType::Repository,
        }
    }

    pub fn default_type(self) -> (l: LinkType)
        ensures
            l == self.spec_default_type(),
    {
        match self {
            ButtonSlot::One => LinkType::Song,
            ButtonSlot::Two => LinkType::Repository,
        }
    }
}

/// Where a button points.
#[derive(Debug, Clone, Copy, PartialEq, Eq, Structural)]
pub enum LinkType {
    Song,
    Artist,
    Album,
    Custom,
    Repository,
    Disabled,
}

/// The label a button shows until the user edits it. Discord-facing, so
/// never localized.
pub open spec fn default_label_of(link: LinkType) -> Seq<char> {
    match link {
        LinkType::Song => "Play on Apple Music"@,
        LinkType::Artist => "View Artist"@,
        LinkType::Album => "View Album"@,
        LinkType::Custom => "Open Link"@,
        LinkType::Repository => "About This App"@,
        LinkType::Disabled => ""@,
    }
}

/// What the menu calls each link type.
pub open spec fn link_display_name(link: LinkType, lang: AppLanguage) -> Seq<char> {
    match link {
        LinkType::Song => pick(lang, "Song Page"@, "曲ページ"@),
        LinkType::Artist => pick(lang, "Artist Page"@, "アーティストページ"@),
        LinkType::Album => pick(lang, "Album Page"@, "アルバムページ"@),
        LinkType::Custom => pick(lang, "Custom URL"@, "カスタムURL"@),
        LinkType::Repository => pick(lang, "Repository"@, "リポジトリ"@),
        LinkType::Disabled => pick(lang, "Off"@, "オフ"@),
    }
}

impl LinkType {
    pub const SELECTABLE: [LinkType; 6] = [
        LinkType::Song,
        LinkType::Artist,
        LinkType::Album,
        LinkType::Custom,
        LinkType::Repository,
        LinkType::Disabled,
    ];

    pub fn display_name(self, lang: AppLanguage) -> (r: String)
        ensures
            r@ == link_display_name(self, lang),
    {
        match self {
            LinkType::Song => t(lang, "Song Page", "曲ページ"),
            LinkType::Artist => t(lang, "Artist Page", "アーティストページ"),
            LinkType::Album => t(lang, "Album Page", "アルバムページ"),
            LinkType::Custom => t(lang, "Custom URL", "カスタムURL"),
            LinkType::Repository => t(lang, "Repository", "リポジトリ"),
            LinkType::Disabled => t(lang, "Off", "オフ"),
        }
    }

    /// Also the value that decides whether a stored label counts as a
    /// customization.
    pub fn default_label(self) -> (r: &'static str)
        ensures
            r@ == default_label_of(self),
    {
        match self {
            LinkType::Song => "Play on Apple Music",
            LinkType::Artist => "View Artist",
            LinkType::Album => "View Album",
            LinkType::Custom => "Open Link",
            LinkType::Repository => "About This App",
            LinkType::Disabled => "",
        }
    }
}

impl Default for LinkType {
    fn default() -> (l: Self)
        ensures
            l == LinkType::Song,
    {
        LinkType::Song
    }
}

/// What the compact "Listening to …" badge shows. Values match Discord's
/// `status_display_type` (0 = name, 1 = state, 2 = details).
#[derive(Debug, Clone, Copy, PartialEq, Eq, Structural)]
pub enum BadgeLabelType {
    AppName,
    Artist,
    Track,
}

pub open spec fn badge_raw_value(b: BadgeLabelType) -> i64 {
    match b {
        BadgeLabelType::AppName => 0,
        BadgeLabelType::Artist => 1,
        BadgeLabelType::Track => 2,
    }
}

pub open spec fn badge_display_name(b: BadgeLabelType, lang: AppLanguage) -> Seq<char> {
    match b {
        BadgeLabelType::AppName => pick(lang, "App Name"@, "アプリ名"@),
        BadgeLabelType::Artist => pick(lang, "Artist Name"@, "アーティスト名"@),
        BadgeLabelType::Track => pick(lang, "Track Name"@, "曲名"@),
    }
}

impl BadgeLabelType {
    pub const ALL: [BadgeLabelType; 3] = [
        BadgeLabelType::AppName,
        BadgeLabelType::Artist,
        BadgeLabelType::Track,
    ];

    pub fn raw_value(self) -> (r: i64)
        ensures
            r == badge_raw_value(self),
    {
        match self {
            BadgeLabelType::AppName => 0,
            BadgeLabelType::Artist => 1,
            BadgeLabelType::Track => 2,
        }
    }

    pub fn display_name(self, lang: AppLanguage) -> (r: String)
        ensures
            r@ == badge_display_name(self, lang),
    {
        match self {
            BadgeLabelType::AppName => t(lang, "App Name", "アプリ名"),
            BadgeLabelType::Artist => t(lang, "Artist Name", "アーティスト名"),
            BadgeLabelType::Track => t(lang, "Track Name", "曲名"),
        }
    }
}

impl Default for BadgeLabelType {
    fn default() -> (b: Self)
        ensures
            b == BadgeLabelType::Artist,
    {
        BadgeLabelType::Artist
    }
}

/// A stored label, as characters.
pub open spec fn label_view(label: Option<String>) -> Option<Seq<char>> {
    match label {
        Some(s) => Some(s@),
        None => None,
    }
}

/// The user's settings. The four button fields are read and written through
/// the `ButtonSlot` accessors below, which is where every rule about them
/// lives; they are public only so that contracts elsewhere can name them.
#[derive(Debug, Clone)]
pub struct Settings {
    pub button1_type: LinkType,
    /// `None` means the label follows `button1_type`'s default.
    pub button1_label: Option<String>,
    pub button2_type: LinkType,
    pub button2_label: Option<String>,
    pub custom_url: String,
    pub repository_url: String,
    pub badge_label: BadgeLabelType,
    pub pause_hide_minutes: i32,
    pub language: AppLanguage,
}

impl Settings {
    /// Where the button in `slot` points.
    pub open spec fn link_of(&self, slot: ButtonSlot) -> LinkType {
        match slot {
            ButtonSlot::One => self.button1_type,
            ButtonSlot::Two => self.button2_type,
        }
    }

    /// The label the user chose for `slot`, or `None` while it follows the
    /// link type's default.
    pub open spec fn custom_label_of(&self, slot: ButtonSlot) -> Option<Seq<char>> {
        match slot {
            ButtonSlot::One => label_view(self.button1_label),
            ButtonSlot::Two => label_view(self.button2_label),
        }
    }

    /// The label a button shows.
    pub open spec fn label_of(&self, slot: ButtonSlot) -> Seq<char> {
        match self.custom_label_of(slot) {
            Some(label) => label,
            None => default_label_of(self.link_of(slot)),
        }
    }

    /// Everything but the button in `slot` is as it was in `other`.
    pub open spec fn same_except(&self, other: &Settings, slot: ButtonSlot) -> bool {
        let o = match slot {
            ButtonSlot::One => ButtonSlot::Two,
            ButtonSlot::Two => ButtonSlot::One,
        };
        &&& self.link_of(o) == other.link_of(o)
        &&& self.custom_label_of(o) == other.custom_label_of(o)
        &&& self.custom_url == other.custom_url
        &&& self.repository_url == other.repository_url
        &&& self.badge_label == other.badge_label
        &&& self.pause_hide_minutes == other.pause_hide_minutes
        &&& self.language == other.language
    }

    /// A fresh install: song page and repository, five minutes of pause.
    pub fn new() -> (s: Self)
        ensures
            s.link_of(ButtonSlot::One) == LinkType::Song,
            s.link_of(ButtonSlot::Two) == LinkType::Repository,
            s.custom_label_of(ButtonSlot::One) is None,
            s.custom_label_of(ButtonSlot::Two) is None,
            s.custom_url@ == Seq::<char>::empty(),
            s.repository_url@ == DEFAULT_REPOSITORY_URL@,
            s.badge_label == BadgeLabelType::Artist,
            s.pause_hide_minutes == 5,
            s.language == AppLanguage::En,
    {
        Settings {
            button1_type: ButtonSlot::One.default_type(),
            button1_label: None,
            button2_type: ButtonSlot::Two.default_type(),
            button2_label: None,
            custom_url: String::new(),
            repository_url: to_owned_string(DEFAULT_REPOSITORY_URL),
            badge_label: BadgeLabelType::Artist,
            pause_hide_minutes: 5,
            language: AppLanguage::En,
        }
    }

    /// Settings as a file stores them, field for field.
    pub fn from_stored(
        button1_type: LinkType,
        button1_label: Option<String>,
        button2_type: LinkType,
        button2_label: Option<String>,
        custom_url: String,
        repository_url: String,
        badge_label: BadgeLabelType,
        pause_hide_minutes: i32,
        language: AppLanguage,
    ) -> (s: Self)
        ensures
            s.link_of(ButtonSlot::One) == button1_type,
            s.link_of(ButtonSlot::Two) == button2_type,
            s.custom_label_of(ButtonSlot::One) == label_view(button1_label),
            s.custom_label_of(ButtonSlot::Two) == label_view(button2_label),
            s.custom_url == custom_url,
            s.repository_url == repository_url,
            s.badge_label == badge_label,
            s.pause_hide_minutes == pause_hide_minutes,
            s.language == language,
    {
        Settings {
            button1_type,
            button1_label,
            button2_type,
            button2_label,
            custom_url,
            repository_url,
            badge_label,
            pause_hide_minutes,
            language,
        }
    }

    pub fn button_type(&self, slot: ButtonSlot) -> (l: LinkType)
        ensures
            l == self.link_of(slot),
    {
        match slot {
            ButtonSlot::One => self.button1_type,
            ButtonSlot::Two => self.button2_type,
        }
    }

    /// The label as the file stores it: `None` while it follows the type.
    pub fn stored_label(&self, slot: ButtonSlot) -> (r: Option<String>)
        ensures
            label_view(r) == self.custom_label_of(slot),
    {
        let stored = match slot {
            ButtonSlot::One => &self.button1_label,
            ButtonSlot::Two => &self.button2_label,
        };
        match stored {
            Some(label) => Some(label.clone()),
            None => None,
        }
    }

    pub fn button_label(&self, slot: ButtonSlot) -> (r: String)
        ensures
            r@ == self.label_of(slot),
    {
        match self.stored_label(slot) {
            Some(label) => label,
            None => to_owned_string(self.button_type(slot).default_label()),
        }
    }

    /// Changes where the button points. A label that is still the old type's
    /// default is dropped, so an uncustomized label keeps following the
    /// destination; a label the user actually chose survives.
    pub fn set_button_type(&mut self, slot: ButtonSlot, new_value: LinkType)
        ensures
            final(self).link_of(slot) == new_value,
            final(self).custom_label_of(slot) == if old(self).custom_label_of(slot) == Some(
                default_label_of(old(self).link_of(slot)),
            ) {
                None
            } else {
                old(self).custom_label_of(slot)
            },
            final(self).same_except(&*old(self), slot),
    {
        let old_default = self.button_type(slot).default_label();
        let matches_default = match self.stored_label(slot) {
            Some(label) => str_eq(label.as_str(), old_default),
            None => false,
        };
        match slot {
            ButtonSlot::One => {
                if matches_default {
                    self.button1_label = None;
                }
                self.button1_type = new_value;
            },
            ButtonSlot::Two => {
                if matches_default {
                    self.button2_label = None;
                }
                self.button2_type = new_value;
            },
        }
    }

    /// Cuts the label the way the activity builder cuts what it sends; an
    /// empty label, or one equal to the current type's default, is not a
    /// customization and clears it.
    pub fn set_button_label(&mut self, slot: ButtonSlot, new_value: &str)
        ensures
            final(self).link_of(slot) == old(self).link_of(slot),
            ({
                let value = truncated(new_value@, MAX_LABEL_CHARS as nat);
                final(self).custom_label_of(slot) == if value.len() == 0 || value == default_label_of(
                    old(self).link_of(slot),
                ) {
                    None::<Seq<char>>
                } else {
                    Some(value)
                }
            }),
            final(self).same_except(&*old(self), slot),
    {
        let value = truncate(new_value, MAX_LABEL_CHARS);
        let is_default = value.unicode_len() == 0 || str_eq(
            value,
            self.button_type(slot).default_label(),
        );
        let stored = if is_default {
            None
        } else {
            Some(to_owned_string(value))
        };
        match slot {
            ButtonSlot::One => self.button1_label = stored,
            ButtonSlot::Two => self.button2_label = stored,
        }
    }
}

impl Default for Settings {
    fn default() -> (s: Self)
        ensures
            s.link_of(ButtonSlot::One) == LinkType::Song,
            s.link_of(ButtonSlot::Two) == LinkType::Repository,
            s.custom_label_of(ButtonSlot::One) is None,
            s.custom_label_of(ButtonSlot::Two) is None,
            s.custom_url@ == Seq::<char>::empty(),
            s.repository_url@ == DEFAULT_REPOSITORY_URL@,
            s.badge_label == BadgeLabelType::Artist,
            s.pause_hide_minutes == 5,
            s.language == AppLanguage::En,
    {
        Settings::new()
    }
}

/// A label that follows its type keeps following it through a change of
/// type, and a label the user chose survives one.
pub proof fn lemma_label_follows_type_unless_customized(
    before: Settings,
    after: Settings,
    slot: ButtonSlot,
    new_value: LinkType,
)
    requires
        after.link_of(slot) == new_value,
        after.custom_label_of(slot) == if before.custom_label_of(slot) == Some(
            default_label_of(before.link_of(slot)),
        ) {
            None
        } else {
            before.custom_label_of(slot)
        },
    ensures
        before.custom_label_of(slot) is None ==> after.label_of(slot) == default_label_of(new_value),
        before.label_of(slot) == default_label_of(before.link_of(slot)) ==> after.label_of(slot)
            == default_label_of(new_value),
        (before.custom_label_of(slot) is Some && before.label_of(slot) != default_label_of(
            before.link_of(slot),
        )) ==> after.label_of(slot) == before.label_of(slot),
{
}

} // verus!
