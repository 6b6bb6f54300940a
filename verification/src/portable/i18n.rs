//! The menu's two languages. Discord-facing text is always English.
use crate::strings::to_owned_string;
use vstd::prelude::*;

verus! {

/// Display language of the menu.
#[derive(Debug, Clone, Copy, PartialEq, Eq, Structural)]
pub enum AppLanguage {
    En,
    Ja,
}

impl AppLanguage {
    pub const ALL: [AppLanguage; 2] = [AppLanguage::En, AppLanguage::Ja];

    /// Each language named in itself, so someone who cannot read the current
    /// one can still find their own.
    pub fn display_name(self) -> (r: &'static str)
        ensures
            r@ == match self {
                AppLanguage::En => "English"@,
                AppLanguage::Ja => "日本語"@,
            },
    {
        match self {
            AppLanguage::En => "English",
            AppLanguage::Ja => "日本語",
        }
    }
}

impl Default for AppLanguage {
    fn default() -> (l: Self)
        ensures
            l == AppLanguage::En,
    {
        AppLanguage::En
    }
}

/// Which of the two texts a language shows.
pub open spec fn pick(lang: AppLanguage, en: Seq<char>, ja: Seq<char>) -> Seq<char> {
    match lang {
        AppLanguage::En => en,
        AppLanguage::Ja => ja,
    }
}

/// Picks the menu string for the current language.
pub fn t(lang: AppLanguage, en: &str, ja: &str) -> (r: String)
    ensures
        r@ == pick(lang, en@, ja@),
{
    match lang {
        AppLanguage::En => to_owned_string(en),
        AppLanguage::Ja => to_owned_string(ja),
    }
}

} // verus!
