//! What a check for updates found, and what the user is told about it.
//!
//! The check itself runs on a thread of the caller's; this decides what its
//! answer means.
use crate::portable::i18n::{pick, t, AppLanguage};
use crate::portable::update_check::{is_newer, version_order, Release};
use crate::strings::{chars_of, chars_start_with, push_str, starts_with, to_owned_string};
use vstd::prelude::*;

verus! {

#[derive(Debug, Clone, PartialEq, Eq)]
pub enum Outcome {
    Available(Release),
    UpToDate,
    Failed,
}

/// What a usable answer means against the running version: a newer release
/// is available, anything else is up to date; no usable release is a
/// failed check.
pub fn outcome_of(release: Option<Release>, current_version: &str) -> (r: Outcome)
    ensures
        match release {
            Some(rel) => if version_order(rel.version@, current_version@) > 0 {
                r == Outcome::Available(rel)
            } else {
                r == Outcome::UpToDate
            },
            None => r == Outcome::Failed,
        },
{
    match release {
        Some(release) => {
            if is_newer(release.version.as_str(), current_version) {
                Outcome::Available(release)
            } else {
                Outcome::UpToDate
            }
        },
        None => Outcome::Failed,
    }
}

/// Only an https page is ever handed to the shell.
pub open spec fn may_open(url: Seq<char>) -> bool {
    starts_with(url, "https://"@)
}

pub fn is_openable(url: &str) -> (r: bool)
    ensures
        r == may_open(url@),
{
    let chars = chars_of(url);
    let prefix = chars_of("https://");
    chars_start_with(chars.as_slice(), prefix.as_slice())
}

/// What becomes of the release on offer.
#[derive(Debug, Clone, PartialEq, Eq)]
pub enum Offer {
    /// Offer this release from now on.
    Show(Release),
    /// Stop offering: this build is the newest after all, so it was replaced
    /// while running.
    Clear,
    /// Leave the offer as it is.
    Keep,
}

/// What to do with a check's answer. Every outcome is logged by the caller;
/// a dialog is only shown when the user asked, since a scheduled check that
/// finds nothing, or cannot reach GitHub, has no business interrupting anyone.
pub struct UpdateReport {
    pub offer: Offer,
    /// Title and message of the dialog to show.
    pub dialog: Option<(String, String)>,
}

pub open spec fn up_to_date_message(lang: AppLanguage, current_version: Seq<char>) -> Seq<char> {
    pick(
        lang,
        "Ceyrad "@ + current_version + " is the latest version."@,
        "Ceyrad "@ + current_version + " は最新バージョンです。"@,
    )
}

pub open spec fn failed_message(lang: AppLanguage) -> Seq<char> {
    pick(lang, "Could not reach GitHub to check for updates."@, "GitHubに接続できず、アップデートを確認できませんでした。"@)
}

/// Whether `dialog` is the one titled `title` saying `message`.
pub open spec fn shows_dialog(dialog: Option<(String, String)>, title: Seq<char>, message: Seq<char>) -> bool {
    match dialog {
        Some(d) => d.0@ == title && d.1@ == message,
        None => false,
    }
}

pub open spec fn dialog_title(lang: AppLanguage) -> Seq<char> {
    pick(lang, "Check for Updates"@, "アップデートを確認"@)
}

pub fn report(outcome: Outcome, asked: bool, language: AppLanguage, current_version: &str) -> (r: UpdateReport)
    ensures
        match outcome {
            Outcome::Available(release) => r.offer == Offer::Show(release) && r.dialog is None,
            Outcome::UpToDate => {
                &&& r.offer == Offer::Clear
                &&& asked ==> shows_dialog(r.dialog, dialog_title(language), up_to_date_message(language, current_version@))
                &&& !asked ==> r.dialog is None
            },
            Outcome::Failed => {
                &&& r.offer == Offer::Keep
                &&& asked ==> shows_dialog(r.dialog, dialog_title(language), failed_message(language))
                &&& !asked ==> r.dialog is None
            },
        },
{
    match outcome {
        Outcome::Available(release) => UpdateReport { offer: Offer::Show(release), dialog: None },
        Outcome::UpToDate => {
            let dialog = if asked {
                let mut en = to_owned_string("Ceyrad ");
                push_str(&mut en, current_version);
                push_str(&mut en, " is the latest version.");
                let mut ja = to_owned_string("Ceyrad ");
                push_str(&mut ja, current_version);
                push_str(&mut ja, " は最新バージョンです。");
                Some((t(language, "Check for Updates", "アップデートを確認"), t(language, en.as_str(), ja.as_str())))
            } else {
                None
            };
            UpdateReport { offer: Offer::Clear, dialog }
        },
        Outcome::Failed => {
            let dialog = if asked {
                Some(
                    (
                        t(language, "Check for Updates", "アップデートを確認"),
                        t(
                            language,
                            "Could not reach GitHub to check for updates.",
                            "GitHubに接続できず、アップデートを確認できませんでした。",
                        ),
                    ),
                )
            } else {
                None
            };
            UpdateReport { offer: Offer::Keep, dialog }
        },
    }
}

} // verus!
