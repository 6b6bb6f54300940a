//! Asking for a URL until it is one.
//!
//! Re-asking with the text still in the box is kinder than giving up, and
//! costs nothing. The dialog is the caller's; this decides, after each
//! answer, whether to take it, to report it and ask again, or to stop.
use crate::portable::activity_builder::{is_valid_button_url, valid_button_url};
use crate::strings::to_owned_string;
use vstd::prelude::*;

verus! {

/// What to do with one answer from the prompt.
#[derive(Debug, Clone, PartialEq, Eq)]
pub enum PromptStep {
    /// The answer is usable; this is the new value.
    Accept(String),
    /// Report the answer as unusable, then ask again with it pre-filled: a
    /// typo is easier to fix than to retype.
    Retry(String),
    /// The user cancelled; nothing changes.
    Cancel,
}

/// Whether an answer is taken: a valid button URL, or a blank one where blank
/// means clearing the setting.
pub open spec fn accepted(entered: Seq<char>, allow_empty: bool) -> bool {
    (entered.len() == 0 && allow_empty) || valid_button_url(entered)
}

/// `allow_empty` distinguishes the custom URL, which a blank answer clears,
/// from the repository URL, which has no sensible blank state.
pub fn next_step(entered: Option<&str>, allow_empty: bool) -> (r: PromptStep)
    ensures
        match entered {
            None => r == PromptStep::Cancel,
            Some(text) => if accepted(text@, allow_empty) {
                r matches PromptStep::Accept(v) && v@ == text@
            } else {
                r matches PromptStep::Retry(v) && v@ == text@
            },
        },
{
    match entered {
        None => PromptStep::Cancel,
        Some(text) => {
            if (text.unicode_len() == 0 && allow_empty) || is_valid_button_url(text) {
                PromptStep::Accept(to_owned_string(text))
            } else {
                PromptStep::Retry(to_owned_string(text))
            }
        },
    }
}

} // verus!
