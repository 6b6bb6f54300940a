//! Asking for a URL until it is one, with the answers scripted and the
//! dialog loop driven the way the app drives it.

use ceyrad::portable::url_prompt::{next_step, PromptStep};

/// Feeds scripted answers through the prompt loop. Returns the result, how
/// many times the error was shown, and the text each prompt was opened with.
fn run(answers: &[Option<&str>], initial: &str, allow_empty: bool) -> (Option<String>, u32, Vec<String>) {
    let mut current = initial.to_string();
    let mut errors = 0;
    let mut offered = Vec::new();
    for answer in answers {
        offered.push(current.clone());
        match next_step(*answer, allow_empty) {
            PromptStep::Accept(value) => return (Some(value), errors, offered),
            PromptStep::Retry(text) => {
                errors += 1;
                current = text;
            }
            PromptStep::Cancel => return (None, errors, offered),
        }
    }
    panic!("the script ran out of answers");
}

#[test]
fn a_valid_url_is_accepted_first_time() {
    let (result, errors, _) = run(&[Some("https://example.com")], "", false);
    assert_eq!(result.as_deref(), Some("https://example.com"));
    assert_eq!(errors, 0);
}

#[test]
fn an_invalid_url_is_reported_and_asked_again() {
    let (result, errors, _) = run(&[Some("nonsense"), Some("https://example.com")], "", false);
    assert_eq!(result.as_deref(), Some("https://example.com"));
    assert_eq!(errors, 1, "the user should have been told once");
}

#[test]
fn the_rejected_text_is_offered_back_for_editing() {
    let (_, _, offered) = run(&[Some("htp://typo.example"), Some("http://typo.example")], "", false);
    assert_eq!(offered.last().map(String::as_str), Some("htp://typo.example"));
}

#[test]
fn cancelling_changes_nothing() {
    let (result, errors, _) = run(&[None], "https://example.com", false);
    assert_eq!(result, None);
    assert_eq!(errors, 0);
}

#[test]
fn cancelling_after_an_error_still_changes_nothing() {
    let (result, errors, _) = run(&[Some("nope"), None], "", false);
    assert_eq!(result, None);
    assert_eq!(errors, 1);
}

#[test]
fn blank_clears_the_setting_only_where_that_makes_sense() {
    let (result, errors, _) = run(&[Some("")], "https://old.example", true);
    assert_eq!(result.as_deref(), Some(""));
    assert_eq!(errors, 0);

    let (result, errors, _) = run(&[Some(""), Some("https://example.com")], "", false);
    assert_eq!(result.as_deref(), Some("https://example.com"));
    assert_eq!(errors, 1);
}

#[test]
fn a_non_http_scheme_is_refused() {
    let (result, errors, _) = run(&[Some("file:///c:/secret"), None], "", false);
    assert_eq!(result, None);
    assert_eq!(errors, 1);
}

#[test]
fn one_step_answers_each_kind_of_reply() {
    assert_eq!(next_step(None, true), PromptStep::Cancel);
    assert_eq!(next_step(Some("HTTPS://A.example"), false), PromptStep::Accept("HTTPS://A.example".into()));
    assert_eq!(next_step(Some("has space.example"), true), PromptStep::Retry("has space.example".into()));
}
