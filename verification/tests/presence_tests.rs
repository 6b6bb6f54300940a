//! What Discord is showing, so an unchanged rebuild is not sent again.

use ceyrad::portable::activity_builder::{Activity, Timestamps};
use ceyrad::portable::models::ConnState;
use ceyrad::portable::presence::{send_decision, Presence, SendDecision};

fn activity(details: &str, start: i64) -> Activity {
    Activity {
        activity_type: 2,
        details: details.to_string(),
        state: "Artist".to_string(),
        assets: None,
        status_display_type: 1,
        timestamps: Some(Timestamps { start, end: start + 200_000 }),
        buttons: Vec::new(),
    }
}

#[test]
fn nothing_sent_yet_is_not_the_same_as_having_sent_clear() {
    let mut presence = Presence::default();
    assert!(!presence.would_render_the_same(&None));
    assert!(!presence.would_render_the_same(&Some(activity("Song", 0))));

    presence.note_sent(None);
    assert!(presence.would_render_the_same(&None), "cleared twice");
    assert!(!presence.would_render_the_same(&Some(activity("Song", 0))));
}

#[test]
fn forgetting_makes_the_next_push_go_out_whatever_it_is() {
    let mut presence = Presence::default();
    let current = activity("Song", 0);
    presence.note_sent(Some(current.clone()));
    assert!(presence.would_render_the_same(&Some(current.clone())));

    presence.forget();
    assert!(!presence.would_render_the_same(&Some(current)));
    assert!(!presence.would_render_the_same(&None));
}

#[test]
fn an_unchanged_rebuild_is_recognised_despite_timestamp_drift() {
    let mut presence = Presence::default();
    presence.note_sent(Some(activity("Song", 1_000_000)));
    assert!(presence.would_render_the_same(&Some(activity("Song", 1_000_900))));
    assert!(!presence.would_render_the_same(&Some(activity("Song", 1_030_000))));
    assert!(!presence.would_render_the_same(&Some(activity("Other", 1_000_000))));
}

#[test]
fn only_a_live_connection_with_something_new_sends() {
    let mut presence = Presence::default();
    let current = Some(activity("Song", 0));
    assert_eq!(send_decision(ConnState::Connecting, &presence, &current), SendDecision::NotConnected);
    assert_eq!(send_decision(ConnState::Disconnected, &presence, &current), SendDecision::NotConnected);
    assert_eq!(send_decision(ConnState::Connected, &presence, &current), SendDecision::Send);
    presence.note_sent(current.clone());
    assert_eq!(send_decision(ConnState::Connected, &presence, &current), SendDecision::Unchanged);
}
