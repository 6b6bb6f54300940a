//! What Discord is currently showing, so an unchanged rebuild is not re-sent.
//!
//! "Nothing sent over this connection" and "sent the instruction to clear"
//! are different states, and conflating them is the bug this type exists to
//! make impossible.
use crate::portable::activity_builder::{equivalent, is_equivalent, Activity, ActivityView};
use crate::portable::models::ConnState;
use vstd::prelude::*;

verus! {

pub open spec fn activity_opt_view(a: Option<Activity>) -> Option<ActivityView> {
    match a {
        Some(x) => Some(x@),
        None => None,
    }
}

/// Whether Discord, last sent `previous`, would render `next` the same.
pub open spec fn renders_the_same(previous: Option<Option<ActivityView>>, next: Option<ActivityView>) -> bool {
    match previous {
        None => false,
        Some(None) => next is None,
        Some(Some(p)) => match next {
            Some(n) => equivalent(p, n),
            None => false,
        },
    }
}

#[derive(Debug)]
pub struct Presence {
    last_sent: Option<Option<Activity>>,
}

impl Presence {
    /// What went out last over this connection: `None` when nothing has.
    pub closed spec fn sent(&self) -> Option<Option<ActivityView>> {
        match self.last_sent {
            Some(a) => Some(activity_opt_view(a)),
            None => None,
        }
    }

    pub fn new() -> (p: Self)
        ensures
            p.sent() is None,
    {
        Presence { last_sent: None }
    }

    /// Nothing is on screen any more, or nothing is known to be. Anything sent
    /// next counts as a change.
    pub fn forget(&mut self)
        ensures
            final(self).sent() is None,
    {
        self.last_sent = None;
    }

    /// Whether Discord would render exactly what it is already showing.
    pub fn would_render_the_same(&self, activity: &Option<Activity>) -> (r: bool)
        ensures
            r == renders_the_same(self.sent(), activity_opt_view(*activity)),
    {
        match &self.last_sent {
            None => false,
            Some(previous) => match (previous, activity) {
                (None, None) => true,
                (Some(p), Some(a)) => is_equivalent(p, a),
                _ => false,
            },
        }
    }

    /// Records what actually went out. Only ever called after a successful
    /// send: a push that failed must not suppress the next one.
    pub fn note_sent(&mut self, activity: Option<Activity>)
        ensures
            final(self).sent() == Some(activity_opt_view(activity)),
    {
        self.last_sent = Some(activity);
    }
}

impl Default for Presence {
    fn default() -> (p: Self)
        ensures
            p.sent() is None,
    {
        Presence::new()
    }
}

/// What was just sent renders the same when sent again, a clear included;
/// after forgetting, nothing does — not even a repeat, and not a clear; and a
/// clear and an activity never stand in for each other.
pub proof fn lemma_sent_is_the_same_until_forgotten(a: Option<ActivityView>, shown: ActivityView)
    ensures
        renders_the_same(Some(a), a),
        !renders_the_same(None, a),
        !renders_the_same(Some(None), Some(shown)),
        !renders_the_same(Some(Some(shown)), None),
{
}

/// Whether an activity goes out.
#[derive(Debug, Clone, Copy, PartialEq, Eq, Structural)]
pub enum SendDecision {
    /// No connection past its READY to send it over. Dropping it is safe:
    /// READY pushes a freshly built presence, which is more current.
    NotConnected,
    /// Discord would render exactly what it is already showing.
    Unchanged,
    Send,
}

/// Sends unless there is no live connection or Discord would render the same
/// thing. Only a send that went out is recorded, with `note_sent`.
pub fn send_decision(conn: ConnState, presence: &Presence, activity: &Option<Activity>) -> (r: SendDecision)
    ensures
        conn != ConnState::Connected ==> r == SendDecision::NotConnected,
        conn == ConnState::Connected && renders_the_same(presence.sent(), activity_opt_view(*activity)) ==> r
            == SendDecision::Unchanged,
        conn == ConnState::Connected && !renders_the_same(presence.sent(), activity_opt_view(*activity)) ==> r
            == SendDecision::Send,
{
    if conn != ConnState::Connected {
        SendDecision::NotConnected
    } else if presence.would_render_the_same(activity) {
        SendDecision::Unchanged
    } else {
        SendDecision::Send
    }
}

} // verus!
