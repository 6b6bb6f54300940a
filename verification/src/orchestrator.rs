//! The decisions of the event loop: SMTC in, Discord Rich Presence out.
//!
//! The loop itself (waiting, the pipe, the lookup thread, the tray) lives
//! with the caller. Every pass hands what happened to a `Conductor`, which
//! updates what is known, arms and cancels deadlines, and answers with what
//! the caller has to do next.
use crate::catalog::{Outcome, Request, Resolved};
use crate::portable::activity_builder::{build, built, Activity, ActivityView};
use crate::portable::backoff::{delay_for, Backoff};
use crate::portable::debouncer::Debouncer;
use crate::portable::menu_model::{ButtonSlot, MenuAction};
use crate::portable::models::{CatalogInfo, ConnState, MusicState, PlayerState, TrackInfo};
use crate::portable::presence::{activity_opt_view, Presence};
use crate::portable::settings_model::Settings;
use crate::portable::source_selector::MusicSourceId;
use crate::portable::timers::{timer_index, Timer, Timers};
use crate::portable::track_change::{jumped, position_jumped, same_identity, same_track};

use vstd::prelude::*;

verus! {

/// Collapses a burst of player events into one send.
pub const DEBOUNCE_MS: u64 = 800;
/// Ceiling on how long that coalescing may postpone a send.
pub const MAX_DEBOUNCE_MS: u64 = 2_000;
/// How long Discord gets to answer a handshake with READY.
pub const HANDSHAKE_TIMEOUT_MS: u64 = 10_000;
/// How long to leave a failed catalog lookup alone before asking again.
pub const CATALOG_RETRY_DELAY_MS: u64 = 15_000;
/// How long after launch to ask about updates, so the check never competes
/// with getting a presence on screen.
pub const FIRST_UPDATE_CHECK_DELAY_MS: u64 = 30_000;
/// A day between scheduled update checks.
pub const UPDATE_CHECK_INTERVAL_MS: u64 = 86_400_000;
/// The latest clock reading the deadlines are computed from; far past any
/// real clock, and what keeps every sum of a reading and a delay in range.
pub const MAX_NOW_MS: u64 = 0x3FFF_FFFF_FFFF_FFFF;

/// The player's session as SMTC reports it on one pass.
pub struct SessionReading {
    pub player_state: PlayerState,
    pub track: Option<TrackInfo>,
}

/// What the event loop knows and decides, short of the I/O.
pub struct Conductor {
    pub music: MusicState,
    /// Whether anything is currently on Discord.
    pub displaying: bool,
    /// Whether a paused presence has been hidden for having paused too long.
    pub paused_timed_out: bool,
    /// Whether anything the status rows are made of has moved since they were
    /// last reported. Allowed to be set when nothing did; never clear when
    /// something has.
    pub status_dirty: bool,
    pub timers: Timers,
    pub debouncer: Debouncer,
    /// The presence waiting for the debounce to fire: `Some(None)` clears it.
    pub pending_activity: Option<Option<Activity>>,
    /// How long to wait before reconnecting to Discord.
    pub backoff: Backoff,
}

pub open spec fn pending_view(p: Option<Option<Activity>>) -> Option<Option<ActivityView>> {
    match p {
        Some(a) => Some(activity_opt_view(a)),
        None => None,
    }
}

/// Whether a presence in this player state is shown at all: always while
/// playing, never when stopped, and while paused unless the pause setting
/// hides it at once or the pause has already outlasted it.
pub open spec fn shows(state: PlayerState, pause_hide_minutes: i32, paused_timed_out: bool) -> bool {
    match state {
        PlayerState::Playing => true,
        PlayerState::Paused => pause_hide_minutes != 0 && !paused_timed_out,
        PlayerState::Stopped => false,
    }
}

/// A paused presence is hidden at once only by the setting 0 and, under any
/// other setting, only once its pause has timed out: the keep-showing
/// setting -1 shows it, and never starts a clock that could time it out. A
/// playing presence always shows, a stopped one never does.
pub proof fn lemma_only_zero_hides_a_pause_at_once(pause_hide_minutes: i32, timed_out: bool, now: u64)
    ensures
        shows(PlayerState::Paused, pause_hide_minutes, false) <==> pause_hide_minutes != 0,
        !shows(PlayerState::Paused, pause_hide_minutes, true),
        shows(PlayerState::Paused, -1i32, false),
        shows(PlayerState::Playing, pause_hide_minutes, timed_out),
        !shows(PlayerState::Stopped, pause_hide_minutes, timed_out),
        pause_clock(true, PlayerState::Paused, None, false, -1i32, now) == (None::<u64>, false),
{
}

pub fn should_show_activity(state: PlayerState, pause_hide_minutes: i32, paused_timed_out: bool) -> (r: bool)
    ensures
        r == shows(state, pause_hide_minutes, paused_timed_out),
{
    match state {
        PlayerState::Playing => true,
        PlayerState::Paused => pause_hide_minutes != 0 && !paused_timed_out,
        PlayerState::Stopped => false,
    }
}

pub open spec fn opt_catalog(c: Option<CatalogInfo>) -> Option<CatalogInfo> {
    c
}

/// The pause clock brought up to date: the PauseHide deadline and whether
/// the pause has timed out. It runs only while a displayed presence is
/// paused; a clock already counting, or already run out, is left alone; a
/// setting of 0 (hide at once) or -1 (never hide) needs no clock.
pub open spec fn pause_clock(
    displaying: bool,
    state: PlayerState,
    armed: Option<u64>,
    timed_out: bool,
    pause_hide_minutes: i32,
    now: u64,
) -> (Option<u64>, bool) {
    if !displaying || state != PlayerState::Paused {
        (None, false)
    } else if armed is Some || timed_out || pause_hide_minutes <= 0 {
        (armed, timed_out)
    } else {
        (Some((now + pause_hide_minutes * 60_000) as u64), timed_out)
    }
}

impl Conductor {
    pub open spec fn wf(&self) -> bool {
        &&& self.timers.wf()
        &&& self.debouncer.spec_delay() == DEBOUNCE_MS
        &&& self.debouncer.spec_max_delay() == MAX_DEBOUNCE_MS
    }

    /// What would be sent now: nothing unless something is displaying, there
    /// is a track, and its player state is shown.
    pub open spec fn activity_now(&self, settings: Settings, now: u64) -> Option<ActivityView> {
        if !self.displaying {
            None
        } else {
            match self.music.track {
                None => None,
                Some(track) => if shows(self.music.player_state, settings.pause_hide_minutes, self.paused_timed_out) {
                    Some(built(track, self.music.player_state, self.music.catalog, settings, now))
                } else {
                    None
                },
            }
        }
    }

    /// Nothing known, nothing showing, and the first update check armed.
    pub fn new(now: u64) -> (c: Self)
        requires
            now <= MAX_NOW_MS,
        ensures
            c.wf(),
            !c.music.running,
            c.music.track is None,
            !c.displaying,
            !c.paused_timed_out,
            c.status_dirty,
            c.pending_activity is None,
            c.debouncer.spec_deadline() is None,
            forall|t: Timer| t != Timer::UpdateCheck ==> c.timers.deadline_of(t) is None,
            c.timers.deadline_of(Timer::UpdateCheck) == Some((now + FIRST_UPDATE_CHECK_DELAY_MS) as u64),
    {
        let mut timers = Timers::new();
        timers.arm_at(Timer::UpdateCheck, now + FIRST_UPDATE_CHECK_DELAY_MS);
        Conductor {
            music: MusicState::new(),
            displaying: false,
            paused_timed_out: false,
            status_dirty: true,
            timers,
            debouncer: Debouncer::new(DEBOUNCE_MS, MAX_DEBOUNCE_MS),
            pending_activity: None,
            backoff: Backoff::new(),
        }
    }

    fn build_activity(&self, settings: &Settings, now: u64) -> (r: Option<Activity>)
        ensures
            activity_opt_view(r) == self.activity_now(*settings, now),
    {
        if !self.displaying {
            return None;
        }
        match &self.music.track {
            None => None,
            Some(track) => {
                if !should_show_activity(self.music.player_state, settings.pause_hide_minutes, self.paused_timed_out) {
                    return None;
                }
                let catalog = match &self.music.catalog {
                    Some(c) => Some(c),
                    None => None,
                };
                Some(build(track, self.music.player_state, catalog, settings, now))
            },
        }
    }

    /// Builds what should be on Discord now and holds it for the debounce;
    /// nothing while no player runs.
    pub fn push_activity(&mut self, settings: &Settings, now: u64)
        requires
            old(self).wf(),
            now <= MAX_NOW_MS,
        ensures
            final(self).wf(),
            final(self).backoff == old(self).backoff,
            final(self).music == old(self).music,
            final(self).displaying == old(self).displaying,
            final(self).paused_timed_out == old(self).paused_timed_out,
            final(self).status_dirty == old(self).status_dirty,
            final(self).timers == old(self).timers,
            !old(self).music.running ==> final(self).pending_activity == old(self).pending_activity
                && final(self).debouncer == old(self).debouncer,
            old(self).music.running ==> {
                &&& pending_view(final(self).pending_activity) == Some(old(self).activity_now(*settings, now))
                &&& final(self).debouncer.spec_deadline() is Some
            },
    {
        if !self.music.running {
            return;
        }
        self.pending_activity = Some(self.build_activity(settings, now));
        self.debouncer.schedule(now);
    }

    /// Drops whatever was waiting to be sent.
    pub fn cancel_debounce(&mut self)
        requires
            old(self).wf(),
        ensures
            final(self).wf(),
            final(self).backoff == old(self).backoff,
            final(self).music == old(self).music,
            final(self).displaying == old(self).displaying,
            final(self).paused_timed_out == old(self).paused_timed_out,
            final(self).status_dirty == old(self).status_dirty,
            final(self).timers == old(self).timers,
            final(self).pending_activity is None,
            final(self).debouncer.spec_deadline() is None,
    {
        self.debouncer.cancel();
        self.pending_activity = None;
    }

    /// The presence the debounce was holding, handed over to be sent.
    pub fn take_pending(&mut self) -> (r: Option<Option<Activity>>)
        ensures
            pending_view(r) == pending_view(old(self).pending_activity),
            final(self).pending_activity is None,
            final(self).backoff == old(self).backoff,
            final(self).music == old(self).music,
            final(self).displaying == old(self).displaying,
            final(self).paused_timed_out == old(self).paused_timed_out,
            final(self).status_dirty == old(self).status_dirty,
            final(self).timers == old(self).timers,
            final(self).debouncer == old(self).debouncer,
    {
        self.pending_activity.take()
    }

    /// Stops the pause clock, and forgets that a pause ever timed out.
    pub fn cancel_pause_timer(&mut self)
        requires
            old(self).wf(),
        ensures
            final(self).wf(),
            final(self).backoff == old(self).backoff,
            final(self).timers.slots() == old(self).timers.slots().update(timer_index(Timer::PauseHide), None),
            !final(self).paused_timed_out,
            final(self).music == old(self).music,
            final(self).displaying == old(self).displaying,
            final(self).status_dirty == old(self).status_dirty,
            final(self).debouncer == old(self).debouncer,
            final(self).pending_activity == old(self).pending_activity,
    {
        self.timers.cancel(Timer::PauseHide);
        self.paused_timed_out = false;
    }

    /// Starts the pause clock when a displayed presence is paused and the
    /// setting hides it after some minutes; stops it otherwise. A clock
    /// already counting, or already run out, is left alone.
    pub fn update_pause_timer(&mut self, pause_hide_minutes: i32, now: u64)
        requires
            old(self).wf(),
            now <= MAX_NOW_MS,
        ensures
            final(self).wf(),
            final(self).backoff == old(self).backoff,
            final(self).music == old(self).music,
            final(self).displaying == old(self).displaying,
            final(self).status_dirty == old(self).status_dirty,
            final(self).debouncer == old(self).debouncer,
            final(self).pending_activity == old(self).pending_activity,
            !old(self).displaying || old(self).music.player_state != PlayerState::Paused ==> {
                &&& final(self).timers.slots() == old(self).timers.slots().update(timer_index(Timer::PauseHide), None)
                &&& !final(self).paused_timed_out
            },
            old(self).displaying && old(self).music.player_state == PlayerState::Paused ==> {
                &&& final(self).paused_timed_out == old(self).paused_timed_out
                &&& if old(self).timers.deadline_of(Timer::PauseHide) is Some || old(self).paused_timed_out
                    || pause_hide_minutes <= 0 {
                    final(self).timers == old(self).timers
                } else {
                    final(self).timers.slots() == old(self).timers.slots().update(
                        timer_index(Timer::PauseHide),
                        Some((now + pause_hide_minutes * 60_000) as u64),
                    )
                }
            },
            ({
                let clock = pause_clock(
                    old(self).displaying,
                    old(self).music.player_state,
                    old(self).timers.deadline_of(Timer::PauseHide),
                    old(self).paused_timed_out,
                    pause_hide_minutes,
                    now,
                );
                &&& final(self).timers.deadline_of(Timer::PauseHide) == clock.0
                &&& final(self).paused_timed_out == clock.1
            }),
            forall|t: Timer| t != Timer::PauseHide ==> #[trigger] final(self).timers.deadline_of(t)
                == old(self).timers.deadline_of(t),
    {
        if !self.displaying || self.music.player_state != PlayerState::Paused {
            self.cancel_pause_timer();
            return;
        }
        if self.timers.is_armed(Timer::PauseHide) || self.paused_timed_out {
            return;
        }
        // 0 hides immediately and -1 never hides; neither needs a timer.
        if pause_hide_minutes > 0 {
            let minutes = pause_hide_minutes as u64;
            self.timers.arm_at(Timer::PauseHide, now + minutes * 60_000);
        }
    }

    /// Asks for the artwork and links of the track playing, unless they are
    /// known, a failed lookup is still cooling off, there is no titled track,
    /// or this very track has already been asked about.
    pub fn request_missing_catalog(&mut self, now: u64) -> (r: Option<Request>)
        requires
            old(self).wf(),
        ensures
            final(self).wf(),
            final(self).backoff == old(self).backoff,
            final(self).displaying == old(self).displaying,
            final(self).paused_timed_out == old(self).paused_timed_out,
            final(self).status_dirty == old(self).status_dirty,
            final(self).debouncer == old(self).debouncer,
            final(self).pending_activity == old(self).pending_activity,
            final(self).music.running == old(self).music.running,
            final(self).music.player_state == old(self).music.player_state,
            final(self).music.track == old(self).music.track,
            final(self).music.catalog == old(self).music.catalog,
            wants_catalog(old(self).music, now) ==> {
                let track = old(self).music.track->0;
                &&& r matches Some(request) && request.source == MusicSourceId::AppleMusic
                    && request.key@ == track.identity_view() && request.name@ == track.name@
                    && request.artist@ == track.artist@ && request.album@ == track.album@
                &&& final(self).music.catalog_requested_for matches Some(k) && k@ == track.identity_view()
                &&& final(self).music.catalog_retry_at is None
                &&& final(self).timers.slots() == old(self).timers.slots().update(
                    timer_index(Timer::CatalogRetry),
                    None,
                )
            },
            !wants_catalog(old(self).music, now) ==> {
                &&& r is None
                &&& final(self).music == old(self).music
                &&& final(self).timers == old(self).timers
            },
    {
        if !self.music.running || self.music.catalog.is_some() {
            return None;
        }
        match self.music.catalog_retry_at {
            Some(at) => {
                if at > now {
                    return None;
                }
            },
            None => {},
        }
        let request = match &self.music.track {
            None => return None,
            Some(track) => {
                if track.name.as_str().unicode_len() == 0 {
                    return None;
                }
                let already = match &self.music.catalog_requested_for {
                    Some(requested) => track.matches_identity(requested.as_str()),
                    None => false,
                };
                if already {
                    return None;
                }
                let identity = track.identity();
                Request {
                    source: MusicSourceId::AppleMusic,
                    key: identity,
                    name: track.name.clone(),
                    artist: track.artist.clone(),
                    album: track.album.clone(),
                }
            },
        };
        self.music.catalog_requested_for = Some(request.key.clone());
        self.music.catalog_retry_at = None;
        self.timers.cancel(Timer::CatalogRetry);
        Some(request)
    }
}

/// Whether the track playing should be looked up now.
pub open spec fn wants_catalog(music: MusicState, now: u64) -> bool {
    &&& music.running
    &&& music.catalog is None
    &&& !(music.catalog_retry_at matches Some(at) && at > now)
    &&& music.track matches Some(track) && track.name@.len() > 0 && !(music.catalog_requested_for matches Some(
        k,
    ) && k@ == track.identity_view())
}

/// A lookup that failed for the titled track playing, with nothing found
/// for it, is asked again once its retry falls due: the failure clears the
/// guard against asking twice (`apply_resolved`), and the retry clears the
/// cooling-off (`fire_due_timers`), after which the track wants its catalog
/// whenever the retry runs.
pub proof fn lemma_a_failed_lookup_is_asked_again(m: MusicState, retry_at: u64, now: u64)
    requires
        m.running,
        m.catalog is None,
        m.track matches Some(t) && t.name@.len() > 0,
    ensures
        wants_catalog(
            MusicState {
                catalog_retry_at: None,
                ..MusicState { catalog_requested_for: None, catalog_retry_at: Some(retry_at), ..m }
            },
            now,
        ),
{
}

/// What a pass of SMTC told about the player, against what was known.
pub struct Observation {
    /// Anything that moves a row or the presence: the player appearing, its
    /// state, the track, or a seek.
    pub changed: bool,
    /// Another track than before.
    pub track_changed: bool,
    /// The player was not running before.
    pub appeared: bool,
    /// The player was running and is gone.
    pub gone: bool,
}

/// The track after a reading of the same track: what was held, with the
/// reading's playback position and timing.
pub open spec fn adopted(held: TrackInfo, incoming: TrackInfo) -> TrackInfo {
    TrackInfo {
        duration_ms: incoming.duration_ms,
        position_ms: incoming.position_ms,
        position_sampled_at_ms: incoming.position_sampled_at_ms,
        ..held
    }
}

/// What is known of the player after a reading. The same track keeps what
/// was known of it; another track starts over with nothing known of its
/// catalog; no session at all is nothing known.
pub open spec fn observed_music(old: MusicState, session: Option<SessionReading>) -> MusicState {
    match session {
        None => MusicState {
            running: false,
            player_state: PlayerState::Stopped,
            track: None,
            catalog: None,
            catalog_requested_for: None,
            catalog_retry_at: None,
        },
        Some(s) => if same_track(old.track, s.track) {
            MusicState {
                running: true,
                player_state: s.player_state,
                track: match (old.track, s.track) {
                    (Some(held), Some(incoming)) => Some(adopted(held, incoming)),
                    _ => old.track,
                },
                ..old
            }
        } else {
            MusicState {
                running: true,
                player_state: s.player_state,
                track: s.track,
                catalog: None,
                catalog_requested_for: None,
                catalog_retry_at: None,
            }
        },
    }
}

/// Whether a reading changes anything worth reacting to.
pub open spec fn reading_changes(old: MusicState, session: Option<SessionReading>) -> bool {
    match session {
        None => old.running,
        Some(s) => !old.running || old.player_state != s.player_state || !same_track(old.track, s.track)
            || jumped(old.track, s.track),
    }
}

impl Conductor {
    /// Takes in one reading of the player. SMTC re-reports a playing session
    /// several times a second, so whether anything happened is decided from
    /// the values.
    pub fn observe(&mut self, session: Option<SessionReading>) -> (r: Observation)
        requires
            old(self).wf(),
        ensures
            final(self).wf(),
            final(self).backoff == old(self).backoff,
            final(self).music == observed_music(old(self).music, session),
            r.changed == reading_changes(old(self).music, session),
            r.track_changed == (session matches Some(s) && !same_track(old(self).music.track, s.track)),
            r.appeared == (session is Some && !old(self).music.running),
            r.gone == (session is None && old(self).music.running),
            final(self).status_dirty == (old(self).status_dirty || r.changed),
            session is None || !same_track(old(self).music.track, session->0.track) ==> final(self).timers.slots()
                == old(self).timers.slots().update(timer_index(Timer::CatalogRetry), None),
            session is Some && same_track(old(self).music.track, session->0.track) ==> final(self).timers
                == old(self).timers,
            final(self).displaying == old(self).displaying,
            final(self).paused_timed_out == old(self).paused_timed_out,
            final(self).debouncer == old(self).debouncer,
            final(self).pending_activity == old(self).pending_activity,
    {
        match session {
            Some(session) => {
                let same = same_identity(self.music.track.as_ref(), session.track.as_ref());
                let seeked = position_jumped(self.music.track.as_ref(), session.track.as_ref());
                let appeared = !self.music.running;
                let changed = appeared || self.music.player_state != session.player_state || !same || seeked;
                self.music.running = true;
                self.music.player_state = session.player_state;
                let track_changed = !same;
                if same {
                    // The same track, a moment later: only the position moved.
                    let ghost held = self.music.track;
                    match (&mut self.music.track, &session.track) {
                        (Some(held), Some(incoming)) => held.adopt_playback_from(incoming),
                        _ => {},
                    }
                    proof {
                        match (held, session.track) {
                            (Some(h), Some(i)) => {
                                assert(self.music.track == Some(adopted(h, i)));
                            },
                            _ => {},
                        }
                    }
                } else {
                    self.music.track = session.track;
                    self.music.clear_catalog();
                    self.timers.cancel(Timer::CatalogRetry);
                }
                self.status_dirty = self.status_dirty || changed;
                Observation { changed, track_changed, appeared, gone: false }
            },
            None => {
                let gone = self.music.running;
                self.music = MusicState::new();
                self.timers.cancel(Timer::CatalogRetry);
                self.status_dirty = self.status_dirty || gone;
                Observation { changed: gone, track_changed: false, appeared: false, gone }
            },
        }
    }
}

/// What the caller has to do after a reading.
pub struct SnapshotActions {
    pub observation: Observation,
    /// A catalog lookup to post.
    pub request: Option<Request>,
    /// No player is left: drop the Discord connection, clearing what it shows.
    pub dormant: bool,
}

impl Conductor {
    /// Starts or stops showing something on Discord.
    pub fn set_displaying(&mut self, displaying: bool, settings: &Settings, now: u64)
        requires
            old(self).wf(),
            now <= MAX_NOW_MS,
        ensures
            final(self).wf(),
            final(self).backoff == old(self).backoff,
            final(self).music == old(self).music,
            final(self).displaying == displaying,
            final(self).status_dirty,
            !final(self).paused_timed_out,
            old(self).music.running ==> pending_view(final(self).pending_activity) == Some(
                final(self).activity_now(*settings, now),
            ) && final(self).debouncer.spec_deadline() is Some,
            !old(self).music.running ==> final(self).pending_activity is None
                && final(self).debouncer.spec_deadline() is None,
            final(self).timers.deadline_of(Timer::PauseHide) == pause_clock(
                displaying,
                old(self).music.player_state,
                None,
                false,
                settings.pause_hide_minutes,
                now,
            ).0,
            forall|t: Timer| t != Timer::PauseHide ==> #[trigger] final(self).timers.deadline_of(t)
                == old(self).timers.deadline_of(t),
    {
        self.displaying = displaying;
        self.status_dirty = true;
        self.cancel_debounce();
        self.cancel_pause_timer();
        self.update_pause_timer(settings.pause_hide_minutes, now);
        self.push_activity(settings, now);
    }

    /// The player is gone: stop everything and go back to fully idle. The
    /// caller drops the Discord connection.
    pub fn go_dormant(&mut self)
        requires
            old(self).wf(),
        ensures
            final(self).wf(),
            final(self).music == old(self).music,
            final(self).status_dirty == old(self).status_dirty,
            !final(self).displaying,
            !final(self).paused_timed_out,
            final(self).pending_activity is None,
            final(self).debouncer.spec_deadline() is None,
            final(self).backoff.attempts() == 0,
            final(self).timers.deadline_of(Timer::PauseHide) is None,
            final(self).timers.deadline_of(Timer::Reconnect) is None,
            final(self).timers.deadline_of(Timer::CatalogRetry) is None,
            final(self).timers.deadline_of(Timer::Handshake) is None,
            final(self).timers.deadline_of(Timer::UpdateCheck) == old(self).timers.deadline_of(Timer::UpdateCheck),
    {
        self.displaying = false;
        self.cancel_pause_timer();
        self.timers.cancel(Timer::Reconnect);
        self.backoff.reset();
        self.cancel_debounce();
        self.timers.cancel(Timer::CatalogRetry);
        self.timers.cancel(Timer::Handshake);
    }

    /// One pass of SMTC: what changed, what to look up, and whether anything
    /// is left to show.
    pub fn on_snapshot(&mut self, session: Option<SessionReading>, settings: &Settings, now: u64) -> (r: SnapshotActions)
        requires
            old(self).wf(),
            now <= MAX_NOW_MS,
        ensures
            final(self).wf(),
            ({
                let m = observed_music(old(self).music, session);
                let changed = reading_changes(old(self).music, session);
                let flips = m.displayable() != old(self).displaying;
                &&& final(self).music.running == m.running
                &&& final(self).music.player_state == m.player_state
                &&& final(self).music.track == m.track
                &&& final(self).music.catalog == m.catalog
                &&& r.observation.changed == changed
                &&& (r.request is Some <==> wants_catalog(m, now))
                &&& r.dormant == !m.running
                &&& !m.running ==> {
                    &&& !final(self).displaying
                    &&& final(self).pending_activity is None
                    &&& final(self).debouncer.spec_deadline() is None
                    &&& final(self).backoff.attempts() == 0
                    &&& final(self).timers.deadline_of(Timer::Reconnect) is None
                    &&& final(self).timers.deadline_of(Timer::Handshake) is None
                    &&& final(self).timers.deadline_of(Timer::PauseHide) is None
                }
                &&& m.running ==> final(self).displaying == m.displayable()
                &&& m.running && (flips || (changed && old(self).displaying)) ==> {
                    &&& pending_view(final(self).pending_activity) == Some(final(self).activity_now(*settings, now))
                    &&& final(self).debouncer.spec_deadline() is Some
                }
                &&& m.running && !(flips || (changed && old(self).displaying)) ==> {
                    &&& final(self).pending_activity == old(self).pending_activity
                    &&& final(self).debouncer == old(self).debouncer
                }
                &&& m.running && flips ==> !final(self).paused_timed_out
                &&& final(self).status_dirty == (old(self).status_dirty || changed || (m.running && flips))
                &&& wants_catalog(m, now) ==> {
                    let track = m.track->0;
                    &&& r.request matches Some(q) && q.source == MusicSourceId::AppleMusic && q.key@
                        == track.identity_view() && q.name@ == track.name@ && q.artist@ == track.artist@
                        && q.album@ == track.album@
                    &&& final(self).music.catalog_requested_for matches Some(k) && k@ == track.identity_view()
                }
                &&& !wants_catalog(m, now) ==> final(self).music == m
                &&& !m.running ==> !final(self).paused_timed_out
                &&& m.running ==> {
                    let track_changed = !same_track(old(self).music.track, session->0.track);
                    let clock = if flips {
                        pause_clock(m.displayable(), m.player_state, None, false, settings.pause_hide_minutes, now)
                    } else if changed && old(self).displaying {
                        pause_clock(
                            old(self).displaying,
                            m.player_state,
                            if track_changed {
                                None
                            } else {
                                old(self).timers.deadline_of(Timer::PauseHide)
                            },
                            !track_changed && old(self).paused_timed_out,
                            settings.pause_hide_minutes,
                            now,
                        )
                    } else {
                        (old(self).timers.deadline_of(Timer::PauseHide), old(self).paused_timed_out)
                    };
                    &&& final(self).timers.deadline_of(Timer::PauseHide) == clock.0
                    &&& final(self).paused_timed_out == clock.1
                }
            }),
    {
        let observation = self.observe(session);
        let request = self.request_missing_catalog(now);
        if !self.music.running {
            self.go_dormant();
            return SnapshotActions { observation, request, dormant: true };
        }
        let displayable = self.music.is_displayable();
        if displayable != self.displaying {
            self.set_displaying(displayable, settings, now);
        } else if observation.changed && self.displaying {
            // Skipping a track while paused counts as interacting with the
            // player, so a timed-out presence comes back and the clock restarts.
            if observation.track_changed {
                self.cancel_pause_timer();
            }
            self.update_pause_timer(settings.pause_hide_minutes, now);
            self.push_activity(settings, now);
        }
        SnapshotActions { observation, request, dormant: false }
    }
}

/// What the timers that fell due ask of the caller.
pub struct Fired {
    /// The debounce fired with a presence waiting: send it (`Some(None)`
    /// clears what Discord shows).
    pub flush: Option<Option<Activity>>,
    /// No READY in time: give up on this pipe. A reconnect is already armed.
    pub give_up_handshake: bool,
    /// Try to connect again.
    pub reconnect: bool,
    /// Check for updates; the next check is already armed.
    pub check_updates: bool,
    /// A catalog lookup to post now that a failed one has cooled off.
    pub request: Option<Request>,
}

impl Conductor {
    /// Applies a finished lookup. A late answer is only used while the track
    /// it belongs to is still the one playing; a found entry is re-sent while
    /// displayed, since the presence went out without it. Returns whether the
    /// answer was used.
    pub fn apply_resolved(&mut self, resolved: Resolved, settings: &Settings, now: u64) -> (used: bool)
        requires
            old(self).wf(),
            now <= MAX_NOW_MS,
        ensures
            final(self).wf(),
            final(self).backoff == old(self).backoff,
            final(self).displaying == old(self).displaying,
            final(self).paused_timed_out == old(self).paused_timed_out,
            final(self).status_dirty == old(self).status_dirty,
            final(self).music.running == old(self).music.running,
            final(self).music.player_state == old(self).music.player_state,
            final(self).music.track == old(self).music.track,
            used == (old(self).music.track matches Some(t) && resolved.key@ == t.identity_view()),
            !used ==> final(self).music == old(self).music && final(self).timers == old(self).timers
                && final(self).pending_activity == old(self).pending_activity
                && final(self).debouncer == old(self).debouncer,
            used ==> match resolved.outcome {
                Outcome::Found(c) => {
                    &&& final(self).music.catalog == Some(c)
                    &&& final(self).music.catalog_retry_at is None
                    &&& final(self).music.catalog_requested_for == old(self).music.catalog_requested_for
                    &&& final(self).timers == old(self).timers
                    &&& (old(self).displaying && old(self).music.running) ==> pending_view(final(self).pending_activity)
                        == Some(final(self).activity_now(*settings, now))
                    &&& !(old(self).displaying && old(self).music.running) ==> final(self).pending_activity
                        == old(self).pending_activity
                },
                Outcome::Missing => {
                    &&& final(self).music.catalog is None
                    &&& final(self).music.catalog_retry_at is None
                    &&& final(self).music.catalog_requested_for == old(self).music.catalog_requested_for
                    &&& final(self).timers == old(self).timers
                    &&& final(self).pending_activity == old(self).pending_activity
                },
                Outcome::Failed => {
                    &&& final(self).music.catalog == old(self).music.catalog
                    &&& final(self).music.catalog_requested_for is None
                    &&& final(self).music.catalog_retry_at == Some((now + CATALOG_RETRY_DELAY_MS) as u64)
                    &&& final(self).timers.slots() == old(self).timers.slots().update(
                        timer_index(Timer::CatalogRetry),
                        Some((now + CATALOG_RETRY_DELAY_MS) as u64),
                    )
                    &&& final(self).pending_activity == old(self).pending_activity
                },
            },
    {
        let still_playing = match &self.music.track {
            Some(track) => track.matches_identity(resolved.key.as_str()),
            None => false,
        };
        if !still_playing {
            return false;
        }
        match resolved.outcome {
            Outcome::Found(catalog) => {
                self.music.catalog = Some(catalog);
                self.music.catalog_retry_at = None;
                if self.displaying {
                    self.push_activity(settings, now);
                }
            },
            Outcome::Missing => {
                self.music.catalog = None;
                self.music.catalog_retry_at = None;
            },
            Outcome::Failed => {
                // Not an answer. Clearing the guard lets the track be asked
                // about again once the cooling-off period is up.
                let at = now + CATALOG_RETRY_DELAY_MS;
                self.music.catalog_requested_for = None;
                self.music.catalog_retry_at = Some(at);
                self.timers.arm_at(Timer::CatalogRetry, at);
            },
        }
        true
    }

    /// Arms the next reconnect after the backoff's wait, while a player runs.
    pub fn schedule_reconnect(&mut self, now: u64)
        requires
            old(self).wf(),
            now <= MAX_NOW_MS,
        ensures
            final(self).wf(),
            final(self).music == old(self).music,
            final(self).displaying == old(self).displaying,
            final(self).paused_timed_out == old(self).paused_timed_out,
            final(self).status_dirty == old(self).status_dirty,
            final(self).pending_activity == old(self).pending_activity,
            final(self).debouncer == old(self).debouncer,
            old(self).music.running ==> {
                &&& final(self).timers.slots() == old(self).timers.slots().update(timer_index(Timer::Handshake), None).update(
                    timer_index(Timer::Reconnect),
                    Some((now + 1000 * delay_for(old(self).backoff.attempts())) as u64),
                )
                &&& final(self).backoff.attempts() == if old(self).backoff.attempts() < 6 {
                    old(self).backoff.attempts() + 1
                } else {
                    6
                }
            },
            !old(self).music.running ==> {
                &&& final(self).timers.slots() == old(self).timers.slots().update(timer_index(Timer::Handshake), None)
                &&& final(self).backoff == old(self).backoff
            },
    {
        self.timers.cancel(Timer::Handshake);
        if !self.music.running {
            return;
        }
        let delay = self.backoff.next_delay();
        self.timers.arm_at(Timer::Reconnect, now + delay * 1000);
    }

    /// The user asked to reconnect: the waits of the old connection are
    /// over and the backoff starts over. The caller drops the connection,
    /// clearing what it shows, and opens a new one.
    pub fn reconnect_requested(&mut self)
        requires
            old(self).wf(),
        ensures
            final(self).wf(),
            final(self).music == old(self).music,
            final(self).displaying == old(self).displaying,
            final(self).paused_timed_out == old(self).paused_timed_out,
            final(self).status_dirty == old(self).status_dirty,
            final(self).pending_activity == old(self).pending_activity,
            final(self).debouncer == old(self).debouncer,
            final(self).timers.slots() == old(self).timers.slots().update(timer_index(Timer::Handshake), None).update(
                timer_index(Timer::Reconnect),
                None,
            ),
            final(self).backoff.attempts() == 0,
    {
        self.timers.cancel(Timer::Handshake);
        self.timers.cancel(Timer::Reconnect);
        self.backoff.reset();
    }

    /// Whether to try opening a pipe now: a player runs and nothing is open.
    pub fn wants_connection(&self, conn: ConnState) -> (r: bool)
        ensures
            r == (self.music.running && conn == ConnState::Disconnected),
    {
        self.music.running && conn == ConnState::Disconnected
    }

    /// What opening a pipe came to: a handshake deadline when it opened, the
    /// next reconnect when it did not.
    pub fn connect_attempted(&mut self, opened: bool, now: u64)
        requires
            old(self).wf(),
            now <= MAX_NOW_MS,
        ensures
            final(self).wf(),
            final(self).music == old(self).music,
            final(self).displaying == old(self).displaying,
            final(self).pending_activity == old(self).pending_activity,
            opened ==> final(self).timers.slots() == old(self).timers.slots().update(
                timer_index(Timer::Handshake),
                Some((now + HANDSHAKE_TIMEOUT_MS) as u64),
            ) && final(self).backoff == old(self).backoff,
            !opened && old(self).music.running ==> {
                &&& final(self).timers.slots() == old(self).timers.slots().update(timer_index(Timer::Handshake), None).update(
                    timer_index(Timer::Reconnect),
                    Some((now + 1000 * delay_for(old(self).backoff.attempts())) as u64),
                )
                &&& final(self).backoff.attempts() == if old(self).backoff.attempts() < 6 {
                    old(self).backoff.attempts() + 1
                } else {
                    6
                }
            },
            !opened && !old(self).music.running ==> {
                &&& final(self).timers.slots() == old(self).timers.slots().update(timer_index(Timer::Handshake), None)
                &&& final(self).backoff == old(self).backoff
            },
    {
        if opened {
            self.timers.arm_at(Timer::Handshake, now + HANDSHAKE_TIMEOUT_MS);
        } else {
            self.schedule_reconnect(now);
        }
    }

    /// Discord answered the handshake: the wait for it is over, the backoff
    /// starts over, and what should be showing is pushed.
    pub fn on_ready(&mut self, settings: &Settings, now: u64)
        requires
            old(self).wf(),
            now <= MAX_NOW_MS,
        ensures
            final(self).wf(),
            final(self).music == old(self).music,
            final(self).displaying == old(self).displaying,
            final(self).backoff.attempts() == 0,
            final(self).timers.slots() == old(self).timers.slots().update(timer_index(Timer::Handshake), None),
            old(self).music.running ==> pending_view(final(self).pending_activity) == Some(
                final(self).activity_now(*settings, now),
            ),
    {
        self.timers.cancel(Timer::Handshake);
        self.backoff.reset();
        self.push_activity(settings, now);
    }

    /// Every deadline that has passed, each consumed so that a deadline in
    /// the past can never keep the loop spinning.
    pub fn fire_due_timers(&mut self, conn: ConnState, settings: &Settings, now: u64) -> (r: Fired)
        requires
            old(self).wf(),
            now <= MAX_NOW_MS,
        ensures
            final(self).wf(),
            final(self).music.running == old(self).music.running,
            final(self).music.player_state == old(self).music.player_state,
            final(self).music.track == old(self).music.track,
            final(self).displaying == old(self).displaying,
            (old(self).debouncer.spec_deadline() matches Some(d) && d <= now) ==> pending_view(r.flush)
                == pending_view(old(self).pending_activity),
            !(old(self).debouncer.spec_deadline() matches Some(d) && d <= now) ==> r.flush is None,
            r.give_up_handshake == (old(self).timers.deadline_of(Timer::Handshake) matches Some(d) && d <= now
                && conn == ConnState::Connecting),
            r.reconnect == (old(self).timers.deadline_of(Timer::Reconnect) matches Some(d) && d <= now
                && !(r.give_up_handshake && old(self).music.running)),
            r.check_updates == (old(self).timers.deadline_of(Timer::UpdateCheck) matches Some(d) && d <= now),
            r.check_updates ==> final(self).timers.deadline_of(Timer::UpdateCheck) == Some(
                (now + UPDATE_CHECK_INTERVAL_MS) as u64,
            ),
            !r.check_updates ==> final(self).timers.deadline_of(Timer::UpdateCheck) == old(self).timers.deadline_of(
                Timer::UpdateCheck,
            ),
            (old(self).timers.deadline_of(Timer::PauseHide) matches Some(d) && d <= now && old(self).displaying
                && old(self).music.player_state == PlayerState::Paused) ==> final(self).paused_timed_out,
            forall|t: Timer| (#[trigger] old(self).timers.deadline_of(t) matches Some(d) && d <= now) ==> (
                final(self).timers.deadline_of(t) is None || t == Timer::UpdateCheck || t == Timer::Reconnect),
            r.request is Some ==> (old(self).timers.deadline_of(Timer::CatalogRetry) matches Some(d) && d <= now),
            (old(self).timers.deadline_of(Timer::CatalogRetry) matches Some(d) && d <= now) ==> {
                let m = MusicState { catalog_retry_at: None, ..old(self).music };
                &&& (r.request is Some <==> wants_catalog(m, now))
                &&& wants_catalog(m, now) ==> {
                    let track = m.track->0;
                    &&& r.request matches Some(q) && q.source == MusicSourceId::AppleMusic && q.key@
                        == track.identity_view() && q.name@ == track.name@ && q.artist@ == track.artist@
                        && q.album@ == track.album@
                    &&& final(self).music.catalog_requested_for matches Some(k) && k@ == track.identity_view()
                }
            },
            (old(self).timers.deadline_of(Timer::PauseHide) matches Some(d) && d <= now && old(self).displaying
                && old(self).music.player_state == PlayerState::Paused && old(self).music.running) ==> {
                &&& pending_view(final(self).pending_activity) == Some(final(self).activity_now(*settings, now))
                &&& final(self).debouncer.spec_deadline() is Some
            },
            r.give_up_handshake && old(self).music.running ==> {
                &&& final(self).timers.deadline_of(Timer::Reconnect) == Some(
                    (now + 1000 * delay_for(old(self).backoff.attempts())) as u64,
                )
                &&& final(self).backoff.attempts() == if old(self).backoff.attempts() < 6 {
                    old(self).backoff.attempts() + 1
                } else {
                    6
                }
            },
            !(r.give_up_handshake && old(self).music.running) ==> final(self).backoff == old(self).backoff,
    {
        let flush = if self.debouncer.take_if_due(now) {
            self.take_pending()
        } else {
            None
        };

        if self.timers.take_if_due(Timer::PauseHide, now) && self.displaying && self.music.player_state
            == PlayerState::Paused {
            self.paused_timed_out = true;
            self.push_activity(settings, now);
        }

        let give_up_handshake = self.timers.take_if_due(Timer::Handshake, now) && conn == ConnState::Connecting;
        if give_up_handshake {
            proof {
                vstd::arithmetic::power2::lemma_pow2_pos(self.backoff.attempts());
            }
            self.schedule_reconnect(now);
        }

        let reconnect = self.timers.take_if_due(Timer::Reconnect, now);

        let check_updates = self.timers.take_if_due(Timer::UpdateCheck, now);
        if check_updates {
            // Re-armed before the answer arrives, so a check that fails still
            // leaves the next one scheduled.
            self.timers.arm_at(Timer::UpdateCheck, now + UPDATE_CHECK_INTERVAL_MS);
        }

        let request = if self.timers.take_if_due(Timer::CatalogRetry, now) {
            self.music.catalog_retry_at = None;
            self.request_missing_catalog(now)
        } else {
            None
        };
        Fired { flush, give_up_handshake, reconnect, check_updates, request }
    }

    /// When the loop next has something to do: the earliest deadline of
    /// the timers and the debounce.
    pub fn next_deadline(&self) -> (r: Option<u64>)
        ensures
            r == earliest_of(
                crate::portable::timers::earliest(self.timers.slots()),
                self.debouncer.spec_deadline(),
            ),
    {
        let a = self.timers.next();
        let b = self.debouncer.deadline();
        match (a, b) {
            (Some(x), Some(y)) => Some(if x < y { x } else { y }),
            (Some(x), None) => Some(x),
            (None, y) => y,
        }
    }
}

/// The earlier of two optional deadlines.
pub open spec fn earliest_of(a: Option<u64>, b: Option<u64>) -> Option<u64> {
    match (a, b) {
        (Some(x), Some(y)) => Some(if x < y { x } else { y }),
        (Some(x), None) => Some(x),
        (None, y) => y,
    }
}

// MARK: - Settings and the menu

/// What a settings change came to.
#[derive(Debug, Clone, Copy, PartialEq, Eq)]
pub enum Resettled {
    /// No player runs: everything stopped; drop the Discord connection.
    Dormant,
    /// Whether anything is shown flipped; the presence is rebuilt.
    DisplayFlipped,
    /// The same things are shown; try connecting if nothing is open, and the
    /// presence and the pause clock start over under the new settings.
    Refreshed,
}

impl Conductor {
    /// A setting moved (the caller has saved it): re-evaluate what should be
    /// on screen.
    pub fn settings_changed(&mut self, settings: &Settings, now: u64) -> (r: Resettled)
        requires
            old(self).wf(),
            now <= MAX_NOW_MS,
        ensures
            final(self).wf(),
            final(self).status_dirty,
            final(self).music == old(self).music,
            !old(self).music.running ==> {
                &&& r == Resettled::Dormant
                &&& !final(self).displaying
                &&& final(self).pending_activity is None
                &&& final(self).debouncer.spec_deadline() is None
                &&& final(self).timers.deadline_of(Timer::Reconnect) is None
                &&& final(self).timers.deadline_of(Timer::Handshake) is None
                &&& final(self).timers.deadline_of(Timer::PauseHide) is None
                &&& !final(self).paused_timed_out
            },
            old(self).music.running ==> {
                let clock = pause_clock(
                    final(self).displaying,
                    old(self).music.player_state,
                    None,
                    false,
                    settings.pause_hide_minutes,
                    now,
                );
                &&& final(self).timers.deadline_of(Timer::PauseHide) == clock.0
                &&& final(self).paused_timed_out == clock.1
                &&& forall|t: Timer| t != Timer::PauseHide ==> #[trigger] final(self).timers.deadline_of(t)
                    == old(self).timers.deadline_of(t)
            },
            old(self).music.running && old(self).music.displayable() != old(self).displaying ==> {
                &&& r == Resettled::DisplayFlipped
                &&& final(self).displaying == old(self).music.displayable()
                &&& pending_view(final(self).pending_activity) == Some(final(self).activity_now(*settings, now))
                &&& final(self).debouncer.spec_deadline() is Some
            },
            old(self).music.running && old(self).music.displayable() == old(self).displaying ==> {
                &&& r == Resettled::Refreshed
                &&& final(self).displaying == old(self).displaying
                &&& final(self).backoff == old(self).backoff
                &&& pending_view(final(self).pending_activity) == Some(final(self).activity_now(*settings, now))
                &&& final(self).debouncer.spec_deadline() is Some
            },
    {
        self.status_dirty = true;
        if !self.music.running {
            self.go_dormant();
            return Resettled::Dormant;
        }
        let displayable = self.music.is_displayable();
        if displayable != self.displaying {
            self.set_displaying(displayable, settings, now);
            Resettled::DisplayFlipped
        } else {
            // The pause timeout may have been what changed, so the clock
            // starts over rather than letting an old deadline stand.
            self.cancel_pause_timer();
            self.update_pause_timer(settings.pause_hide_minutes, now);
            self.push_activity(settings, now);
            Resettled::Refreshed
        }
    }
}

/// What the caller does after a menu choice.
#[derive(Debug, Clone, Copy, PartialEq, Eq)]
pub enum MenuCommand {
    /// A setting changed: save it and re-evaluate what is shown.
    SettingsChanged,
    /// Only the wording changed: save it; the status rows are worth saying
    /// again, nothing goes to Discord.
    LanguageChanged,
    /// Ask for a new label for this button.
    EditButtonLabel(ButtonSlot),
    EditCustomUrl,
    EditRepositoryUrl,
    ToggleLaunchAtLogin,
    CheckForUpdates,
    OpenReleasePage,
    /// Tear the connection down and open a new one.
    Reconnect,
    Quit,
    /// Nothing to do: Apple Music is the only source, and cannot be turned
    /// off.
    Nothing,
}

/// The settings after a menu choice: the choices made right in the menu
/// take effect, everything else leaves them alone.
pub open spec fn settings_after(old: Settings, new: Settings, action: MenuAction) -> bool {
    match action {
        MenuAction::SetButtonType { button, link_type } => {
            &&& new.link_of(button) == link_type
            &&& new.custom_label_of(button) == if old.custom_label_of(button) == Some(
                crate::portable::settings_model::default_label_of(old.link_of(button)),
            ) {
                None
            } else {
                old.custom_label_of(button)
            }
            &&& new.same_except(&old, button)
        },
        MenuAction::SetBadgeLabel(badge) => new == Settings { badge_label: badge, ..old },
        MenuAction::SetPauseHideMinutes(minutes) => new == Settings { pause_hide_minutes: minutes, ..old },
        MenuAction::SetLanguage(language) => new == Settings { language: language, ..old },
        _ => new == old,
    }
}

/// What a menu choice means for the settings and for the caller.
pub open spec fn command_of(action: MenuAction) -> MenuCommand {
    match action {
        MenuAction::SetButtonType { .. } => MenuCommand::SettingsChanged,
        MenuAction::SetBadgeLabel(_) => MenuCommand::SettingsChanged,
        MenuAction::SetPauseHideMinutes(_) => MenuCommand::SettingsChanged,
        MenuAction::SetLanguage(_) => MenuCommand::LanguageChanged,
        MenuAction::EditButtonLabel(button) => MenuCommand::EditButtonLabel(button),
        MenuAction::EditCustomUrl => MenuCommand::EditCustomUrl,
        MenuAction::EditRepositoryUrl => MenuCommand::EditRepositoryUrl,
        MenuAction::ToggleSource(_) => MenuCommand::Nothing,
        MenuAction::ToggleLaunchAtLogin => MenuCommand::ToggleLaunchAtLogin,
        MenuAction::Reconnect => MenuCommand::Reconnect,
        MenuAction::CheckForUpdates => MenuCommand::CheckForUpdates,
        MenuAction::OpenReleasePage => MenuCommand::OpenReleasePage,
        MenuAction::Quit => MenuCommand::Quit,
    }
}

/// Applies a menu choice to the settings, and says what is left for the
/// caller: prompting, the registry, the update check, the connection.
pub fn apply_menu_action(settings: &mut Settings, action: MenuAction) -> (r: MenuCommand)
    ensures
        r == command_of(action),
        settings_after(*old(settings), *final(settings), action),
{
    match action {
        MenuAction::SetButtonType { button, link_type } => {
            settings.set_button_type(button, link_type);
            MenuCommand::SettingsChanged
        },
        MenuAction::SetBadgeLabel(badge) => {
            settings.badge_label = badge;
            MenuCommand::SettingsChanged
        },
        MenuAction::SetPauseHideMinutes(minutes) => {
            settings.pause_hide_minutes = minutes;
            MenuCommand::SettingsChanged
        },
        MenuAction::SetLanguage(language) => {
            settings.language = language;
            MenuCommand::LanguageChanged
        },
        MenuAction::EditButtonLabel(button) => MenuCommand::EditButtonLabel(button),
        MenuAction::EditCustomUrl => MenuCommand::EditCustomUrl,
        MenuAction::EditRepositoryUrl => MenuCommand::EditRepositoryUrl,
        MenuAction::ToggleSource(_) => MenuCommand::Nothing,
        MenuAction::ToggleLaunchAtLogin => MenuCommand::ToggleLaunchAtLogin,
        MenuAction::Reconnect => MenuCommand::Reconnect,
        MenuAction::CheckForUpdates => MenuCommand::CheckForUpdates,
        MenuAction::OpenReleasePage => MenuCommand::OpenReleasePage,
        MenuAction::Quit => MenuCommand::Quit,
    }
}

} // verus!
