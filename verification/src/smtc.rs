//! What a media session reports, turned into a track.
//!
//! The session objects belong to the caller, which reads the playback status,
//! the timeline's tick counts and, when asked to, the titles, and hands the
//! plain values here. The titles come from a call into the player's own
//! process, by far the most expensive read there is, so they are cached per
//! session and read again only when something that can change them moved.
use crate::portable::models::{PlayerState, TrackInfo};
use crate::portable::track_metadata::{split_combined, split_combined_artist};
use crate::strings::to_owned_string;
use vstd::prelude::*;

verus! {

/// 100ns ticks in a millisecond.
pub const TICKS_PER_MS: i64 = 10_000;
/// 100ns ticks between 1601-01-01 (the WinRT epoch) and 1970-01-01.
pub const TICKS_TO_UNIX_EPOCH: i64 = 116_444_736_000_000_000;
/// Longest track length worth believing: a day. Past it a player is
/// reporting nonsense, or a live stream with no real end.
pub const MAX_PLAUSIBLE_DURATION_MS: u64 = 86_400_000;
/// How far a duration may move before the cached titles are taken to belong
/// to another track. A duration can settle slightly as a track loads.
pub const DURATION_EPSILON_MS: u64 = 1_000;

/// What the timeline says, or nothing at all when it says something
/// implausible.
#[derive(Debug, Clone, Copy, PartialEq, Eq)]
pub struct Timeline {
    pub duration_ms: Option<u64>,
    pub position_ms: Option<u64>,
    /// When the player last refreshed the position, in Unix milliseconds.
    pub sampled_at_ms: Option<u64>,
}

/// `a - b`, or 0 where the difference leaves `i64`: the tick counts are
/// written by another process, and garbage must not become a panic.
pub open spec fn checked_diff(a: i64, b: i64) -> int {
    let d = a - b;
    if i64::MIN <= d && d <= i64::MAX {
        d
    } else {
        0
    }
}

/// The Unix milliseconds a WinRT timestamp stands for, when it is after the
/// Unix epoch, representable in nanoseconds, and not in the future.
pub open spec fn sampled_of(ticks: Option<i64>, now_ms: u64) -> Option<u64> {
    match ticks {
        None => None,
        Some(t) => {
            let unix = t - TICKS_TO_UNIX_EPOCH;
            if unix < i64::MIN || unix <= 0 || unix * 100 > u64::MAX || unix > now_ms * TICKS_PER_MS {
                None
            } else {
                Some((unix / (TICKS_PER_MS as int)) as u64)
            }
        },
    }
}

/// The timeline from its raw tick counts: the duration when it is positive
/// and at most a day, the position measured from the start (never below
/// zero), and when it was sampled.
pub open spec fn timeline_of(start: i64, end: i64, position: i64, last_updated: Option<i64>, now_ms: u64) -> Timeline {
    let d = checked_diff(end, start);
    if d <= 0 || d > MAX_PLAUSIBLE_DURATION_MS * TICKS_PER_MS {
        Timeline { duration_ms: None, position_ms: None, sampled_at_ms: None }
    } else {
        let p = checked_diff(position, start);
        Timeline {
            duration_ms: Some((d / (TICKS_PER_MS as int)) as u64),
            position_ms: Some((if p < 0 { 0 } else { p } / (TICKS_PER_MS as int)) as u64),
            sampled_at_ms: sampled_of(last_updated, now_ms),
        }
    }
}

fn diff_or_zero(a: i64, b: i64) -> (r: i128)
    ensures
        r == checked_diff(a, b),
{
    let d: i128 = a as i128 - b as i128;
    if d < i64::MIN as i128 || d > i64::MAX as i128 {
        0
    } else {
        d
    }
}

fn sampled_at(ticks: Option<i64>, now_ms: u64) -> (r: Option<u64>)
    ensures
        r == sampled_of(ticks, now_ms),
{
    match ticks {
        None => None,
        Some(t) => {
            let unix: i128 = t as i128 - TICKS_TO_UNIX_EPOCH as i128;
            if unix < i64::MIN as i128 || unix <= 0 || unix * 100 > u64::MAX as i128 || unix > now_ms as i128
                * TICKS_PER_MS as i128 {
                None
            } else {
                Some((unix / TICKS_PER_MS as i128) as u64)
            }
        },
    }
}

/// `start`, `end` and `position` are the timeline's tick counts (0 where a
/// read failed), `last_updated` its refresh time in WinRT ticks, and
/// `now_ms` the clock in Unix milliseconds.
pub fn timeline_from_ticks(start: i64, end: i64, position: i64, last_updated: Option<i64>, now_ms: u64) -> (r: Timeline)
    ensures
        r == timeline_of(start, end, position, last_updated, now_ms),
{
    let d = diff_or_zero(end, start);
    if d <= 0 || d > MAX_PLAUSIBLE_DURATION_MS as i128 * TICKS_PER_MS as i128 {
        return Timeline { duration_ms: None, position_ms: None, sampled_at_ms: None };
    }
    let p = diff_or_zero(position, start);
    let from_start: i128 = if p < 0 {
        0
    } else {
        p
    };
    Timeline {
        duration_ms: Some((d / TICKS_PER_MS as i128) as u64),
        position_ms: Some((from_start / TICKS_PER_MS as i128) as u64),
        sampled_at_ms: sampled_at(last_updated, now_ms),
    }
}

/// Whether two duration readings are far enough apart to mean different
/// tracks. A duration appearing or vanishing counts: both happen when a track
/// is swapped for one the player cannot measure yet.
pub open spec fn moved(cached: Option<u64>, current: Option<u64>) -> bool {
    match (cached, current) {
        (Some(a), Some(b)) => a - b > DURATION_EPSILON_MS || b - a > DURATION_EPSILON_MS,
        (None, None) => false,
        _ => true,
    }
}

pub fn duration_moved(cached: Option<u64>, current: Option<u64>) -> (r: bool)
    ensures
        r == moved(cached, current),
{
    match (cached, current) {
        (Some(a), Some(b)) => if a > b {
            a - b > DURATION_EPSILON_MS
        } else {
            b - a > DURATION_EPSILON_MS
        },
        (None, None) => false,
        _ => true,
    }
}

/// The strings one read of the titles produced.
#[derive(Debug, Clone, PartialEq, Eq)]
pub struct Metadata {
    pub name: String,
    pub artist: String,
    pub album: String,
}

/// The last answer a session gave about what it is playing. Three states,
/// not two: a session that answered with nothing gave a real answer, and is
/// not asked again on every tick.
#[derive(Debug, Clone, PartialEq, Eq)]
pub enum Cached {
    /// Never read, or read against a session that has since gone.
    Unknown,
    /// The session answered and had no track to describe.
    Empty,
    Track(Metadata),
}

/// What a read of the titles means. Apple Music reports `artist — album` in
/// the artist field with the album left empty, and that is split back apart.
pub open spec fn cached_from(name: Seq<char>, artist: Seq<char>, album: Seq<char>) -> Option<(Seq<char>, Seq<char>, Seq<char>)> {
    if name.len() == 0 && artist.len() == 0 {
        None
    } else {
        let (a, b) = split_combined(artist, album);
        Some((name, a, b))
    }
}

/// `None` from `cached_from` is an empty answer.
pub fn metadata_from(name: &str, artist: &str, album: &str) -> (r: Cached)
    ensures
        match cached_from(name@, artist@, album@) {
            None => r == Cached::Empty,
            Some((n, a, b)) => r matches Cached::Track(m) && m.name@ == n && m.artist@ == a && m.album@ == b,
        },
{
    if name.unicode_len() == 0 && artist.unicode_len() == 0 {
        return Cached::Empty;
    }
    let (artist, album) = split_combined_artist(artist, album);
    Cached::Track(Metadata { name: to_owned_string(name), artist, album })
}

/// Everything remembered about one session between reads.
#[derive(Debug, Clone)]
pub struct SessionCache {
    pub metadata: Cached,
    /// The status the last read saw. A status that moved is the other thing
    /// that comes with a track change.
    pub player_state: Option<PlayerState>,
    /// The duration the timeline reported when the titles were read.
    pub duration_ms: Option<u64>,
}

impl SessionCache {
    pub fn new() -> (c: Self)
        ensures
            c.metadata == Cached::Unknown,
            c.player_state is None,
            c.duration_ms is None,
    {
        SessionCache { metadata: Cached::Unknown, player_state: None, duration_ms: None }
    }

    /// Records a reading of the status and the timeline, and says whether the
    /// titles have to be read again. `refresh` is set when the session said
    /// its titles moved. A stopped session forgets its titles.
    pub fn observe(&mut self, player_state: PlayerState, timeline: &Timeline, refresh: bool) -> (read: bool)
        ensures
            final(self).player_state == Some(player_state),
            player_state == PlayerState::Stopped ==> {
                &&& !read
                &&& final(self).metadata == Cached::Unknown
                &&& final(self).duration_ms is None
            },
            player_state != PlayerState::Stopped ==> {
                &&& read == (refresh || old(self).player_state != Some(player_state) || old(self).metadata
                    == Cached::Unknown || moved(old(self).duration_ms, timeline.duration_ms))
                &&& final(self).metadata == old(self).metadata
                &&& final(self).duration_ms == timeline.duration_ms
            },
    {
        let status_moved = match self.player_state {
            Some(previous) => previous != player_state,
            None => true,
        };
        self.player_state = Some(player_state);
        if player_state == PlayerState::Stopped {
            self.metadata = Cached::Unknown;
            self.duration_ms = None;
            return false;
        }
        let unknown = match self.metadata {
            Cached::Unknown => true,
            _ => false,
        };
        let stale = refresh || status_moved || unknown || duration_moved(self.duration_ms, timeline.duration_ms);
        // Recorded whether or not the read happens, so a duration that settles
        // a little on each tick cannot creep past the threshold.
        self.duration_ms = timeline.duration_ms;
        stale
    }

    /// Takes in what a read of the titles came back with; `None` is a call
    /// that failed, which keeps what was cached and asks for another read.
    pub fn metadata_read(&mut self, answer: Option<Cached>) -> (retry: bool)
        ensures
            retry == answer is None,
            match answer {
                Some(a) => final(self).metadata == a,
                None => final(self).metadata == old(self).metadata,
            },
            final(self).player_state == old(self).player_state,
            final(self).duration_ms == old(self).duration_ms,
    {
        match answer {
            Some(a) => {
                self.metadata = a;
                false
            },
            None => true,
        }
    }

    /// The track a session is playing: none while stopped or without titles;
    /// otherwise the cached titles with the timeline's timing. The position
    /// belongs to when the player sampled it, or to `now_ms` when that is
    /// unknown.
    pub fn track(&self, player_state: PlayerState, timeline: &Timeline, now_ms: u64) -> (r: Option<TrackInfo>)
        ensures
            player_state == PlayerState::Stopped ==> r is None,
            player_state != PlayerState::Stopped ==> match self.metadata {
                Cached::Track(m) => r matches Some(t) && t.name@ == m.name@ && t.artist@ == m.artist@
                    && t.album@ == m.album@ && t.duration_ms == timeline.duration_ms && t.position_ms
                    == timeline.position_ms && t.position_sampled_at_ms == match timeline.sampled_at_ms {
                    Some(at) => at,
                    None => now_ms,
                },
                _ => r is None,
            },
    {
        if player_state == PlayerState::Stopped {
            return None;
        }
        match &self.metadata {
            Cached::Track(m) => Some(
                TrackInfo {
                    name: to_owned_string(m.name.as_str()),
                    artist: to_owned_string(m.artist.as_str()),
                    album: to_owned_string(m.album.as_str()),
                    duration_ms: timeline.duration_ms,
                    position_ms: timeline.position_ms,
                    position_sampled_at_ms: match timeline.sampled_at_ms {
                        Some(at) => at,
                        None => now_ms,
                    },
                },
            ),
            _ => None,
        }
    }
}

} // verus!
