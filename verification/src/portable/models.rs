//! What the app knows about the player: the track, its catalog entry, and the
//! state of the Discord connection.
//!
//! Times are milliseconds: positions and durations are spans, and
//! `position_sampled_at_ms` is a point on the wall clock (Unix milliseconds).
use crate::clock;
use crate::strings::{push_char, push_str, to_owned_string, chars_of};
use vstd::prelude::*;

verus! {

/// Separator used to join track fields into an identity string (U+001F).
pub const UNIT_SEPARATOR: char = '\u{1F}';

#[derive(Debug, Clone, Copy, PartialEq, Eq, Structural)]
pub enum PlayerState {
    Playing,
    Paused,
    Stopped,
}

#[derive(Debug, Clone, Copy, PartialEq, Eq, Structural)]
pub enum ConnState {
    Disconnected,
    Connecting,
    Connected,
}

#[derive(Debug, Clone, PartialEq)]
pub struct TrackInfo {
    pub name: String,
    pub artist: String,
    pub album: String,
    pub duration_ms: Option<u64>,
    pub position_ms: Option<u64>,
    /// When `position_ms` was sampled, in Unix milliseconds. Re-sending an
    /// activity with a stale sample would rewind Discord's progress bar, so
    /// the time elapsed since this instant is added back in at build time.
    pub position_sampled_at_ms: u64,
}

/// The joined form of a track's three strings.
pub open spec fn identity_of(name: Seq<char>, artist: Seq<char>, album: Seq<char>) -> Seq<char> {
    name + seq![UNIT_SEPARATOR] + artist + seq![UNIT_SEPARATOR] + album
}

/// Whether `s` at `off` continues with exactly `part`.
pub open spec fn continues_with(s: Seq<char>, off: int, part: Seq<char>) -> bool {
    0 <= off && off + part.len() <= s.len() && s.subrange(off, off + part.len()) == part
}

fn chars_at(s: &[char], off: usize, part: &[char]) -> (r: bool)
    ensures
        r == continues_with(s@, off as int, part@),
{
    let n = s.len();
    if off > n || part.len() > n - off {
        return false;
    }
    let mut i: usize = 0;
    while i < part.len()
        invariant
            n == s@.len(),
            off + part@.len() <= s@.len(),
            i <= part@.len(),
            forall|j: int| 0 <= j < i ==> s@[off + j] == part@[j],
        decreases part@.len() - i,
    {
        if s[off + i] != part[i] {
            proof {
                assert(s@.subrange(off as int, off + part@.len())[i as int] == s@[off + i]);
            }
            return false;
        }
        i = i + 1;
    }
    proof {
        assert(s@.subrange(off as int, off + part@.len()) =~= part@);
    }
    true
}

impl TrackInfo {
    /// A track read just now, with no position or duration known yet.
    pub fn new(name: &str, artist: &str, album: &str) -> (t: Self)
        ensures
            t.name@ == name@,
            t.artist@ == artist@,
            t.album@ == album@,
            t.duration_ms is None,
            t.position_ms is None,
    {
        TrackInfo {
            name: to_owned_string(name),
            artist: to_owned_string(artist),
            album: to_owned_string(album),
            duration_ms: None,
            position_ms: None,
            position_sampled_at_ms: clock::now_ms(),
        }
    }

    /// The joined form of this track's strings.
    pub open spec fn identity_view(&self) -> Seq<char> {
        identity_of(self.name@, self.artist@, self.album@)
    }

    /// The track's name, artist and album, joined by U+001F.
    pub fn identity(&self) -> (r: String)
        ensures
            r@ == self.identity_view(),
    {
        let mut out = String::new();
        push_str(&mut out, self.name.as_str());
        push_char(&mut out, UNIT_SEPARATOR);
        push_str(&mut out, self.artist.as_str());
        push_char(&mut out, UNIT_SEPARATOR);
        push_str(&mut out, self.album.as_str());
        proof {
            assert(out@ =~= self.identity_view());
        }
        out
    }

    /// Whether `identity` would have produced exactly `candidate`, read by
    /// consuming each field by its own length rather than splitting.
    pub fn matches_identity(&self, candidate: &str) -> (r: bool)
        ensures
            r == (candidate@ == self.identity_view()),
    {
        let c = chars_of(candidate);
        let name = chars_of(self.name.as_str());
        let artist = chars_of(self.artist.as_str());
        let album = chars_of(self.album.as_str());
        let sep = [UNIT_SEPARATOR];
        let ghost id = self.identity_view();
        let ghost sepq = seq![UNIT_SEPARATOR];
        proof {
            assert(sep@ =~= sepq);
        }
        let clen = c.len();
        let a = name.len();
        let r = if !chars_at(c.as_slice(), 0, name.as_slice()) {
            false
        } else if !chars_at(c.as_slice(), a, &sep) {
            false
        } else if !chars_at(c.as_slice(), a + 1, artist.as_slice()) {
            false
        } else {
            let b = a + 1 + artist.len();
            if !chars_at(c.as_slice(), b, &sep) {
                false
            } else {
                let rest_start = b + 1;
                album.len() == clen - rest_start && chars_at(c.as_slice(), rest_start, album.as_slice())
            }
        };
        proof {
            let n = name@.len() as int;
            let m = artist@.len() as int;
            let k = album@.len() as int;
            assert(id.len() == n + 1 + m + 1 + k);
            if c@ == id {
                assert(c@.subrange(0, n) =~= name@);
                assert(c@.subrange(n, n + 1) =~= sepq);
                assert(c@.subrange(n + 1, n + 1 + m) =~= artist@);
                assert(c@.subrange(n + 1 + m, n + 2 + m) =~= sepq);
                assert(c@.subrange(n + 2 + m, n + 2 + m + k) =~= album@);
            }
            if r {
                assert(c@ =~= id) by {
                    assert forall|j: int| 0 <= j < c@.len() implies c@[j] == id[j] by {
                        if j < n {
                            assert(c@.subrange(0, n)[j] == c@[j]);
                        } else if j < n + 1 {
                            assert(c@.subrange(n, n + 1)[j - n] == c@[j]);
                        } else if j < n + 1 + m {
                            assert(c@.subrange(n + 1, n + 1 + m)[j - n - 1] == c@[j]);
                        } else if j < n + 2 + m {
                            assert(c@.subrange(n + 1 + m, n + 2 + m)[j - n - 1 - m] == c@[j]);
                        } else {
                            assert(c@.subrange(n + 2 + m, n + 2 + m + k)[j - n - 2 - m] == c@[j]);
                        }
                    }
                }
            }
        }
        r
    }

    /// Takes on `other`'s playback position, leaving the strings alone.
    pub fn adopt_playback_from(&mut self, other: &TrackInfo)
        ensures
            final(self).name == old(self).name,
            final(self).artist == old(self).artist,
            final(self).album == old(self).album,
            final(self).duration_ms == other.duration_ms,
            final(self).position_ms == other.position_ms,
            final(self).position_sampled_at_ms == other.position_sampled_at_ms,
    {
        self.duration_ms = other.duration_ms;
        self.position_ms = other.position_ms;
        self.position_sampled_at_ms = other.position_sampled_at_ms;
    }
}

#[derive(Debug, Clone, PartialEq)]
pub struct CatalogInfo {
    pub song_url: Option<String>,
    pub artist_url: Option<String>,
    pub album_url: Option<String>,
    pub artwork_url: Option<String>,
}

/// A catalog entry as characters: song, artist, album and artwork URLs.
pub type CatalogView = (Option<Seq<char>>, Option<Seq<char>>, Option<Seq<char>>, Option<Seq<char>>);

pub open spec fn url_view(u: Option<String>) -> Option<Seq<char>> {
    match u {
        Some(s) => Some(s@),
        None => None,
    }
}

pub open spec fn catalog_view(c: CatalogInfo) -> CatalogView {
    (url_view(c.song_url), url_view(c.artist_url), url_view(c.album_url), url_view(c.artwork_url))
}

pub open spec fn catalog_opt_view(c: Option<CatalogInfo>) -> Option<CatalogView> {
    match c {
        Some(c) => Some(catalog_view(c)),
        None => None,
    }
}

fn copy_url(u: &Option<String>) -> (r: Option<String>)
    ensures
        url_view(r) == url_view(*u),
{
    match u {
        Some(s) => Some(s.clone()),
        None => None,
    }
}

impl CatalogInfo {
    /// A copy with the same links.
    pub fn duplicate(&self) -> (c: Self)
        ensures
            catalog_view(c) == catalog_view(*self),
    {
        CatalogInfo {
            song_url: copy_url(&self.song_url),
            artist_url: copy_url(&self.artist_url),
            album_url: copy_url(&self.album_url),
            artwork_url: copy_url(&self.artwork_url),
        }
    }

    /// A catalog entry with nothing in it.
    pub fn empty() -> (c: Self)
        ensures
            c.song_url is None,
            c.artist_url is None,
            c.album_url is None,
            c.artwork_url is None,
    {
        CatalogInfo { song_url: None, artist_url: None, album_url: None, artwork_url: None }
    }
}

impl Default for CatalogInfo {
    fn default() -> (c: Self)
        ensures
            c.song_url is None,
            c.artist_url is None,
            c.album_url is None,
            c.artwork_url is None,
    {
        CatalogInfo::empty()
    }
}

/// What Apple Music is doing right now. There is one player, so this is the
/// whole of the app's music-side state.
#[derive(Debug, Clone)]
pub struct MusicState {
    pub running: bool,
    pub player_state: PlayerState,
    pub track: Option<TrackInfo>,
    pub catalog: Option<CatalogInfo>,
    /// The `TrackInfo::identity` a catalog lookup has already been asked for.
    pub catalog_requested_for: Option<String>,
    /// When a lookup that failed outright may be tried again, in the same
    /// milliseconds as every other deadline.
    pub catalog_retry_at: Option<u64>,
}

impl MusicState {
    /// Nothing running, nothing known.
    pub fn new() -> (s: Self)
        ensures
            !s.running,
            s.player_state == PlayerState::Stopped,
            s.track is None,
            s.catalog is None,
            s.catalog_requested_for is None,
            s.catalog_retry_at is None,
    {
        MusicState {
            running: false,
            player_state: PlayerState::Stopped,
            track: None,
            catalog: None,
            catalog_requested_for: None,
            catalog_retry_at: None,
        }
    }

    /// Whether there is something to put on Discord: running, with a track,
    /// and not stopped. A paused player still counts.
    pub open spec fn displayable(&self) -> bool {
        self.running && self.track is Some && self.player_state != PlayerState::Stopped
    }

    pub fn is_displayable(&self) -> (b: bool)
        ensures
            b == self.displayable(),
    {
        self.running && self.track.is_some() && self.player_state != PlayerState::Stopped
    }

    /// Wipes the catalog back to "nothing known", request guard included.
    pub fn clear_catalog(&mut self)
        ensures
            final(self).catalog is None,
            final(self).catalog_requested_for is None,
            final(self).catalog_retry_at is None,
            final(self).running == old(self).running,
            final(self).player_state == old(self).player_state,
            final(self).track == old(self).track,
    {
        self.catalog = None;
        self.catalog_requested_for = None;
        self.catalog_retry_at = None;
    }
}

impl Default for MusicState {
    fn default() -> (s: Self)
        ensures
            !s.running,
            s.player_state == PlayerState::Stopped,
            s.track is None,
            s.catalog is None,
            s.catalog_requested_for is None,
            s.catalog_retry_at is None,
    {
        MusicState::new()
    }
}

} // verus!
