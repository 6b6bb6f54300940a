//! The Rich Presence activity Discord is sent, built from the track, the
//! player state, the catalog entry and the settings.
//!
//! Discord requires string fields to be 2–128 characters, at most two buttons
//! with labels of at most 32 characters and http(s) urls of at most 512.

use crate::portable::format_time::{format_millis, formatted};
use crate::portable::models::{CatalogInfo, PlayerState, TrackInfo};
use crate::portable::text::{drop_trailing_joiners, ZWJ};
use crate::portable::settings_model::{
    badge_raw_value, BadgeLabelType, ButtonSlot, LinkType, Settings,
};
use crate::strings::{
    chars_of, eq_ignore_ascii_case, chars_eq_ignore_ascii_case, char_is_control, char_is_whitespace, is_control, is_whitespace, position_of, push_char, push_str, slice_chars, string_from, to_owned_string, contains_char,
};
use vstd::prelude::*;

verus! {

pub const MIN_FIELD_CHARS: usize = 2;
pub const MAX_FIELD_CHARS: usize = 128;
pub const MAX_BUTTON_LABEL_CHARS: usize = 32;
pub const MAX_BUTTON_URL_CHARS: usize = 512;

/// Padding uses the braille blank (U+2800) rather than a space, which Discord
/// would trim away.
pub const PAD_CHAR: char = '\u{2800}';

/// Drift allowed between two builds of the same unchanged playback before
/// they count as different.
pub const TIMESTAMP_DRIFT_MS: i64 = 2000;

/// Discord's "Listening" activity type.
pub const LISTENING: i64 = 2;

#[derive(Debug, Clone)]
pub struct Assets {
    pub large_image: String,
    pub large_text: Option<String>,
}

#[derive(Debug, Clone, Copy, PartialEq, Eq, Structural)]
pub struct Timestamps {
    /// Epoch milliseconds at which the track started.
    pub start: i64,
    /// Epoch milliseconds at which it will end.
    pub end: i64,
}

#[derive(Debug, Clone)]
pub struct ActivityButton {
    pub label: String,
    pub url: String,
}

/// One activity, field for field as Discord receives it. Absent optional
/// fields, and an empty button list, are left out of what is sent.
#[derive(Debug, Clone)]
pub struct Activity {
    pub activity_type: i64,
    pub details: String,
    pub state: String,
    pub assets: Option<Assets>,
    pub status_display_type: i64,
    pub timestamps: Option<Timestamps>,
    pub buttons: Vec<ActivityButton>,
}

pub struct AssetsView {
    pub large_image: Seq<char>,
    pub large_text: Option<Seq<char>>,
}

pub struct ButtonView {
    pub label: Seq<char>,
    pub url: Seq<char>,
}

/// An activity as characters and numbers.
pub struct ActivityView {
    pub activity_type: i64,
    pub details: Seq<char>,
    pub state: Seq<char>,
    pub assets: Option<AssetsView>,
    pub status_display_type: i64,
    pub timestamps: Option<Timestamps>,
    pub buttons: Seq<ButtonView>,
}

pub open spec fn opt_view(o: Option<String>) -> Option<Seq<char>> {
    match o {
        Some(s) => Some(s@),
        None => None,
    }
}

pub open spec fn assets_view(a: Option<Assets>) -> Option<AssetsView> {
    match a {
        Some(a) => Some(AssetsView { large_image: a.large_image@, large_text: opt_view(a.large_text) }),
        None => None,
    }
}

pub open spec fn buttons_view(b: Seq<ActivityButton>) -> Seq<ButtonView> {
    b.map_values(|x: ActivityButton| ButtonView { label: x.label@, url: x.url@ })
}

impl View for Activity {
    type V = ActivityView;

    open spec fn view(&self) -> ActivityView {
        ActivityView {
            activity_type: self.activity_type,
            details: self.details@,
            state: self.state@,
            assets: assets_view(self.assets),
            status_display_type: self.status_display_type,
            timestamps: self.timestamps,
            buttons: buttons_view(self.buttons@),
        }
    }
}

// MARK: - Clamping

/// Whether `c` only exists as part of the character before it, as far as the
/// field clamp is concerned.
pub open spec fn is_field_continuation(c: char) -> bool {
    let u = c as u32;
    ||| u == 0x200D
    ||| u == 0xFE0E
    ||| u == 0xFE0F
    ||| 0x1F3FB <= u <= 0x1F3FF
    ||| 0x0300 <= u <= 0x036F
    ||| 0x20D0 <= u <= 0x20F0
    ||| 0xFE20 <= u <= 0xFE2F
    ||| 0xE0020 <= u <= 0xE007F
}

fn field_continuation(c: char) -> (b: bool)
    ensures
        b == is_field_continuation(c),
{
    let u = c as u32;
    u == 0x200D || u == 0xFE0E || u == 0xFE0F || (0x1F3FB <= u && u <= 0x1F3FF) || (0x0300 <= u
        && u <= 0x036F) || (0x20D0 <= u && u <= 0x20F0) || (0xFE20 <= u && u <= 0xFE2F) || (0xE0020
        <= u && u <= 0xE007F)
}

/// `h` with every trailing continuation removed.
pub open spec fn drop_trailing_field_continuations(h: Seq<char>) -> Seq<char>
    decreases h.len(),
{
    if h.len() > 0 && is_field_continuation(h.last()) {
        drop_trailing_field_continuations(h.drop_last())
    } else {
        h
    }
}

/// `s` padded with braille blanks to two characters.
pub open spec fn padded(s: Seq<char>) -> Seq<char> {
    if s.len() == 0 {
        seq![PAD_CHAR, PAD_CHAR]
    } else if s.len() == 1 {
        s.push(PAD_CHAR)
    } else {
        s
    }
}

/// A field as Discord gets it: at most 128 characters, less the tail of a
/// character the cut split (decided by whether the first character cut off
/// belonged to the one before it), less a joiner left at the end, and padded
/// to at least two.
pub open spec fn clamped(s: Seq<char>) -> Seq<char> {
    let cut = if s.len() > MAX_FIELD_CHARS {
        let head = s.subrange(0, MAX_FIELD_CHARS as int);
        let kept = if is_field_continuation(s[MAX_FIELD_CHARS as int]) {
            drop_trailing_field_continuations(head)
        } else {
            head
        };
        drop_trailing_joiners(kept)
    } else {
        s
    };
    padded(cut)
}

proof fn lemma_drop_field_continuations_len(h: Seq<char>)
    ensures
        drop_trailing_field_continuations(h).len() <= h.len(),
    decreases h.len(),
{
    if h.len() > 0 && is_field_continuation(h.last()) {
        lemma_drop_field_continuations_len(h.drop_last());
    }
}

proof fn lemma_drop_joiners_len(h: Seq<char>)
    ensures
        drop_trailing_joiners(h).len() <= h.len(),
    decreases h.len(),
{
    if h.len() > 0 && h.last() == ZWJ {
        lemma_drop_joiners_len(h.drop_last());
    }
}

/// Every clamped field holds between two and 128 characters.
pub proof fn lemma_clamped_length(s: Seq<char>)
    ensures
        MIN_FIELD_CHARS <= clamped(s).len() <= MAX_FIELD_CHARS,
        s.len() >= MIN_FIELD_CHARS && s.len() <= MAX_FIELD_CHARS ==> clamped(s) == s,
{
    if s.len() > MAX_FIELD_CHARS {
        let head = s.subrange(0, MAX_FIELD_CHARS as int);
        lemma_drop_field_continuations_len(head);
        let kept = if is_field_continuation(s[MAX_FIELD_CHARS as int]) {
            drop_trailing_field_continuations(head)
        } else {
            head
        };
        lemma_drop_joiners_len(kept);
    }
}

/// The clamp for a field Discord limits to 2–128 characters.
pub fn clamp(s: &str) -> (r: String)
    ensures
        r@ == clamped(s@),
{
    let chars = chars_of(s);
    let n = chars.len();
    let mut end: usize = n;
    if n > MAX_FIELD_CHARS {
        end = MAX_FIELD_CHARS;
        if field_continuation(chars[MAX_FIELD_CHARS]) {
            while end > 0 && field_continuation(chars[end - 1])
                invariant
                    end <= MAX_FIELD_CHARS < n,
                    n == chars@.len(),
                    chars@ == s@,
                    drop_trailing_field_continuations(s@.subrange(0, MAX_FIELD_CHARS as int))
                        == drop_trailing_field_continuations(s@.subrange(0, end as int)),
                decreases end,
            {
                proof {
                    assert(s@.subrange(0, end as int).drop_last() =~= s@.subrange(0, end - 1));
                }
                end = end - 1;
            }
            proof {
                let h = s@.subrange(0, end as int);
                if end > 0 {
                    assert(h.last() == chars@[end - 1]);
                }
            }
        }
        let ghost kept = s@.subrange(0, end as int);
        while end > 0 && chars[end - 1] == ZWJ
            invariant
                end <= MAX_FIELD_CHARS < n,
                n == chars@.len(),
                chars@ == s@,
                drop_trailing_joiners(kept) == drop_trailing_joiners(s@.subrange(0, end as int)),
            decreases end,
        {
            proof {
                assert(s@.subrange(0, end as int).drop_last() =~= s@.subrange(0, end - 1));
            }
            end = end - 1;
        }
        proof {
            let h = s@.subrange(0, end as int);
            if end > 0 {
                assert(h.last() == chars@[end - 1]);
            }
        }
    } else {
        proof {
            assert(s@.subrange(0, n as int) =~= s@);
        }
    }
    let kept = slice_chars(chars.as_slice(), 0, end);
    let mut out = string_from(kept.as_slice());
    if end == 0 {
        push_char(&mut out, PAD_CHAR);
        push_char(&mut out, PAD_CHAR);
    } else if end == 1 {
        push_char(&mut out, PAD_CHAR);
    }
    proof {
        assert(out@ =~= clamped(s@));
    }
    out
}

// MARK: - Buttons

/// What `is_valid_button_url` accepts: at most 512 characters, no whitespace
/// or control characters, and a scheme of `http` or `https` in any case.
pub open spec fn valid_button_url(s: Seq<char>) -> bool {
    &&& s.len() <= MAX_BUTTON_URL_CHARS
    &&& forall|i: int| 0 <= i < s.len() ==> !is_whitespace(#[trigger] s[i]) && !is_control(s[i])
    &&& contains_char(s, ':')
    &&& ({
        let colon = choose|i: int| 0 <= i < s.len() && s[i] == ':' && forall|j: int| 0 <= j < i ==> s[j] != ':';
        let scheme = s.subrange(0, colon);
        scheme.len() > 0 && (eq_ignore_ascii_case(scheme, "http"@) || eq_ignore_ascii_case(scheme, "https"@))
    })
}

/// Whether Discord will render a button pointing at `string`.
pub fn is_valid_button_url(string: &str) -> (r: bool)
    ensures
        r == valid_button_url(string@),
{
    let chars = chars_of(string);
    if chars.len() > MAX_BUTTON_URL_CHARS {
        return false;
    }
    let mut i: usize = 0;
    while i < chars.len()
        invariant
            i <= chars@.len(),
            chars@ == string@,
            forall|j: int| 0 <= j < i ==> !is_whitespace(#[trigger] chars@[j]) && !is_control(chars@[j]),
        decreases chars@.len() - i,
    {
        if char_is_whitespace(chars[i]) || char_is_control(chars[i]) {
            return false;
        }
        i = i + 1;
    }
    let colon = match position_of(chars.as_slice(), ':') {
        None => return false,
        Some(c) => c,
    };
    proof {
        let s = string@;
        let chosen = choose|i: int| 0 <= i < s.len() && s[i] == ':' && forall|j: int| 0 <= j < i ==> s[j] != ':';
        assert(0 <= colon < s.len() && s[colon as int] == ':' && forall|j: int| 0 <= j < colon ==> s[j] != ':');
        if chosen < colon {
            assert(s[chosen] == ':');
        }
        if colon < chosen {
            assert(s[colon as int] == ':');
        }
        assert(chosen == colon);
    }
    if colon == 0 {
        return false;
    }
    let scheme = slice_chars(chars.as_slice(), 0, colon);
    let http = chars_of("http");
    let https = chars_of("https");
    chars_eq_ignore_ascii_case(scheme.as_slice(), http.as_slice()) || chars_eq_ignore_ascii_case(
        scheme.as_slice(),
        https.as_slice(),
    )
}

/// Where a button of type `link` points, if anywhere: a catalog link the
/// catalog may not have, or one of the two urls the settings hold.
pub open spec fn resolved_url(link: LinkType, catalog: Option<CatalogInfo>, settings: Settings) -> Option<Seq<char>> {
    match link {
        LinkType::Song => match catalog { Some(c) => opt_view(c.song_url), None => None },
        LinkType::Artist => match catalog { Some(c) => opt_view(c.artist_url), None => None },
        LinkType::Album => match catalog { Some(c) => opt_view(c.album_url), None => None },
        LinkType::Custom => Some(settings.custom_url@),
        LinkType::Repository => Some(settings.repository_url@),
        LinkType::Disabled => None,
    }
}

pub(crate) fn clone_opt(o: &Option<String>) -> (r: Option<String>)
    ensures
        opt_view(r) == opt_view(*o),
{
    match o {
        Some(s) => Some(s.clone()),
        None => None,
    }
}

/// A button whose catalog url could not be resolved is dropped rather than
/// falling back to something else.
pub fn resolve_url(link: LinkType, catalog: Option<&CatalogInfo>, settings: &Settings) -> (r: Option<String>)
    ensures
        opt_view(r) == resolved_url(link, match catalog { Some(c) => Some(*c), None => None }, *settings),
{
    match link {
        LinkType::Song => match catalog { Some(c) => clone_opt(&c.song_url), None => None },
        LinkType::Artist => match catalog { Some(c) => clone_opt(&c.artist_url), None => None },
        LinkType::Album => match catalog { Some(c) => clone_opt(&c.album_url), None => None },
        LinkType::Custom => Some(settings.custom_url.clone()),
        LinkType::Repository => Some(settings.repository_url.clone()),
        LinkType::Disabled => None,
    }
}

/// A button's label: "Link" when blank, otherwise at most its first 32
/// characters.
pub open spec fn button_label_text(label: Seq<char>) -> Seq<char> {
    if label.len() == 0 {
        "Link"@
    } else if label.len() > MAX_BUTTON_LABEL_CHARS {
        label.subrange(0, MAX_BUTTON_LABEL_CHARS as int)
    } else {
        label
    }
}

/// The button `slot` would contribute on its own: none for a disabled one, an
/// unresolved link or an invalid url.
pub open spec fn candidate_button(slot: ButtonSlot, catalog: Option<CatalogInfo>, settings: Settings) -> Option<ButtonView> {
    let link = settings.link_of(slot);
    if link == LinkType::Disabled {
        None
    } else {
        match resolved_url(link, catalog, settings) {
            None => None,
            Some(url) => if valid_button_url(url) {
                Some(ButtonView { label: button_label_text(settings.label_of(slot)), url })
            } else {
                None
            },
        }
    }
}

/// At most two buttons, in slot order, the second dropped when it points
/// where the first does.
pub open spec fn built_buttons(catalog: Option<CatalogInfo>, settings: Settings) -> Seq<ButtonView> {
    let one = candidate_button(ButtonSlot::One, catalog, settings);
    let two = candidate_button(ButtonSlot::Two, catalog, settings);
    let first: Seq<ButtonView> = match one { Some(b) => seq![b], None => seq![] };
    match two {
        Some(b) => if one matches Some(a) && a.url == b.url { first } else { first.push(b) },
        None => first,
    }
}

fn label_text(label: &str) -> (r: String)
    ensures
        r@ == button_label_text(label@),
{
    let chars = chars_of(label);
    if chars.len() == 0 {
        to_owned_string("Link")
    } else if chars.len() > MAX_BUTTON_LABEL_CHARS {
        let head = slice_chars(chars.as_slice(), 0, MAX_BUTTON_LABEL_CHARS);
        string_from(head.as_slice())
    } else {
        to_owned_string(label)
    }
}

fn button_for(slot: ButtonSlot, catalog: Option<&CatalogInfo>, settings: &Settings) -> (r: Option<ActivityButton>)
    ensures
        match r {
            Some(b) => candidate_button(slot, match catalog { Some(c) => Some(*c), None => None }, *settings) == Some(ButtonView { label: b.label@, url: b.url@ }),
            None => candidate_button(slot, match catalog { Some(c) => Some(*c), None => None }, *settings) is None,
        },
{
    let link = settings.button_type(slot);
    if link == LinkType::Disabled {
        return None;
    }
    let url = match resolve_url(link, catalog, settings) {
        None => return None,
        Some(u) => u,
    };
    if !is_valid_button_url(url.as_str()) {
        return None;
    }
    let label = settings.button_label(slot);
    Some(ActivityButton { label: label_text(label.as_str()), url })
}

/// Discord allows at most 2 buttons, labels ≤ 32 chars, urls ≤ 512 chars.
pub fn build_buttons(catalog: Option<&CatalogInfo>, settings: &Settings) -> (r: Vec<ActivityButton>)
    ensures
        buttons_view(r@) == built_buttons(match catalog { Some(c) => Some(*c), None => None }, *settings),
{
    let one = button_for(ButtonSlot::One, catalog, settings);
    let two = button_for(ButtonSlot::Two, catalog, settings);
    let mut out: Vec<ActivityButton> = Vec::new();
    let first_url = match &one {
        Some(b) => Some(b.url.clone()),
        None => None,
    };
    match one {
        Some(b) => out.push(b),
        None => {},
    }
    match two {
        Some(b) => {
            let duplicate = match &first_url {
                Some(u) => *u == b.url,
                None => false,
            };
            if !duplicate {
                out.push(b);
            }
        },
        None => {},
    }
    proof {
        let cat = match catalog { Some(c) => Some(*c), None => None };
        assert(buttons_view(out@) =~= built_buttons(cat, *settings));
    }
    out
}

// MARK: - The whole activity

/// The pause label: where playback stopped, when that is known.
pub open spec fn pause_label_of(track: TrackInfo, state: PlayerState) -> Option<Seq<char>> {
    if state == PlayerState::Paused {
        Some(match track.position_ms {
            Some(p) => "⏸ Paused at "@ + formatted(p as int),
            None => "⏸ Paused"@,
        })
    } else {
        None
    }
}

/// Track name, or a stand-in when the player reported none.
pub open spec fn shown_name(track: TrackInfo) -> Seq<char> {
    if track.name@.len() == 0 { "Unknown Track"@ } else { track.name@ }
}

pub open spec fn shown_artist(track: TrackInfo) -> Seq<char> {
    if track.artist@.len() == 0 { "Unknown Artist"@ } else { track.artist@ }
}

/// `v` as an `i64`, saturating at either end the way a float cast does.
pub open spec fn saturate(v: int) -> i64 {
    if v < i64::MIN { i64::MIN } else if v > i64::MAX { i64::MAX } else { v as i64 }
}

/// The progress bar: only while playing, with a position and a positive
/// duration. The position is corrected for the time since it was sampled, so
/// a re-send does not rewind the bar, and held at the end once it has run
/// past it, so a player reporting a too-short duration still shows a bar
/// pinned at the end.
pub open spec fn built_timestamps(track: TrackInfo, state: PlayerState, now_ms: u64) -> Option<Timestamps> {
    if state == PlayerState::Playing && track.position_ms is Some && track.duration_ms is Some
        && track.duration_ms->0 > 0 {
        let current = current_position(track, now_ms);
        let start = now_ms - current;
        Some(Timestamps { start: saturate(start), end: saturate(start + track.duration_ms->0) })
    } else {
        None
    }
}

/// Where playback is at `now_ms`: the sampled position plus the time since
/// the sample (none if the clock reads earlier), held at the duration.
pub open spec fn current_position(track: TrackInfo, now_ms: u64) -> int {
    let elapsed: int = if now_ms >= track.position_sampled_at_ms {
        now_ms - track.position_sampled_at_ms
    } else {
        0
    };
    let reached = track.position_ms->0 + elapsed;
    if reached < track.duration_ms->0 {
        reached
    } else {
        track.duration_ms->0 as int
    }
}

/// Everything but the buttons and timestamps: the rows, the artwork, and the
/// badge, which falls back from the artist to the app name when the pause
/// label had to go on the artist row.
pub open spec fn built(
    track: TrackInfo,
    state: PlayerState,
    catalog: Option<CatalogInfo>,
    settings: Settings,
    now_ms: u64,
) -> ActivityView {
    let pause = pause_label_of(track, state);
    let artwork = match catalog { Some(c) => opt_view(c.artwork_url), None => None };
    let artist = shown_artist(track);
    let (state_row, assets, badge) = match artwork {
        Some(art) => {
            let text = match pause {
                Some(p) => if track.album@.len() == 0 { p } else { track.album@ + " · "@ + p },
                None => track.album@,
            };
            let large_text = if text.len() == 0 { None } else { Some(clamped(text)) };
            (clamped(artist), Some(AssetsView { large_image: art, large_text }), settings.badge_label)
        },
        None => match pause {
            Some(p) => (
                clamped(p + " · "@ + artist),
                None,
                if settings.badge_label == BadgeLabelType::Artist { BadgeLabelType::AppName } else { settings.badge_label },
            ),
            None => (clamped(artist), None, settings.badge_label),
        },
    };
    ActivityView {
        activity_type: LISTENING,
        details: clamped(shown_name(track)),
        state: state_row,
        assets,
        status_display_type: badge_raw_value(badge),
        timestamps: built_timestamps(track, state, now_ms),
        buttons: built_buttons(catalog, settings),
    }
}

fn concat3(a: &str, b: &str, c: &str) -> (r: String)
    ensures
        r@ == a@ + b@ + c@,
{
    let mut out = to_owned_string(a);
    push_str(&mut out, b);
    push_str(&mut out, c);
    out
}

fn pause_label(track: &TrackInfo, state: PlayerState) -> (r: Option<String>)
    ensures
        opt_view(r) == pause_label_of(*track, state),
{
    if state == PlayerState::Paused {
        match track.position_ms {
            Some(p) => {
                let time = format_millis(p);
                let mut out = to_owned_string("⏸ Paused at ");
                push_str(&mut out, time.as_str());
                Some(out)
            },
            None => Some(to_owned_string("⏸ Paused")),
        }
    } else {
        None
    }
}

fn timestamps(track: &TrackInfo, state: PlayerState, now_ms: u64) -> (r: Option<Timestamps>)
    ensures
        r == built_timestamps(*track, state, now_ms),
{
    if state != PlayerState::Playing {
        return None;
    }
    let (position, duration) = match (track.position_ms, track.duration_ms) {
        (Some(p), Some(d)) => (p, d),
        _ => return None,
    };
    if duration == 0 {
        return None;
    }
    let elapsed: u64 = if now_ms >= track.position_sampled_at_ms {
        now_ms - track.position_sampled_at_ms
    } else {
        0
    };
    let reached: u128 = position as u128 + elapsed as u128;
    let current: u128 = if reached < duration as u128 {
        reached
    } else {
        duration as u128
    };
    let start: i128 = now_ms as i128 - current as i128;
    let end: i128 = start + duration as i128;
    Some(Timestamps { start: saturate_i128(start), end: saturate_i128(end) })
}

fn saturate_i128(v: i128) -> (r: i64)
    ensures
        r == saturate(v as int),
{
    if v < i64::MIN as i128 {
        i64::MIN
    } else if v > i64::MAX as i128 {
        i64::MAX
    } else {
        v as i64
    }
}

fn clone_string(s: &String) -> (r: String)
    ensures
        r@ == s@,
{
    s.clone()
}

/// Builds the activity for `track` as of `now_ms` (Unix milliseconds).
pub fn build(
    track: &TrackInfo,
    player_state: PlayerState,
    catalog: Option<&CatalogInfo>,
    settings: &Settings,
    now_ms: u64,
) -> (r: Activity)
    ensures
        r@ == built(*track, player_state, match catalog { Some(c) => Some(*c), None => None }, *settings, now_ms),
{
    let ghost cat = match catalog { Some(c) => Some(*c), None => None };
    let name_empty = track.name.as_str().unicode_len() == 0;
    let details = if name_empty {
        clamp("Unknown Track")
    } else {
        clamp(track.name.as_str())
    };
    let artist = if track.artist.as_str().unicode_len() == 0 {
        to_owned_string("Unknown Artist")
    } else {
        clone_string(&track.artist)
    };
    let pause = pause_label(track, player_state);
    let artwork: Option<String> = match catalog {
        Some(c) => clone_opt(&c.artwork_url),
        None => None,
    };
    let mut badge = settings.badge_label;
    let state_row;
    let assets;
    match artwork {
        Some(art) => {
            let text = match &pause {
                Some(p) => if track.album.as_str().unicode_len() == 0 {
                    clone_string(p)
                } else {
                    concat3(track.album.as_str(), " · ", p.as_str())
                },
                None => clone_string(&track.album),
            };
            let large_text = if text.as_str().unicode_len() == 0 {
                None
            } else {
                Some(clamp(text.as_str()))
            };
            state_row = clamp(artist.as_str());
            assets = Some(Assets { large_image: art, large_text });
        },
        None => match &pause {
            Some(p) => {
                let row = concat3(p.as_str(), " · ", artist.as_str());
                state_row = clamp(row.as_str());
                assets = None;
                if badge == BadgeLabelType::Artist {
                    badge = BadgeLabelType::AppName;
                }
            },
            None => {
                state_row = clamp(artist.as_str());
                assets = None;
            },
        },
    }
    let activity = Activity {
        activity_type: LISTENING,
        details,
        state: state_row,
        assets,
        status_display_type: badge.raw_value(),
        timestamps: timestamps(track, player_state, now_ms),
        buttons: build_buttons(catalog, settings),
    };
    proof {
        assert(activity@ == built(*track, player_state, cat, *settings, now_ms));
    }
    activity
}

// MARK: - Equivalence

/// Two readings of the progress bar that Discord would draw the same: both
/// absent, or both present with each end within the drift window.
pub open spec fn timestamps_close(a: Option<Timestamps>, b: Option<Timestamps>) -> bool {
    match (a, b) {
        (None, None) => true,
        (Some(x), Some(y)) => -TIMESTAMP_DRIFT_MS <= x.start - y.start <= TIMESTAMP_DRIFT_MS
            && -TIMESTAMP_DRIFT_MS <= x.end - y.end <= TIMESTAMP_DRIFT_MS,
        _ => false,
    }
}

/// Whether Discord would render these two activities the same way: every
/// field equal, except that the timestamps may drift by the window.
pub open spec fn equivalent(a: ActivityView, b: ActivityView) -> bool {
    &&& a.activity_type == b.activity_type
    &&& a.details == b.details
    &&& a.state == b.state
    &&& a.assets == b.assets
    &&& a.status_display_type == b.status_display_type
    &&& a.buttons == b.buttons
    &&& timestamps_close(a.timestamps, b.timestamps)
}

fn opt_str_eq(a: &Option<String>, b: &Option<String>) -> (r: bool)
    ensures
        r == (opt_view(*a) == opt_view(*b)),
{
    match (a, b) {
        (Some(x), Some(y)) => *x == *y,
        (None, None) => true,
        _ => false,
    }
}

fn assets_eq(a: &Option<Assets>, b: &Option<Assets>) -> (r: bool)
    ensures
        r == (assets_view(*a) == assets_view(*b)),
{
    match (a, b) {
        (Some(x), Some(y)) => x.large_image == y.large_image && opt_str_eq(&x.large_text, &y.large_text),
        (None, None) => true,
        _ => false,
    }
}

fn buttons_eq(a: &Vec<ActivityButton>, b: &Vec<ActivityButton>) -> (r: bool)
    ensures
        r == (buttons_view(a@) == buttons_view(b@)),
{
    if a.len() != b.len() {
        proof {
            assert(buttons_view(a@).len() != buttons_view(b@).len());
        }
        return false;
    }
    let mut i: usize = 0;
    while i < a.len()
        invariant
            a@.len() == b@.len(),
            i <= a@.len(),
            forall|j: int| 0 <= j < i ==> #[trigger] buttons_view(a@)[j] == buttons_view(b@)[j],
        decreases a@.len() - i,
    {
        if !(a[i].label == b[i].label && a[i].url == b[i].url) {
            proof {
                assert(buttons_view(a@)[i as int] != buttons_view(b@)[i as int]);
            }
            return false;
        }
        i = i + 1;
    }
    proof {
        assert(buttons_view(a@) =~= buttons_view(b@));
    }
    true
}

fn within_drift(a: i64, b: i64) -> (r: bool)
    ensures
        r == (-TIMESTAMP_DRIFT_MS <= a - b <= TIMESTAMP_DRIFT_MS),
{
    let d: i128 = a as i128 - b as i128;
    -(TIMESTAMP_DRIFT_MS as i128) <= d && d <= TIMESTAMP_DRIFT_MS as i128
}

/// Whether Discord would render these two activities the same way.
pub fn is_equivalent(a: &Activity, b: &Activity) -> (r: bool)
    ensures
        r == equivalent(a@, b@),
{
    let stamps = match (a.timestamps, b.timestamps) {
        (None, None) => true,
        (Some(x), Some(y)) => within_drift(x.start, y.start) && within_drift(x.end, y.end),
        _ => false,
    };
    a.activity_type == b.activity_type && a.details == b.details && a.state == b.state && assets_eq(
        &a.assets,
        &b.assets,
    ) && a.status_display_type == b.status_display_type && buttons_eq(&a.buttons, &b.buttons)
        && stamps
}

/// Equivalence forgives only the progress bar: two activities equivalent to
/// each other agree on the type, both rows, the artwork and its caption, the
/// badge and the buttons, and their bars are both absent or both present
/// with each end within the drift window. So artwork that arrives later, or
/// a changed caption, is always sent.
pub proof fn lemma_equivalence_forgives_only_the_timestamps(a: ActivityView, b: ActivityView)
    ensures
        equivalent(a, b) ==> {
            &&& a.activity_type == b.activity_type
            &&& a.details == b.details
            &&& a.state == b.state
            &&& a.assets == b.assets
            &&& a.status_display_type == b.status_display_type
            &&& a.buttons == b.buttons
            &&& (a.timestamps is Some <==> b.timestamps is Some)
            &&& a.timestamps matches Some(x) ==> {
                let y = b.timestamps->0;
                &&& x.start - y.start <= TIMESTAMP_DRIFT_MS
                &&& y.start - x.start <= TIMESTAMP_DRIFT_MS
                &&& x.end - y.end <= TIMESTAMP_DRIFT_MS
                &&& y.end - x.end <= TIMESTAMP_DRIFT_MS
            }
        },
        a.assets != b.assets ==> !equivalent(a, b),
{
}

/// The url slot `slot` links to, if its button renders at all: not
/// disabled, resolved, and a url Discord accepts.
pub open spec fn slot_link(slot: ButtonSlot, catalog: Option<CatalogInfo>, settings: Settings) -> Option<Seq<char>> {
    if settings.link_of(slot) == LinkType::Disabled {
        None
    } else {
        match resolved_url(settings.link_of(slot), catalog, settings) {
            Some(url) => if valid_button_url(url) {
                Some(url)
            } else {
                None
            },
            None => None,
        }
    }
}

/// Each button keeps its own slot's label: every button of a built activity
/// is one slot's link under that slot's label text, slot One's first, no two
/// with the same url, at most two. Slot One's button is there whenever its
/// link renders, and slot Two's whenever its link renders and differs from
/// slot One's, labelled with slot Two's label whatever slot One's says.
pub proof fn lemma_each_button_keeps_its_slots_label(
    track: TrackInfo,
    state: PlayerState,
    catalog: Option<CatalogInfo>,
    settings: Settings,
    now_ms: u64,
)
    ensures
        ({
            let buttons = built(track, state, catalog, settings, now_ms).buttons;
            let one = slot_link(ButtonSlot::One, catalog, settings);
            let two = slot_link(ButtonSlot::Two, catalog, settings);
            let label_one = button_label_text(settings.label_of(ButtonSlot::One));
            let label_two = button_label_text(settings.label_of(ButtonSlot::Two));
            &&& buttons.len() <= 2
            &&& forall|i: int|
                0 <= i < buttons.len() ==> (one == Some(#[trigger] buttons[i].url) && buttons[i].label == label_one)
                    || (two == Some(buttons[i].url) && buttons[i].label == label_two)
            &&& buttons.len() == 2 ==> buttons[0].url != buttons[1].url
            &&& one matches Some(u) ==> buttons.len() > 0 && buttons[0] == (ButtonView { label: label_one, url: u })
            &&& two matches Some(u) ==> (one != Some(u) ==> buttons.len() > 0 && buttons.last() == (ButtonView {
                label: label_two,
                url: u,
            }))
        }),
{
}

/// Equivalence is reflexive and symmetric.
pub proof fn lemma_equivalence_is_reflexive_and_symmetric(a: ActivityView, b: ActivityView)
    ensures
        equivalent(a, a),
        equivalent(a, b) == equivalent(b, a),
{
}

/// Rebuilding unchanged playback later gives an equivalent activity: the
/// derived start does not move while the position advances with the clock,
/// as long as the track has not run past its end at either time.
pub proof fn lemma_rebuild_is_equivalent(
    track: TrackInfo,
    catalog: Option<CatalogInfo>,
    settings: Settings,
    now1: u64,
    now2: u64,
)
    requires
        track.position_sampled_at_ms <= now1,
        track.position_sampled_at_ms <= now2,
        built_timestamps(track, PlayerState::Playing, now1) is Some,
        track.position_ms->0 + (now1 - track.position_sampled_at_ms) < track.duration_ms->0,
        track.position_ms->0 + (now2 - track.position_sampled_at_ms) < track.duration_ms->0,
    ensures
        equivalent(
            built(track, PlayerState::Playing, catalog, settings, now1),
            built(track, PlayerState::Playing, catalog, settings, now2),
        ),
{
}

/// A seek further than the drift window is not equivalent to where playback
/// was: the same track, playing, read at the same moment with positions more
/// than two seconds apart.
pub proof fn lemma_seek_is_not_equivalent(
    track: TrackInfo,
    seeked: TrackInfo,
    catalog: Option<CatalogInfo>,
    settings: Settings,
    now: u64,
)
    requires
        seeked.name == track.name,
        seeked.artist == track.artist,
        seeked.album == track.album,
        seeked.duration_ms == track.duration_ms,
        seeked.position_sampled_at_ms == track.position_sampled_at_ms,
        track.position_sampled_at_ms <= now,
        now <= i64::MAX,
        track.duration_ms->0 <= i64::MAX,
        built_timestamps(track, PlayerState::Playing, now) is Some,
        built_timestamps(seeked, PlayerState::Playing, now) is Some,
        track.position_ms->0 + (now - track.position_sampled_at_ms) < track.duration_ms->0,
        seeked.position_ms->0 + (now - seeked.position_sampled_at_ms) < seeked.duration_ms->0,
        track.position_ms->0 - seeked.position_ms->0 > TIMESTAMP_DRIFT_MS
            || seeked.position_ms->0 - track.position_ms->0 > TIMESTAMP_DRIFT_MS,
    ensures
        !equivalent(
            built(track, PlayerState::Playing, catalog, settings, now),
            built(seeked, PlayerState::Playing, catalog, settings, now),
        ),
{
    let a = built_timestamps(track, PlayerState::Playing, now)->0;
    let b = built_timestamps(seeked, PlayerState::Playing, now)->0;
    assert(a.start - b.start == seeked.position_ms->0 - track.position_ms->0);
}

} // verus!
