//! The disabled info rows at the top of the tray menu, also logged.
use crate::portable::apple_music;
use crate::portable::i18n::{pick, AppLanguage};
use crate::portable::models::{ConnState, MusicState, PlayerState, TrackInfo};
use crate::strings::{push_str, to_owned_string};
use vstd::prelude::*;

verus! {

/// What the rows are built from. Borrowed, not owned: rebuilt on every pass
/// of the event loop.
#[derive(Debug, Clone)]
pub struct Input<'a> {
    pub music: &'a MusicState,
    pub discord_state: ConnState,
    pub language: AppLanguage,
}

/// The track as one line: "name — artist", or just the name without an
/// artist, or an en dash with no track at all.
pub open spec fn track_line_of(track: Option<TrackInfo>) -> Seq<char> {
    match track {
        None => "–"@,
        Some(t) => if t.artist@.len() == 0 {
            t.name@
        } else {
            t.name@ + " — "@ + t.artist@
        },
    }
}

/// The player's row.
pub open spec fn source_line_of(music: MusicState, lang: AppLanguage) -> Seq<char> {
    let name = "Apple Music"@;
    if !music.running {
        pick(lang, name + ": Not Running"@, name + ": 未起動"@)
    } else {
        match music.player_state {
            PlayerState::Stopped => pick(lang, name + ": Stopped"@, name + ": 停止中"@),
            PlayerState::Playing => "♪ "@ + name + ": "@ + track_line_of(music.track),
            PlayerState::Paused => "⏸ "@ + name + ": "@ + track_line_of(music.track),
        }
    }
}

/// Discord's row, always English.
pub open spec fn discord_line_of(music: MusicState, state: ConnState) -> Seq<char> {
    if !music.running {
        "Discord: Idle (connects when a player starts)"@
    } else {
        match state {
            ConnState::Connected => "Discord: Connected"@,
            ConnState::Connecting => "Discord: Connecting…"@,
            ConnState::Disconnected => "Discord: Disconnected (retrying)"@,
        }
    }
}

fn track_line(track: Option<&TrackInfo>) -> (r: String)
    ensures
        r@ == track_line_of(
            match track {
                Some(t) => Some(*t),
                None => None,
            },
        ),
{
    match track {
        None => to_owned_string("–"),
        Some(t) => {
            if t.artist.as_str().unicode_len() == 0 {
                t.name.clone()
            } else {
                let mut out = t.name.clone();
                push_str(&mut out, " — ");
                push_str(&mut out, t.artist.as_str());
                out
            }
        },
    }
}

fn joined(a: &str, b: &str) -> (r: String)
    ensures
        r@ == a@ + b@,
{
    let mut out = to_owned_string(a);
    push_str(&mut out, b);
    out
}

fn source_line(input: &Input) -> (r: String)
    ensures
        r@ == source_line_of(*input.music, input.language),
{
    let name = apple_music::DISPLAY_NAME;
    let s = input.music;
    if !s.running {
        return match input.language {
            AppLanguage::En => joined(name, ": Not Running"),
            AppLanguage::Ja => joined(name, ": 未起動"),
        };
    }
    match s.player_state {
        PlayerState::Stopped => match input.language {
            AppLanguage::En => joined(name, ": Stopped"),
            AppLanguage::Ja => joined(name, ": 停止中"),
        },
        PlayerState::Playing => {
            let mut out = joined("♪ ", name);
            push_str(&mut out, ": ");
            let line = track_line(s.track.as_ref());
            push_str(&mut out, line.as_str());
            out
        },
        PlayerState::Paused => {
            let mut out = joined("⏸ ", name);
            push_str(&mut out, ": ");
            let line = track_line(s.track.as_ref());
            push_str(&mut out, line.as_str());
            out
        },
    }
}

fn discord_line(input: &Input) -> (r: String)
    ensures
        r@ == discord_line_of(*input.music, input.discord_state),
{
    if !input.music.running {
        return to_owned_string("Discord: Idle (connects when a player starts)");
    }
    match input.discord_state {
        ConnState::Connected => to_owned_string("Discord: Connected"),
        ConnState::Connecting => to_owned_string("Discord: Connecting…"),
        ConnState::Disconnected => to_owned_string("Discord: Disconnected (retrying)"),
    }
}

/// The player's row, then Discord's.
pub fn lines(input: &Input) -> (r: Vec<String>)
    ensures
        r@.len() == 2,
        r@[0]@ == source_line_of(*input.music, input.language),
        r@[1]@ == discord_line_of(*input.music, input.discord_state),
{
    let mut out: Vec<String> = Vec::new();
    out.push(source_line(input));
    out.push(discord_line(input));
    out
}

} // verus!
