//! Which player the presence is about.
use crate::portable::models::{MusicState, PlayerState};
use vstd::prelude::*;

verus! {

/// The players a presence can be about. Apple Music is the only one.
#[derive(Debug, Clone, Copy, PartialEq, Eq, Structural)]
pub enum MusicSourceId {
    AppleMusic,
}

/// A player's state, as the selector reads it.
pub type SourceState = MusicState;

/// Apple Music is active whenever it is running, has a track, and is not
/// stopped: a paused source still counts, so the presence doesn't disappear
/// the moment playback is paused.
pub fn select_active_source(apple_music: &MusicState) -> (r: Option<MusicSourceId>)
    ensures
        r == if apple_music.displayable() {
            Some(MusicSourceId::AppleMusic)
        } else {
            None::<MusicSourceId>
        },
{
    let candidate = apple_music.running && apple_music.track.is_some() && apple_music.player_state
        != PlayerState::Stopped;
    if candidate {
        Some(MusicSourceId::AppleMusic)
    } else {
        None
    }
}

} // verus!
