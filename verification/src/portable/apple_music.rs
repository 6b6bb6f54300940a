//! The only supported player, and the constants that belong to it.
use vstd::prelude::*;

verus! {

/// Shown in the status rows and the log. Not the name Discord displays — that
/// one belongs to the Application behind `DISCORD_CLIENT_ID`.
pub const DISPLAY_NAME: &'static str = "Apple Music";

/// Discord shows "Listening to <Application name>", and this app's own
/// Application is named "Apple Music", so the id is fixed.
pub const DISCORD_CLIENT_ID: &'static str = "1525381518258606130";

} // verus!
