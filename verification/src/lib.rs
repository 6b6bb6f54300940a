//! Ceyrad: the decisions behind showing the track Apple Music is playing as a
//! Discord Rich Presence, with every rule stated as a contract.

pub mod catalog;
mod clock;
pub mod discord;
pub mod http;
pub mod launch_at_login;
pub mod numbers;
pub mod orchestrator;
pub mod portable;
pub mod smtc;
pub mod strings;
pub mod tray;
pub mod updater;
