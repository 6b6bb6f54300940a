//! The notification-area side: menu labels and the prompt dialog's template.

pub mod dialog;
pub mod render;
