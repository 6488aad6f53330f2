//! Weekly session scheduler: decides, once per polling tick, which actions
//! keep exactly one upcoming weekly event alive on a remote event store,
//! which reminders are due, and which stale events must be removed.

pub mod clock;
pub mod text;
pub mod tick;
