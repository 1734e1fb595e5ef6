//! Core logic of a community-chat moderation service: a message classifier,
//! a per-user warning ledger with automatic escalation, a per-channel
//! scheduled-cleanup countdown, and an in-memory batching aggregator for
//! activity credit (XP) with level computation.
//!
//! All state machines and computations live here, verified; the surrounding
//! process (platform gateway, persistent store, terminal) consumes them
//! through plain values.

pub mod classify;
pub mod cleaner;
mod clock;
pub mod config;
pub mod dispatch;
pub mod ledger;
pub mod levels;
pub mod records;
pub mod text;
pub mod utils;
pub mod violation;
pub mod xp;
