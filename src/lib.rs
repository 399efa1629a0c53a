//! Transport core and anti-cheat validator of a small multiplayer idle game:
//! per-peer rate limiting, payload compression, message framing, event
//! dispatch, and validation of game-state-changing player actions.

pub mod compression;
pub mod input_sanitization;
pub mod message;
pub mod network;
pub mod security;
pub mod utils;
