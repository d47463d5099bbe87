//! Verified core of a terminal audio player.
//!
//! The crate holds what the player decides: how a directory is listed
//! (`scanner`), how the listing is sorted (`order`, `text`), which key asks
//! for what (`keys`), and how the browser, the queue and the transport state
//! move with each command and each tick (`app`). It reads no directory and
//! drives no audio device; the program around it does, on the player's
//! `Command`s.

pub mod app;
pub mod events;
pub mod keys;
pub mod order;
pub mod scanner;
pub mod span;
pub mod text;
