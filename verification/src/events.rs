//! What the control loop is fed: key presses and ticks.

use crate::span::{Span, NANOS_PER_MILLI};
use vstd::prelude::*;

verus! {

/// Milliseconds between two ticks.
pub const TICK_MILLIS: u64 = 250;

/// One event of the merged stream that drives the player.
pub enum Event<I> {
    /// The user pressed a key.
    Input(I),
    /// One tick period has passed.
    Tick,
}

/// How the event pump is set up.
#[derive(Debug, Clone, Copy)]
pub struct Config {
    pub tick_rate: Span,
}

impl Default for Config {
    /// Ticks come every `TICK_MILLIS` milliseconds.
    fn default() -> (config: Config)
        ensures
            config.tick_rate.nanos == TICK_MILLIS * NANOS_PER_MILLI,
    {
        Config { tick_rate: Span::from_millis(TICK_MILLIS) }
    }
}

} // verus!
