//! What a player and the loop that drives it say to each other.
//!
//! A player never waits and never looks at a clock. The loop around it polls
//! the window, hands the events to the player's `step`, sleeps as long as the
//! outcome says, and tells the player how long the turn took.

use vstd::prelude::*;
use crate::gui::{CosineSample, Event};

verus! {

/// Nanoseconds between two turns while nothing is due: five milliseconds.
pub const SLEEP_INTERVAL: u64 = 5_000_000;

/// What a step of a player leaves for the loop to do.
#[derive(Debug, Clone, Copy, PartialEq, Eq, Structural)]
pub enum Outcome {
    /// The piece is over, or the program was told to stop.
    Finished,
    /// The program is paused: sleep, and credit no time.
    Paused { sleep: u64 },
    /// The piece goes on: sleep, then credit the time that the turn took.
    Playing { sleep: u64 },
}

/// What the outside world supplies in one turn of a recorded session.
#[derive(Debug)]
pub struct Input {
    /// What the window reported at the start of the turn.
    pub events: Vec<Event>,
    /// Nanoseconds from the start of the turn to the end of its sleep.
    pub elapsed: u64,
    /// The rows of a cosine wave, should the turn call for one.
    pub samples: Vec<CosineSample>,
}

} // verus!
