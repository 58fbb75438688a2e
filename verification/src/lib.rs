//! Audio over a display's scanline timing.
//!
//! A display redraws its rows one after another at a fixed rate, and a radio
//! receiver next to it hears the rhythm of bright and dark rows as a tone.
//! This library turns a score into such frames: it reads the score, decides
//! which tones sound when, and computes the colour of every row of every
//! frame.
//!
//! Everything is counted in integers, so that every result is exact:
//! frequencies and the row rate in micro-hertz, note lengths in milliseconds,
//! the time of the players in nanoseconds.
//!
//! - `parser` reads the text notation into notes.
//! - `pitch` and `midi_pitch` give the frequencies of keys.
//! - `gui` holds the picture: the frames of square waves, chords and cosine
//!   waves, and the reaction to the events of the window.
//! - `legacy_player` plays the notes of the text notation one after another.
//! - `midi_player` plays a timeline of several tracks tick by tick.
//! - `schedule` is what a player and the loop that drives it say to each
//!   other.
//! - `rounding` holds the quotients that the others round.
//!
//! The library never sleeps, polls or draws by itself. The program around it
//! owns the window and the clock: it hands the events and the elapsed time to
//! a player, step by step, and copies the picture to the window.

pub mod gui;
pub mod legacy_player;
pub mod midi_pitch;
pub mod midi_player;
pub mod parser;
pub mod pitch;
pub mod rounding;
pub mod schedule;
