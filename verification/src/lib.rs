//! Turns a MIDI score into a timed stream of single-character key presses
//! for a fixed 21-key on-screen instrument, and drives its real-time
//! playback through a pausable state machine.

pub mod cli;
pub mod hotkey;
pub mod midi;
pub mod notes;
pub mod player;
pub mod score;
pub mod extract;
pub mod compile;
pub mod assemble;
