//! Interpretation engine for a MIDI-to-input remapper.
//!
//! The crate turns decoded MIDI channel-voice events (note on/off,
//! control change) into abstract keyboard and mouse actions, following a
//! user-supplied binding table.  All of the stateful policy lives here:
//! inferring the rotation direction of a knob from consecutive values,
//! multiplexing several notes onto one output key, and dispatching each
//! event to zero or more output actions.  Reading the configuration,
//! decoding raw MIDI bytes and synthesizing the actual device input are
//! left to the surrounding program.

pub mod config;
pub mod handler;
pub mod laws;
