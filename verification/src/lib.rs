//! Discovery and selection of locally available Android emulator images and
//! iOS simulator devices: locating the external tool binaries through a
//! layered fallback chain, parsing the tools' textual and structured output,
//! merging the per-platform device lists into one sectioned list, and driving
//! the interactive filter/cursor selection state machine.
//!
//! All process spawning, file reading and terminal drawing live outside this
//! crate; every function here computes over plain values handed in by the
//! caller.

pub mod android;
pub mod config;
pub mod emulators;
pub mod ios;
pub mod json;
pub mod select;
pub mod text;
pub mod theme;
