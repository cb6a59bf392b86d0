//! Host-side core of a hardware volume mixer: a microcontroller with three
//! analog sliders streams raw readings over a serial link, one JSON object per
//! line, and this library turns those readings into volume commands for the
//! host's audio sessions.
//!
//! The library holds the verified logic of that pipeline: the wire-line codec,
//! the line framing over a byte stream, percentage normalization, the
//! connection state machine with its device-discovery heuristic, the
//! channel-to-target mapping store, the control router, and the audio-session
//! reconciler.  All I/O (serial ports, the platform audio APIs, the config
//! file) stays outside, in thin adapters that feed plain values in and carry
//! plain values out.

pub mod audio;
pub mod codec;
pub mod config;
pub mod framing;
pub mod mappings;
pub mod reconciler;
pub mod router;
pub mod serial;
pub mod types;
pub mod volume;
