//! Recording engine for KiwiSDR receivers: the audio decoder, the WAV sink,
//! the wire codec, the session state machine and the station supervisor.
//!
//! Everything here is logic on plain values. Sockets, files, clocks and
//! timers belong to the program built around this crate: it hands in what
//! arrived and the time, and carries out the actions that come back.
//!
//! - [`audio`]: the IMA ADPCM decoder, and the sink that names and rotates
//!   the WAV files.
//! - [`sdr`]: tunings, and under [`sdr::kiwi`] the messages of the text
//!   sub-protocol, the session and the supervisor.
//! - [`config`]: the stations of a fleet, and the settings of their
//!   supervisors.
//! - [`text`]: numbers as decimal text.

pub mod audio;
pub mod config;
pub mod sdr;
pub mod text;
