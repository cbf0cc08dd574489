//! The portable core of a DJ and music-performance studio: musical time and
//! the transport clock, playback state, synchronisation state, security
//! policy, settings and telemetry — each decision a verified function of
//! plain values.

pub mod security;
pub mod settings;
pub mod sync;
pub mod telemetry;
pub mod text;
pub mod time;
pub mod timeline;
pub mod tokens;
pub mod transport;
pub mod waveform;
