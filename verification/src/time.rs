//! Musical time, tempo, and the authoritative transport clock.
//!
//! Position is an exact integer count of sample frames; musical position is
//! computed from it on demand with exact integer arithmetic and never
//! accumulated, so nothing can drift.

pub mod error;
pub mod sample_rate;
pub mod frames;
pub mod musical_time;
pub mod tempo;
pub mod conversion;
pub mod signature;
pub mod clock;
pub mod tempo_map;
pub mod beat_grid;
