//! User settings: accessibility joined with what the platform reports, the
//! experience mode, the settings the product knows with their kinds and
//! defaults, and a store that keeps only what was chosen.

pub mod accessibility;
pub mod mode;
pub mod setting;
pub mod order;
pub mod store;
