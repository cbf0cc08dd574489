//! Security policy: who may act, what the user agreed to, what may be written
//! down, and what was decided. Every decision is a pure function of values.

pub mod authorisation;
pub mod consent;
pub mod redaction;
pub mod secret;
pub mod audit;
