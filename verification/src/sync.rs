//! Synchronisation: where it is, what has not arrived yet, what each side
//! has seen, and which restore points are worth keeping.

pub mod state;
pub mod backup;
pub mod outbox;
pub mod version;
