//! Telemetry: what may be counted, only with agreement, and only as totals.

pub mod event;
pub mod counts;
pub mod diagnostic;
