//! Animation timing and widget-state bookkeeping for a magnifying lens and an
//! animated "loading" label, stated over exact integer nanoseconds.

pub mod clock;
pub mod label;
pub mod lens;
pub mod operation;
pub mod schedule;
pub mod time;
pub mod tree;
