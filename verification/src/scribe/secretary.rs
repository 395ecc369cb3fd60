//! Scheduling of work over a (file, page) grid.
pub mod scheduler;
