//! Work distribution: iterators over units of work (page, file) pairs.
pub mod unit;
pub mod work;
