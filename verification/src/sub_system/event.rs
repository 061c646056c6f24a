//! Event buses.
pub mod simple;
