//! Kernel subsystems: events and processes.
pub mod event;
pub mod process;
