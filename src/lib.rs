//! Core of a tray utility that plays a sound at random intervals: the
//! reconfigurable settings, the interruptible wait loop, the debounced
//! dispatcher that sometimes picks a rare variant, and the running statistics.
pub mod config;
pub mod dispatch;
pub mod random;
pub mod schedule;
pub mod stats;
