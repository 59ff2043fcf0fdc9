//! Core logic of a battery-charge threshold monitor.
//!
//! A monitor owns a strictly descending list of percentage thresholds and,
//! for every battery it has seen, a cursor recording the band (the interval
//! between two adjacent thresholds) that battery was last confirmed in.
//! Each poll hands the monitor a battery's current charge percentage; the
//! monitor reports how many notifications to fire — exactly one per
//! threshold boundary crossed since the previous poll, in either direction —
//! and moves the cursor to the band of the new percentage.

pub mod bands;
pub mod monitor;
