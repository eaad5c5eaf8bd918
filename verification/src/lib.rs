//! Per-device quotas on WAN traffic.
//!
//! [`manager`] counts what each device uses per minute, hour, day, ISO week,
//! month and in total, and tells which devices have used up a limit. [`ledger`]
//! is its state as contracts speak of it, and [`laws`] holds what is true of
//! that state as a whole.
pub mod calendar;
pub mod clock;
pub mod laws;
pub mod ledger;
pub mod listing;
pub mod location;
pub mod mac;
pub mod manager;
pub mod quota;
pub mod state;
pub mod text;
