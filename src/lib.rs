//! Supervision of a multi-channel hardware watchdog.
//!
//! The peripheral is modelled as a move-only resource: it is claimed once at
//! boot, activated (or recovered after a warm reset) with a fixed number of
//! liveness channels, and then serviced through one handle per task.
pub mod peripheral;
pub mod registry;
pub mod supervisor;
