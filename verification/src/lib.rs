//! Core of a desktop notification daemon: the notification model, the bus
//! service state (id allocation and replace semantics), the event pipeline
//! state machine, the panel socket protocol, icon image validation and
//! normalization, and body markup parsing.
//!
//! All I/O (bus dispatch, sockets, timers) lives outside this crate; the
//! functions here take plain values and decide what the daemon does with them.

pub mod config;
pub mod model;
pub mod image;
pub mod server;
pub mod pipeline;
pub mod panel;
pub mod cards;
pub mod markup;
pub mod placement;
pub mod strutil;

use vstd::prelude::*;

verus! {

/// Name of the environment variable through which a launcher hands the daemon
/// the file descriptor of its private panel socket.
pub const DAEMON_NOTIFICATIONS_FD: &'static str = "DAEMON_NOTIFICATIONS_FD";

/// Name of the environment variable through which a launcher hands the panel
/// its end of the same socket.
pub const PANEL_NOTIFICATIONS_FD: &'static str = "PANEL_NOTIFICATIONS_FD";

} // verus!
