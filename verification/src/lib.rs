//! Core logic of a per-application volume mixer.
//!
//! The mixer walks the platform's audio topology (endpoints, session
//! managers, sessions, capability interfaces), where any node may be absent
//! or inaccessible. The walk itself is platform work; every decision made
//! along it is verified here, over plain-data probes of what the walk saw:
//! which sessions survive, how process names are derived, how volumes are
//! rescaled, how device names are matched, and how the final session list is
//! sorted and deduplicated.

pub mod device;
pub mod icon;
pub mod naming;
pub mod process;
pub mod session;
pub mod text;
pub mod volume;
