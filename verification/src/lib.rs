//! Per-window keyboard layout tracking.
//!
//! The tracker remembers, for every window, the layout each keyboard was left
//! in, and works out which layout switches to issue when focus moves. It
//! performs no I/O itself: the caller hands it the device list it queried and
//! sends the commands it gets back.

pub mod decimal;
pub mod text;
pub mod command;
pub mod layout_map;
pub mod device;
pub mod snapshot;
pub mod fallback;
pub mod cache;
pub mod key;
pub mod event;
pub mod tracker;
pub mod config;
