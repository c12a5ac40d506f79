//! Signposts: trace markers for a native tracing facility.
//!
//! A logger names a channel of the facility by subsystem and category. It can
//! emit events, which mark a point in time, and begin intervals, which are
//! ended by a guard so that every begin marker is answered by one end marker.
//!
//! The library decides what is handed to the facility and when; it never calls
//! the facility itself. A caller asks the logger what to do next, performs the
//! native call, and hands the facility's answer back:
//!
//! - [`OsLog::get`] says whether the caller has to create the native handle,
//!   wait for it, or may use it; [`OsLog::publish`] stores a created handle.
//! - [`OsLog::emit_event`], [`OsLog::begin_interval`] and
//!   [`SignpostInterval::end`] take the facility's answer to the enablement
//!   check and hand out the marker to emit, or none.
//!
//! The module [`expand`] holds the build-time layer, which checks literal names.

pub mod expand;
pub mod latch;
pub mod logger;
pub mod marker;
pub mod name;

pub use crate::expand::{begin_interval, const_poi_logger, emit_event};
pub use crate::logger::{OsLog, SignpostInterval};
