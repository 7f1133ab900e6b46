//! Debounced file-watch orchestration: the decisions of a watch loop that re-runs a
//! long-lived operation whenever watched files change, kept free of I/O so that every
//! rule of the loop is stated in a contract and proved.

pub mod debounce;
pub mod debounce_trace;
pub mod event_source;
pub mod package_json;
pub mod path;
pub mod report;
pub mod watch;
pub mod watch_trace;
