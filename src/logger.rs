//! The activity log of a connection: the events that a logger is told about.
use vstd::prelude::*;

verus! {

/// Receives the activity of a connection; implementations decide where it goes.
pub trait DeviceLogger: Clone + Send + 'static {
    /// The serial port was opened.
    fn open(&self, path: &str);

    /// A line was received from the board.
    fn received(&self, line: &str);

    /// A line was sent to the board.
    fn sent(&self, line: &str);
}

/// A logger that discards all events.
#[derive(Debug, Clone, Copy, PartialEq, Eq, Structural)]
pub struct NullLogger;

impl DeviceLogger for NullLogger {
    fn open(&self, _path: &str) {
    }

    fn received(&self, _line: &str) {
    }

    fn sent(&self, _line: &str) {
    }
}

} // verus!
