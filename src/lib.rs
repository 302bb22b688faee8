//! Severity-tagged log lines, the text written for each of them, and an
//! append-only image of the log file that those lines go to.

pub mod format;
pub mod laws;
pub mod severity;
pub mod sink;

pub use format::{decimal, format_line};
pub use severity::{Severity, DEBUG, ERROR, INFO, WARNING};
pub use sink::{file_record, write_failure_note, LogFile};
