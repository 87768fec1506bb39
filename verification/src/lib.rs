//! A configurable filter and formatter for log records.
//!
//! The crate is organised around two pieces:
//!
//! - the filtering engine: a specification string (as found in a
//!   `RUST_LOG`-style environment variable) is parsed into a list of
//!   [`directive::Directive`]s plus an optional content filter, and a
//!   [`filter::Filter`] decides per record whether it is emitted, using
//!   longest-prefix matching on the record's target;
//! - the formatting pipeline: a [`fmt::DefaultFormat`] renders a record
//!   into text, with an optional bracketed header and one of several
//!   indentation strategies for multi-line messages.

use vstd::prelude::*;

pub mod buffer;
pub mod chars;
pub mod directive;
pub mod filter;
pub mod filtered_log;
pub mod fmt;
pub mod level;
pub mod op;
pub mod parser;
pub mod record;
pub mod style;
pub mod timestamp;
pub mod writer;

verus! {

/// Log target of the default logger: standard output or standard error.
#[derive(Clone, Copy, Debug, Eq, Hash, PartialEq, Structural)]
pub enum Target {
    /// Logs will be sent to standard output.
    Stdout,
    /// Logs will be sent to standard error.
    Stderr,
}

} // verus!
