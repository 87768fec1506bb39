//! The log record as the library sees it: plain values carried from the
//! logging call site — severity, target, module path, and the message with
//! its arguments already substituted.

use vstd::prelude::*;

use crate::level::Level;

verus! {

/// One log record, with its message already rendered.
#[derive(Debug)]
pub struct LogRecord {
    /// Severity of the record.
    pub level: Level,
    /// Target the record was issued against, usually a module path.
    pub target: String,
    /// Module path of the call site, when known.
    pub module: Option<String>,
    /// The rendered message body.
    pub args: String,
}

/// Ghost image of a [`LogRecord`].
pub struct LogRecordView {
    /// Severity of the record.
    pub level: Level,
    /// Target as a character sequence.
    pub target: Seq<char>,
    /// Module path as a character sequence, when known.
    pub module: Option<Seq<char>>,
    /// Message body as a character sequence.
    pub args: Seq<char>,
}

impl View for LogRecord {
    type V = LogRecordView;

    open spec fn view(&self) -> LogRecordView {
        LogRecordView {
            level: self.level,
            target: self.target@,
            module: match self.module {
                Some(m) => Some(m@),
                None => None,
            },
            args: self.args@,
        }
    }
}

impl DeepView for LogRecord {
    type V = LogRecordView;

    open spec fn deep_view(&self) -> LogRecordView {
        self.view()
    }
}

} // verus!
