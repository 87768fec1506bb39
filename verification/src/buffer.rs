//! The per-record scratch buffer and the writer that hands finished
//! records to a transport.
//!
//! A [`Buffer`] accumulates one record's rendered text; it is cleared and
//! reused between records, never shared between concurrent formatting
//! passes. A [`BufferWriter`] remembers which transport the record is for
//! (stdout, stderr — written directly or printed through the test-capture
//! macros — or a custom pipe) and the style resolution bound at build
//! time; the I/O of actually printing stays outside this crate.

use vstd::prelude::*;

use crate::writer::WriteStyle;

verus! {

/// Transport a finished record is destined for. `Write…` writes to the
/// stream directly; `Print…` goes through the printing macros so that test
/// harnesses can capture the output. `Pipe` stands for a caller-supplied
/// writer, which the embedding program holds.
#[derive(Clone, Copy, Debug, Eq, Hash, PartialEq, Structural)]
pub enum WritableTarget {
    /// Logs will be written to standard output.
    WriteStdout,
    /// Logs will be printed to standard output.
    PrintStdout,
    /// Logs will be written to standard error.
    WriteStderr,
    /// Logs will be printed to standard error.
    PrintStderr,
    /// Logs will be sent to a custom pipe.
    Pipe,
}

/// A growable text buffer for one record's rendered form.
#[derive(Debug)]
pub struct Buffer {
    inner: String,
}

impl View for Buffer {
    type V = Seq<char>;

    closed spec fn view(&self) -> Seq<char> {
        self.inner@
    }
}

impl Buffer {
    /// An empty buffer.
    pub fn new() -> (r: Buffer)
        ensures
            r@ == Seq::<char>::empty(),
    {
        Buffer { inner: String::new() }
    }

    /// Forget the contents, keeping the allocation for the next record.
    pub fn clear(&mut self)
        ensures
            final(self)@ == Seq::<char>::empty(),
    {
        self.inner = String::new();
    }

    /// Append text to the buffer; nothing is ever lost or reordered.
    pub fn write(&mut self, s: &str)
        ensures
            final(self)@ == old(self)@ + s@,
    {
        self.inner.append(s);
    }

    /// Writing is unbuffered within the process: flushing changes nothing.
    pub fn flush(&mut self)
        ensures
            final(self)@ == old(self)@,
    {
    }

    /// The accumulated text.
    pub fn as_str(&self) -> (r: &str)
        ensures
            r@ == self@,
    {
        self.inner.as_str()
    }
}

/// Destination and style resolution for finished records. The style value
/// is the one resolved at build time; printing itself is I/O and stands
/// outside this crate.
#[derive(Debug)]
pub struct BufferWriter {
    target: WritableTarget,
    write_style: WriteStyle,
}

/// Ghost image of a [`BufferWriter`].
pub struct BufferWriterView {
    /// The transport records go to.
    pub target: WritableTarget,
    /// The style resolution bound at build time.
    pub write_style: WriteStyle,
}

impl View for BufferWriter {
    type V = BufferWriterView;

    closed spec fn view(&self) -> BufferWriterView {
        BufferWriterView { target: self.target, write_style: self.write_style }
    }
}

impl BufferWriter {
    /// A writer for standard error; under a test harness it prints through
    /// the capturing macro instead of writing the stream directly.
    pub fn stderr(is_test: bool, write_style: WriteStyle) -> (r: BufferWriter)
        ensures
            r@.target == (if is_test {
                WritableTarget::PrintStderr
            } else {
                WritableTarget::WriteStderr
            }),
            r@.write_style == write_style,
    {
        BufferWriter {
            target: if is_test {
                WritableTarget::PrintStderr
            } else {
                WritableTarget::WriteStderr
            },
            write_style,
        }
    }

    /// A writer for standard output; under a test harness it prints
    /// through the capturing macro instead of writing the stream directly.
    pub fn stdout(is_test: bool, write_style: WriteStyle) -> (r: BufferWriter)
        ensures
            r@.target == (if is_test {
                WritableTarget::PrintStdout
            } else {
                WritableTarget::WriteStdout
            }),
            r@.write_style == write_style,
    {
        BufferWriter {
            target: if is_test {
                WritableTarget::PrintStdout
            } else {
                WritableTarget::WriteStdout
            },
            write_style,
        }
    }

    /// A writer for a caller-supplied pipe.
    pub fn pipe(write_style: WriteStyle) -> (r: BufferWriter)
        ensures
            r@.target == WritableTarget::Pipe,
            r@.write_style == write_style,
    {
        BufferWriter { target: WritableTarget::Pipe, write_style }
    }

    /// The style resolution this writer was built with.
    pub fn write_style(&self) -> (r: WriteStyle)
        ensures
            r == self@.write_style,
    {
        self.write_style
    }

    /// The transport this writer sends to.
    pub fn target(&self) -> (r: WritableTarget)
        ensures
            r == self@.target,
    {
        self.target
    }

    /// A fresh, empty scratch buffer for one record.
    pub fn buffer(&self) -> (r: Buffer)
        ensures
            r@ == Seq::<char>::empty(),
    {
        Buffer::new()
    }
}

} // verus!
