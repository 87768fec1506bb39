//! Write-style selection and the terminal writer builder.
//!
//! A [`WriteStyle`] is the configured wish — `Auto`, `Always` or `Never` —
//! and is resolved once, when the writer is built, against the target kind
//! and the terminal probe's outcome: `Auto` enables styling only for a
//! stdout/stderr target that is a real terminal, and never for a pipe.
//! The probe itself (is the stream a terminal?) is I/O and happens outside
//! this crate; its result is handed in as a plain boolean.

use vstd::prelude::*;

use crate::buffer::{Buffer, BufferWriter, WritableTarget};
use crate::chars::str_eq;

verus! {

/// Whether or not to print styles to the target.
#[derive(Clone, Copy, Debug, Eq, Hash, PartialEq, Structural)]
pub enum WriteStyle {
    /// Try to print styles, but don't force the issue.
    Auto,
    /// Try very hard to print styles.
    Always,
    /// Never print styles.
    Never,
}

impl Default for WriteStyle {
    fn default() -> (r: Self)
        ensures
            r == WriteStyle::Auto,
    {
        WriteStyle::Auto
    }
}

/// Log target, either `stdout`, `stderr` or a custom pipe. The pipe's
/// writer itself is held by the embedding program.
#[derive(Clone, Copy, Debug, Eq, Hash, PartialEq, Structural)]
#[non_exhaustive]
pub enum Target {
    /// Logs will be sent to standard output.
    Stdout,
    /// Logs will be sent to standard error.
    Stderr,
    /// Logs will be sent to a custom pipe.
    Pipe,
}

impl Default for Target {
    fn default() -> (r: Self)
        ensures
            r == Target::Stderr,
    {
        Target::Stderr
    }
}

/// How a style-choice string is read: exactly `auto`, `always` or `never`,
/// anything else falling back to `Auto`.
pub open spec fn spec_parse_write_style(s: Seq<char>) -> WriteStyle {
    if s == "auto"@ {
        WriteStyle::Auto
    } else if s == "always"@ {
        WriteStyle::Always
    } else if s == "never"@ {
        WriteStyle::Never
    } else {
        WriteStyle::Auto
    }
}

/// Parse a style-choice string, as [`spec_parse_write_style`] describes.
pub fn parse_write_style(spec: &str) -> (r: WriteStyle)
    ensures
        r == spec_parse_write_style(spec@),
{
    if str_eq(spec, "auto") {
        WriteStyle::Auto
    } else if str_eq(spec, "always") {
        WriteStyle::Always
    } else if str_eq(spec, "never") {
        WriteStyle::Never
    } else {
        WriteStyle::Auto
    }
}

/// The style resolution bound into a writer at build time. A configured
/// `Auto` resolves to styling only when the target is a real terminal
/// (a pipe never is); `Always` and `Never` are absolute. Under a test
/// harness styling is always off.
pub open spec fn spec_resolve_write_style(
    style: WriteStyle,
    target: Target,
    stdout_is_tty: bool,
    stderr_is_tty: bool,
    is_test: bool,
) -> WriteStyle {
    let resolved = if style == WriteStyle::Auto {
        if (match target {
            Target::Stderr => stderr_is_tty,
            Target::Stdout => stdout_is_tty,
            Target::Pipe => false,
        }) {
            WriteStyle::Auto
        } else {
            WriteStyle::Never
        }
    } else {
        style
    };
    if is_test {
        WriteStyle::Never
    } else {
        resolved
    }
}

/// A terminal target with color awareness.
#[derive(Debug)]
pub struct Writer {
    inner: BufferWriter,
}

/// Ghost image of a [`Writer`].
pub struct WriterView {
    /// The transport records go to.
    pub target: WritableTarget,
    /// The style resolution bound at build time.
    pub write_style: WriteStyle,
}

impl View for Writer {
    type V = WriterView;

    closed spec fn view(&self) -> WriterView {
        WriterView { target: self.inner@.target, write_style: self.inner@.write_style }
    }
}

impl Writer {
    /// The style resolution this writer was built with.
    pub fn write_style(&self) -> (r: WriteStyle)
        ensures
            r == self@.write_style,
    {
        self.inner.write_style()
    }

    /// The transport this writer sends to.
    pub fn target(&self) -> (r: WritableTarget)
        ensures
            r == self@.target,
    {
        self.inner.target()
    }

    /// A fresh, empty scratch buffer for one record.
    pub fn buffer(&self) -> (r: Buffer)
        ensures
            r@ == Seq::<char>::empty(),
    {
        self.inner.buffer()
    }
}

/// A builder for a terminal writer: target and style choice are configured
/// first, then resolved once at [`Builder::build`].
#[derive(Debug)]
pub struct Builder {
    target: Target,
    write_style: WriteStyle,
    is_test: bool,
    built: bool,
}

/// Ghost image of a writer [`Builder`].
pub struct BuilderView {
    /// The configured target.
    pub target: Target,
    /// The configured style wish.
    pub write_style: WriteStyle,
    /// Whether output is captured for a test harness.
    pub is_test: bool,
    /// Whether the builder was already consumed.
    pub built: bool,
}

impl View for Builder {
    type V = BuilderView;

    closed spec fn view(&self) -> BuilderView {
        BuilderView {
            target: self.target,
            write_style: self.write_style,
            is_test: self.is_test,
            built: self.built,
        }
    }
}

impl Builder {
    /// A builder with the defaults: stderr, `Auto` styling, not a test.
    pub fn new() -> (r: Builder)
        ensures
            r@ == (BuilderView {
                target: Target::Stderr,
                write_style: WriteStyle::Auto,
                is_test: false,
                built: false,
            }),
    {
        Builder {
            target: Target::Stderr,
            write_style: WriteStyle::Auto,
            is_test: false,
            built: false,
        }
    }

    /// Set the target to write to.
    pub fn target(&mut self, target: Target)
        ensures
            final(self)@ == (BuilderView { target, ..old(self)@ }),
    {
        self.target = target;
    }

    /// Parse a style-choice string and set it.
    pub fn parse_write_style(&mut self, write_style: &str)
        ensures
            final(self)@ == (BuilderView {
                write_style: spec_parse_write_style(write_style@),
                ..old(self)@
            }),
    {
        let ws = parse_write_style(write_style);
        self.write_style = ws;
    }

    /// Whether or not to print style characters when writing.
    pub fn write_style(&mut self, write_style: WriteStyle)
        ensures
            final(self)@ == (BuilderView { write_style, ..old(self)@ }),
    {
        self.write_style = write_style;
    }

    /// Whether or not output is captured for `cargo test`.
    pub fn is_test(&mut self, is_test: bool)
        ensures
            final(self)@ == (BuilderView { is_test, ..old(self)@ }),
    {
        self.is_test = is_test;
    }

    /// Build a terminal writer, resolving the style choice once against
    /// the given terminal probes. A builder can be consumed only once.
    pub fn build(&mut self, stdout_is_tty: bool, stderr_is_tty: bool) -> (r: Writer)
        requires
            !old(self)@.built,
        ensures
            final(self)@.built,
            r@.write_style == spec_resolve_write_style(
                old(self)@.write_style,
                old(self)@.target,
                stdout_is_tty,
                stderr_is_tty,
                old(self)@.is_test,
            ),
            r@.target == (match old(self)@.target {
                Target::Stderr => if old(self)@.is_test {
                    WritableTarget::PrintStderr
                } else {
                    WritableTarget::WriteStderr
                },
                Target::Stdout => if old(self)@.is_test {
                    WritableTarget::PrintStdout
                } else {
                    WritableTarget::WriteStdout
                },
                Target::Pipe => WritableTarget::Pipe,
            }),
    {
        self.built = true;
        let resolved = if matches!(self.write_style, WriteStyle::Auto) {
            let tty = match self.target {
                Target::Stderr => stderr_is_tty,
                Target::Stdout => stdout_is_tty,
                Target::Pipe => false,
            };
            if tty {
                WriteStyle::Auto
            } else {
                WriteStyle::Never
            }
        } else {
            self.write_style
        };
        let resolved = if self.is_test {
            WriteStyle::Never
        } else {
            resolved
        };
        let inner = match self.target {
            Target::Stderr => BufferWriter::stderr(self.is_test, resolved),
            Target::Stdout => BufferWriter::stdout(self.is_test, resolved),
            Target::Pipe => BufferWriter::pipe(resolved),
        };
        Writer { inner }
    }
}

} // verus!
