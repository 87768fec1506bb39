//! The default record format: an optional bracketed header (timestamp,
//! level, module path — in that fixed order) followed by the message body,
//! with one of four indentation strategies for bodies that span lines.
//!
//! The header opens a bracket before its first field, separates later
//! fields with single spaces, and closes with `] ` once at least one field
//! was written; with no field configured it is elided entirely. While
//! writing, a character count is kept (the timestamp counted at a fixed
//! width, the level at its padded width) which the `Auto` indent strategy
//! uses to align continuation lines under the header's closing bracket.

use vstd::prelude::*;

use crate::buffer::Buffer;
use crate::level::Level;
use crate::record::{LogRecord, LogRecordView};
use crate::style::Style;
use crate::timestamp::{Timestamp, TimestampPrecision};
use crate::writer::{WriteStyle, Writer};

verus! {

/// Indentation for multiline log records.
#[derive(Clone, Copy, Debug, Eq, Hash, PartialEq, Structural)]
pub enum Indent {
    /// Indent with the given number of spaces.
    Spaces(usize),
    /// Indent so that the next lines are aligned to the end of the header.
    Auto,
    /// Indent by repeating the header once per line.
    RepeatHeader,
    /// Do not indent.
    NoIndent,
}

/// Configuration of the default format: which header fields to write and
/// how to indent multiline bodies.
#[derive(Clone, Copy, Debug, Eq, PartialEq, Structural)]
pub struct DefaultFormat {
    /// Write the timestamp field.
    pub timestamp: bool,
    /// Count the timestamp at nanosecond width.
    pub timestamp_nanos: bool,
    /// Write the module-path field.
    pub module: bool,
    /// Write the level field.
    pub level: bool,
    /// How to render bodies with embedded line breaks.
    pub indent: Indent,
}

/// The level's display name padded to five characters, as the header
/// writes it.
pub open spec fn level_text(l: Level) -> Seq<char> {
    match l {
        Level::Error => "ERROR"@,
        Level::Warn => "WARN "@,
        Level::Info => "INFO "@,
        Level::Debug => "DEBUG"@,
        Level::Trace => "TRACE"@,
    }
}

/// The width at which a timestamp field is counted: 20 characters, or 30
/// when nanosecond precision is configured.
pub open spec fn ts_width(nanos: bool) -> nat {
    if nanos {
        30
    } else {
        20
    }
}

/// Append one header field: the first opens the bracket, later ones are
/// separated by a space.
pub open spec fn add_field(acc: Seq<char>, fields_before: nat, v: Seq<char>) -> Seq<char> {
    if fields_before == 0 {
        acc + "["@ + v
    } else {
        acc + " "@ + v
    }
}

/// The header's text and character count. Fields come in fixed order —
/// timestamp, level, module path — each written only if configured (the
/// module path also needs the record to carry one). Each field adds one
/// separator character to the count, the timestamp its fixed width, the
/// level five, the module path its length; the closing `] ` adds two. With
/// no field written the header is empty and counts zero.
pub open spec fn spec_header(cfg: DefaultFormat, rec: LogRecordView, ts: Seq<char>) -> (
    Seq<char>,
    nat,
) {
    let t0 = Seq::<char>::empty();
    let f0 = 0nat;
    let c0 = 0nat;
    let t1 = if cfg.timestamp {
        add_field(t0, f0, ts)
    } else {
        t0
    };
    let f1 = if cfg.timestamp {
        (f0 + 1) as nat
    } else {
        f0
    };
    let c1 = if cfg.timestamp {
        (c0 + 1 + ts_width(cfg.timestamp_nanos)) as nat
    } else {
        c0
    };
    let t2 = if cfg.level {
        add_field(t1, f1, level_text(rec.level))
    } else {
        t1
    };
    let f2 = if cfg.level {
        (f1 + 1) as nat
    } else {
        f1
    };
    let c2 = if cfg.level {
        (c1 + 6) as nat
    } else {
        c1
    };
    let has_module = cfg.module && rec.module is Some;
    let t3 = if has_module {
        add_field(t2, f2, rec.module.unwrap())
    } else {
        t2
    };
    let f3 = if has_module {
        (f2 + 1) as nat
    } else {
        f2
    };
    let c3 = if has_module {
        (c2 + 1 + rec.module.unwrap().len()) as nat
    } else {
        c2
    };
    if f3 > 0 {
        (t3 + "] "@, (c3 + 2) as nat)
    } else {
        (t3, c3)
    }
}

/// `n` space characters.
pub open spec fn spaces(n: nat) -> Seq<char> {
    Seq::new(n, |i: int| ' ')
}

/// The continuation text inserted after each embedded line break, or
/// `None` for the verbatim strategy: a fixed or header-aligned pad
/// followed by `| `, or the whole header again.
pub open spec fn indent_cont(cfg: DefaultFormat, header: Seq<char>, count: nat) -> Option<
    Seq<char>,
> {
    match cfg.indent {
        Indent::NoIndent => None,
        Indent::Spaces(k) => Some(spaces(k as nat) + "| "@),
        Indent::Auto => Some(
            spaces(
                if count < 2 {
                    0nat
                } else {
                    (count - 2) as nat
                },
            ) + "| "@,
        ),
        Indent::RepeatHeader => Some(header),
    }
}

/// The body with each embedded line break followed by the continuation
/// text.
pub open spec fn expand(msg: Seq<char>, cont: Seq<char>) -> Seq<char>
    decreases msg.len(),
{
    if msg.len() == 0 {
        Seq::empty()
    } else if msg[0] == '\n' {
        seq!['\n'] + cont + expand(msg.drop_first(), cont)
    } else {
        seq![msg[0]] + expand(msg.drop_first(), cont)
    }
}

/// The full rendered record: header, body (expanded per the indent
/// strategy), and exactly one trailing newline.
pub open spec fn spec_format(cfg: DefaultFormat, rec: LogRecordView, ts: Seq<char>) -> Seq<char> {
    let h = spec_header(cfg, rec, ts).0;
    let c = spec_header(cfg, rec, ts).1;
    match indent_cont(cfg, h, c) {
        None => h + rec.args + "\n"@,
        Some(cont) => h + expand(rec.args, cont) + "\n"@,
    }
}

/// Formatting is deterministic: one configuration, record and timestamp
/// always render to the same text, so formatting the same record twice
/// produces byte-identical output.
pub proof fn lemma_format_deterministic(
    cfg: DefaultFormat,
    rec: LogRecordView,
    ts: Seq<char>,
    out1: Seq<char>,
    out2: Seq<char>,
)
    requires
        out1 == spec_format(cfg, rec, ts),
        out2 == spec_format(cfg, rec, ts),
    ensures
        out1 == out2,
{
}

proof fn lemma_expand_concat(a: Seq<char>, b: Seq<char>, cont: Seq<char>)
    ensures
        expand(a + b, cont) == expand(a, cont) + expand(b, cont),
    decreases a.len(),
{
    if a.len() == 0 {
        assert(a + b =~= b);
        assert(expand(a, cont) =~= Seq::<char>::empty());
        assert(expand(a, cont) + expand(b, cont) =~= expand(b, cont));
    } else {
        assert((a + b).len() > 0);
        assert((a + b)[0] == a[0]);
        assert((a + b).drop_first() =~= a.drop_first() + b);
        lemma_expand_concat(a.drop_first(), b, cont);
        if a[0] == '\n' {
            assert(seq!['\n'] + cont + (expand(a.drop_first(), cont) + expand(b, cont)) =~= (
            seq!['\n'] + cont + expand(a.drop_first(), cont)) + expand(b, cont));
        } else {
            assert(seq![a[0]] + (expand(a.drop_first(), cont) + expand(b, cont)) =~= (seq![a[0]]
                + expand(a.drop_first(), cont)) + expand(b, cont));
        }
    }
}

proof fn lemma_expand_plain(s: Seq<char>, cont: Seq<char>)
    requires
        forall|i: int| 0 <= i < s.len() ==> s[i] != '\n',
    ensures
        expand(s, cont) == s,
    decreases s.len(),
{
    if s.len() > 0 {
        let t = s.drop_first();
        assert(forall|i: int| 0 <= i < t.len() ==> #[trigger] t[i] != '\n');
        lemma_expand_plain(t, cont);
        assert(seq![s[0]] + t =~= s);
    }
}

proof fn lemma_expand_newline(cont: Seq<char>)
    ensures
        expand(seq!['\n'], cont) == seq!['\n'] + cont,
{
    let s = seq!['\n'];
    assert(s.drop_first() =~= Seq::<char>::empty());
    assert(expand(s.drop_first(), cont) =~= Seq::<char>::empty());
    assert(seq!['\n'] + cont + Seq::<char>::empty() =~= seq!['\n'] + cont);
}

/// The level's display name, padded to five characters.
pub fn level_str(l: Level) -> (r: &'static str)
    ensures
        r@ == level_text(l),
{
    match l {
        Level::Error => "ERROR",
        Level::Warn => "WARN ",
        Level::Info => "INFO ",
        Level::Debug => "DEBUG",
        Level::Trace => "TRACE",
    }
}

/// Append one header field to the buffer, as [`add_field`] describes.
fn write_field(out: &mut Buffer, fields_before: usize, v: &str)
    ensures
        final(out)@ == add_field(old(out)@, fields_before as nat, v@),
{
    if fields_before == 0 {
        out.write("[");
    } else {
        out.write(" ");
    }
    out.write(v);
    proof {
        if fields_before == 0 {
            assert(old(out)@ + "["@ + v@ =~= (old(out)@ + "["@) + v@);
        } else {
            assert(old(out)@ + " "@ + v@ =~= (old(out)@ + " "@) + v@);
        }
    }
}

/// A pad of `n` spaces followed by the continuation glyph `| `.
fn indent_pad(n: usize) -> (r: String)
    ensures
        r@ == spaces(n as nat) + "| "@,
{
    let mut s = String::new();
    let mut i: usize = 0;
    proof {
        reveal_strlit(" ");
        assert(s@ =~= spaces(0));
    }
    while i < n
        invariant
            i <= n,
            s@ == spaces(i as nat),
        decreases n - i,
    {
        s.append(" ");
        proof {
            reveal_strlit(" ");
            assert(spaces(i as nat) + " "@ =~= spaces(i as nat + 1));
        }
        i = i + 1;
    }
    s.append("| ");
    s
}

/// Write the body with each embedded line break followed by `cont`.
fn write_expanded(out: &mut Buffer, msg: &str, cont: &str)
    ensures
        final(out)@ == old(out)@ + expand(msg@, cont@),
{
    let n = msg.unicode_len();
    let mut seg: usize = 0;
    let mut i: usize = 0;
    proof {
        assert(msg@.take(0) =~= Seq::<char>::empty());
        assert(out@ + expand(msg@.take(0), cont@) =~= out@);
    }
    while i < n
        invariant
            seg <= i <= n,
            n == msg@.len(),
            out@ == old(out)@ + expand(msg@.take(seg as int), cont@),
            forall|j: int| seg <= j < i ==> msg@[j] != '\n',
        decreases n - i,
    {
        if msg.get_char(i) == '\n' {
            let chunk = msg.substring_char(seg, i);
            out.write(chunk);
            out.write("\n");
            out.write(cont);
            proof {
                reveal_strlit("\n");
                let pre = msg@.take(seg as int);
                let mid = msg@.subrange(seg as int, i as int);
                assert(chunk@ == mid);
                assert(msg@.take(i + 1) =~= (pre + mid) + seq!['\n']);
                lemma_expand_concat(pre + mid, seq!['\n'], cont@);
                lemma_expand_concat(pre, mid, cont@);
                lemma_expand_plain(mid, cont@);
                lemma_expand_newline(cont@);
                assert("\n"@ =~= seq!['\n']);
                assert(old(out)@ + expand(msg@.take(i + 1), cont@) =~= ((old(out)@ + expand(
                    pre,
                    cont@,
                ) + mid) + "\n"@) + cont@);
            }
            seg = i + 1;
        }
        i = i + 1;
    }
    let tail = msg.substring_char(seg, n);
    out.write(tail);
    proof {
        let pre = msg@.take(seg as int);
        let mid = msg@.subrange(seg as int, n as int);
        assert(msg@ =~= pre + mid);
        lemma_expand_concat(pre, mid, cont@);
        lemma_expand_plain(mid, cont@);
        assert(old(out)@ + expand(msg@, cont@) =~= (old(out)@ + expand(pre, cont@)) + mid);
    }
}

impl DefaultFormat {
    /// The defaults: timestamp, level and module path on, second-precision
    /// width, no indentation of continuation lines.
    pub fn new() -> (r: DefaultFormat)
        ensures
            r == (DefaultFormat {
                timestamp: true,
                timestamp_nanos: false,
                module: true,
                level: true,
                indent: Indent::NoIndent,
            }),
    {
        DefaultFormat {
            timestamp: true,
            timestamp_nanos: false,
            module: true,
            level: true,
            indent: Indent::NoIndent,
        }
    }

    /// Write the header for `record` into `out` and return the header
    /// character count that the `Auto` strategy aligns to.
    pub fn write_header(&self, out: &mut Buffer, record: &LogRecord, ts: &str) -> (count: usize)
        requires
            record@.module matches Some(m) ==> m.len() + 64 <= usize::MAX,
        ensures
            final(out)@ == old(out)@ + spec_header(*self, record@, ts@).0,
            count as nat == spec_header(*self, record@, ts@).1,
    {
        let mut fields: usize = 0;
        let mut count: usize = 0;
        if self.timestamp {
            write_field(out, fields, ts);
            fields = fields + 1;
            count = count + 1 + (if self.timestamp_nanos {
                30
            } else {
                20
            });
        }
        if self.level {
            write_field(out, fields, level_str(record.level));
            fields = fields + 1;
            count = count + 6;
        }
        if self.module {
            match &record.module {
                Some(m) => {
                    write_field(out, fields, m.as_str());
                    fields = fields + 1;
                    count = count + 1 + m.as_str().unicode_len();
                },
                None => {},
            }
        }
        if fields > 0 {
            out.write("] ");
            count = count + 2;
        }
        proof {
            if fields == 0 {
                assert(old(out)@ + spec_header(*self, record@, ts@).0 =~= old(out)@);
            }
        }
        count
    }

    /// Render `record` into `out`: header, body per the indent strategy,
    /// and exactly one trailing newline. `ts` is the rendered timestamp to
    /// use if the timestamp field is configured; passing the same `ts`
    /// again reproduces the output byte for byte.
    pub fn write(&self, out: &mut Buffer, record: &LogRecord, ts: &str)
        requires
            record@.module matches Some(m) ==> m.len() + 64 <= usize::MAX,
        ensures
            final(out)@ == old(out)@ + spec_format(*self, record@, ts@),
    {
        let count = self.write_header(out, record, ts);
        let ghost h = spec_header(*self, record@, ts@).0;
        match self.indent {
            Indent::NoIndent => {
                out.write(record.args.as_str());
                out.write("\n");
                proof {
                    assert(old(out)@ + (h + record@.args + "\n"@) =~= ((old(out)@ + h)
                        + record@.args) + "\n"@);
                }
            },
            Indent::Spaces(k) => {
                let pad = indent_pad(k);
                write_expanded(out, record.args.as_str(), pad.as_str());
                out.write("\n");
                proof {
                    assert(old(out)@ + (h + expand(record@.args, pad@) + "\n"@) =~= ((old(out)@
                        + h) + expand(record@.args, pad@)) + "\n"@);
                }
            },
            Indent::Auto => {
                let k = if count < 2 {
                    0
                } else {
                    count - 2
                };
                let pad = indent_pad(k);
                write_expanded(out, record.args.as_str(), pad.as_str());
                out.write("\n");
                proof {
                    assert(old(out)@ + (h + expand(record@.args, pad@) + "\n"@) =~= ((old(out)@
                        + h) + expand(record@.args, pad@)) + "\n"@);
                }
            },
            Indent::RepeatHeader => {
                let mut hb = Buffer::new();
                let _ = self.write_header(&mut hb, record, ts);
                write_expanded(out, record.args.as_str(), hb.as_str());
                out.write("\n");
                proof {
                    assert(hb@ =~= h);
                    assert(old(out)@ + (h + expand(record@.args, h) + "\n"@) =~= ((old(out)@ + h)
                        + expand(record@.args, h)) + "\n"@);
                }
            },
        }
    }

    /// Render `record` to a fresh string.
    pub fn format_record(&self, record: &LogRecord, ts: &str) -> (r: String)
        requires
            record@.module matches Some(m) ==> m.len() + 64 <= usize::MAX,
        ensures
            r@ == spec_format(*self, record@, ts@),
    {
        let mut out = Buffer::new();
        self.write(&mut out, record, ts);
        out.as_str().to_owned()
    }
}

/// The one-line form used where only a level tag and the message fit:
/// `LEVEL: message`.
pub fn format_message(record: &LogRecord) -> (r: String)
    ensures
        r@ == level_text(record@.level) + ": "@ + record@.args,
{
    let mut s = String::from_str(level_str(record.level));
    s.append(": ");
    s.append(record.args.as_str());
    proof {
        assert(s@ =~= level_text(record@.level) + ": "@ + record@.args);
    }
    s
}

/// A formatter to write one record's text into, carrying the write-style
/// resolution of the writer it was made for.
pub struct Formatter {
    buf: Buffer,
    write_style: WriteStyle,
}

/// Ghost image of a [`Formatter`].
pub struct FormatterView {
    /// The accumulated text.
    pub buf: Seq<char>,
    /// The style resolution carried from the writer.
    pub write_style: WriteStyle,
}

impl View for Formatter {
    type V = FormatterView;

    closed spec fn view(&self) -> FormatterView {
        FormatterView { buf: self.buf@, write_style: self.write_style }
    }
}

impl Formatter {
    /// A fresh formatter for the given writer.
    pub fn new(writer: &Writer) -> (r: Formatter)
        ensures
            r@.buf == Seq::<char>::empty(),
            r@.write_style == writer@.write_style,
    {
        Formatter { buf: writer.buffer(), write_style: writer.write_style() }
    }

    /// The style resolution this formatter carries.
    pub fn write_style(&self) -> (r: WriteStyle)
        ensures
            r == self@.write_style,
    {
        self.write_style
    }

    /// Append text.
    pub fn write(&mut self, s: &str)
        ensures
            final(self)@.buf == old(self)@.buf + s@,
            final(self)@.write_style == old(self)@.write_style,
    {
        self.buf.write(s);
    }

    /// Nothing is buffered outside the formatter: flushing changes
    /// nothing.
    pub fn flush(&mut self)
        ensures
            final(self)@ == old(self)@,
    {
    }

    /// Clear the accumulated text, ahead of the next record.
    pub fn clear(&mut self)
        ensures
            final(self)@.buf == Seq::<char>::empty(),
            final(self)@.write_style == old(self)@.write_style,
    {
        self.buf.clear();
    }

    /// The accumulated text.
    pub fn as_str(&self) -> (r: &str)
        ensures
            r@ == self@.buf,
    {
        self.buf.as_str()
    }

    /// Begin a new [`Style`], enabled unless this formatter's write style
    /// is `Never`.
    pub fn style(&self) -> (r: Style)
        ensures
            r == (Style {
                enabled: self@.write_style != WriteStyle::Never,
                fg: None,
                bg: None,
                bold: false,
                intense: false,
            }),
    {
        Style::new(!matches!(self.write_style, WriteStyle::Never))
    }

    /// A [`Timestamp`] for the current date and time in UTC, at second
    /// precision.
    pub fn timestamp(&self) -> (r: Timestamp)
        ensures
            r@.precision == TimestampPrecision::Seconds,
    {
        Timestamp::now(TimestampPrecision::Seconds)
    }

    /// A [`Timestamp`] for the current date and time in UTC, at the given
    /// precision.
    pub fn timestamp_custom(&self, precision: TimestampPrecision) -> (r: Timestamp)
        ensures
            r@.precision == precision,
    {
        Timestamp::now(precision)
    }

    /// Render `record` into this formatter with the given configuration.
    pub fn write_record(&mut self, cfg: &DefaultFormat, record: &LogRecord, ts: &str)
        requires
            record@.module matches Some(m) ==> m.len() + 64 <= usize::MAX,
        ensures
            final(self)@.buf == old(self)@.buf + spec_format(*cfg, record@, ts@),
            final(self)@.write_style == old(self)@.write_style,
    {
        cfg.write(&mut self.buf, record, ts);
    }
}

} // verus!
