//! Terminal styling: a set of attributes (foreground and background
//! color, bold, intensity) applied to a span of text.
//!
//! When styling is disabled, a styled write is exactly the plain text —
//! content is never lost, only decoration is skipped. When enabled, the
//! attribute-setting escape text is written before the first character and
//! the reset escape is always written after the span, so a span never
//! leaves the terminal in a styled state. The escape texts themselves come
//! from the `termcolor` crate.

use vstd::prelude::*;

use crate::buffer::Buffer;

verus! {

/// A terminal color, one of the eight base colors.
#[derive(Clone, Copy, Debug, Eq, Hash, PartialEq, Structural)]
pub enum Color {
    /// Black; code 0.
    Black,
    /// Red; code 1.
    Red,
    /// Green; code 2.
    Green,
    /// Yellow; code 3.
    Yellow,
    /// Blue; code 4.
    Blue,
    /// Magenta; code 5.
    Magenta,
    /// Cyan; code 6.
    Cyan,
    /// White; code 7.
    White,
}

/// The ANSI code of a base color.
pub open spec fn spec_color_code(c: Color) -> u8 {
    match c {
        Color::Black => 0,
        Color::Red => 1,
        Color::Green => 2,
        Color::Yellow => 3,
        Color::Blue => 4,
        Color::Magenta => 5,
        Color::Cyan => 6,
        Color::White => 7,
    }
}

/// Executable form of [`spec_color_code`].
pub fn color_code(c: Color) -> (r: u8)
    ensures
        r == spec_color_code(c),
{
    match c {
        Color::Black => 0,
        Color::Red => 1,
        Color::Green => 2,
        Color::Yellow => 3,
        Color::Blue => 4,
        Color::Magenta => 5,
        Color::Cyan => 6,
        Color::White => 7,
    }
}

/// The escape text `termcolor` writes to set the given attributes, by the
/// base-color codes of the foreground and background (if any), boldness,
/// and intensity. A function of the attributes alone.
pub uninterp spec fn ansi_style_prefix(
    fg: Option<u8>,
    bg: Option<u8>,
    bold: bool,
    intense: bool,
) -> Seq<char>;

/// The ANSI reset escape, `ESC [ 0 m`.
pub open spec fn ansi_reset() -> Seq<char> {
    seq!['\u{1b}', '[', '0', 'm']
}

/// Relies on `termcolor::Ansi::set_color`: for a given `ColorSpec` the
/// escape text written is a fixed function of the spec's attributes, and
/// is ASCII.
#[verifier::external_body]
fn ansi_prefix_string(fg: Option<u8>, bg: Option<u8>, bold: bool, intense: bool) -> (r: String)
    ensures
        r@ == ansi_style_prefix(fg, bg, bold, intense),
{
    let map = |c: u8| match c {
        0 => termcolor::Color::Black,
        1 => termcolor::Color::Red,
        2 => termcolor::Color::Green,
        3 => termcolor::Color::Yellow,
        4 => termcolor::Color::Blue,
        5 => termcolor::Color::Magenta,
        6 => termcolor::Color::Cyan,
        _ => termcolor::Color::White,
    };
    let mut spec = termcolor::ColorSpec::new();
    spec.set_fg(fg.map(map)).set_bg(bg.map(map)).set_bold(bold).set_intense(intense);
    let mut out: Vec<u8> = Vec::new();
    let _ = termcolor::WriteColor::set_color(&mut termcolor::Ansi::new(&mut out), &spec);
    String::from_utf8(out).unwrap_or_default()
}

/// Relies on `termcolor::Ansi::reset`: it writes exactly the ANSI reset
/// escape `\x1b[0m`.
#[verifier::external_body]
fn ansi_reset_string() -> (r: String)
    ensures
        r@ == ansi_reset(),
{
    let mut out: Vec<u8> = Vec::new();
    let _ = termcolor::WriteColor::reset(&mut termcolor::Ansi::new(&mut out));
    String::from_utf8(out).unwrap_or_default()
}

/// A set of styles to apply to a span of terminal output, together with
/// the enablement flag resolved for the writer.
#[derive(Clone, Copy, Debug)]
pub struct Style {
    /// Whether styling is enabled at all; when false, styled writes are
    /// the plain text.
    pub enabled: bool,
    /// Foreground color, if set.
    pub fg: Option<Color>,
    /// Background color, if set.
    pub bg: Option<Color>,
    /// Bold text.
    pub bold: bool,
    /// Intense (bright) colors.
    pub intense: bool,
}

/// The ghost color code of an optional color.
pub open spec fn opt_code(c: Option<Color>) -> Option<u8> {
    match c {
        Some(c) => Some(spec_color_code(c)),
        None => None,
    }
}

/// The exact text a styled span contributes: the plain text when styling
/// is disabled; otherwise the attribute escape, the text, and — always,
/// whatever the text was — the reset escape.
pub open spec fn spec_styled(st: Style, text: Seq<char>) -> Seq<char> {
    if !st.enabled {
        text
    } else {
        ansi_style_prefix(opt_code(st.fg), opt_code(st.bg), st.bold, st.intense) + text
            + ansi_reset()
    }
}

impl Style {
    /// A style with no attributes set.
    pub fn new(enabled: bool) -> (r: Style)
        ensures
            r == (Style { enabled, fg: None, bg: None, bold: false, intense: false }),
    {
        Style { enabled, fg: None, bg: None, bold: false, intense: false }
    }

    /// Set the text color.
    pub fn set_color(self, color: Color) -> (r: Style)
        ensures
            r == (Style { fg: Some(color), ..self }),
    {
        Style { fg: Some(color), ..self }
    }

    /// Set the background color.
    pub fn set_bg(self, color: Color) -> (r: Style)
        ensures
            r == (Style { bg: Some(color), ..self }),
    {
        Style { bg: Some(color), ..self }
    }

    /// Set the text weight: bold when `yes`, default otherwise.
    pub fn set_bold(self, yes: bool) -> (r: Style)
        ensures
            r == (Style { bold: yes, ..self }),
    {
        Style { bold: yes, ..self }
    }

    /// Whether the colors are intense (bright).
    pub fn set_intense(self, yes: bool) -> (r: Style)
        ensures
            r == (Style { intense: yes, ..self }),
    {
        Style { intense: yes, ..self }
    }

    /// Wrap a value in this style; the same style can wrap many values.
    pub fn value<'a>(&self, value: &'a str) -> (r: StyledValue<'a>)
        ensures
            r.style == *self,
            r.value@ == value@,
    {
        StyledValue { style: *self, value }
    }
}

/// A span of text wrapped in a [`Style`], ready to be written to a
/// buffer.
pub struct StyledValue<'a> {
    /// The style applied around the span.
    pub style: Style,
    /// The span's text.
    pub value: &'a str,
}

impl<'a> StyledValue<'a> {
    /// Write the span: with styling disabled exactly the plain text, and
    /// with styling enabled the attribute escape, the text, and the reset
    /// escape — the reset follows the span in every case, so the terminal
    /// never stays styled.
    pub fn write_to(&self, buf: &mut Buffer)
        ensures
            final(buf)@ == old(buf)@ + spec_styled(self.style, self.value@),
    {
        if !self.style.enabled {
            buf.write(self.value);
        } else {
            let fg = match self.style.fg {
                Some(c) => Some(color_code(c)),
                None => None,
            };
            let bg = match self.style.bg {
                Some(c) => Some(color_code(c)),
                None => None,
            };
            let prefix = ansi_prefix_string(fg, bg, self.style.bold, self.style.intense);
            buf.write(prefix.as_str());
            buf.write(self.value);
            let reset = ansi_reset_string();
            buf.write(reset.as_str());
            proof {
                assert(old(buf)@ + spec_styled(self.style, self.value@) =~= ((old(buf)@ + prefix@)
                    + self.value@) + reset@);
            }
        }
    }
}

} // verus!
