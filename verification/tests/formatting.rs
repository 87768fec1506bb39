use env_logger::buffer::Buffer;
use env_logger::fmt::{format_message, DefaultFormat, Formatter, Indent};
use env_logger::level::Level;
use env_logger::record::LogRecord;
use env_logger::style::{Color, Style};
use env_logger::timestamp::{Timestamp, TimestampPrecision};
use env_logger::writer::{parse_write_style, Builder as WriterBuilder, Target, WriteStyle};

fn test_record() -> LogRecord {
    LogRecord {
        level: Level::Info,
        target: "test::path".to_string(),
        module: Some("test::path".to_string()),
        args: "log\nmessage".to_string(),
    }
}

fn bare_format() -> DefaultFormat {
    DefaultFormat {
        timestamp: false,
        timestamp_nanos: false,
        module: false,
        level: false,
        indent: Indent::NoIndent,
    }
}

#[test]
fn default_format_with_header() {
    let fmt = DefaultFormat { module: true, level: true, ..bare_format() };
    let written = fmt.format_record(&test_record(), "");
    assert_eq!("[INFO  test::path] log\nmessage\n", written);
}

#[test]
fn default_format_no_header() {
    let written = bare_format().format_record(&test_record(), "");
    assert_eq!("log\nmessage\n", written);
}

#[test]
fn default_format_indent_auto() {
    let fmt = DefaultFormat { module: true, level: true, indent: Indent::Auto, ..bare_format() };
    let written = fmt.format_record(&test_record(), "");
    assert_eq!("[INFO  test::path] log\n                 | message\n", written);
}

#[test]
fn default_format_indent_spaces() {
    let fmt =
        DefaultFormat { module: true, level: true, indent: Indent::Spaces(4), ..bare_format() };
    let written = fmt.format_record(&test_record(), "");
    assert_eq!("[INFO  test::path] log\n    | message\n", written);
}

#[test]
fn default_format_indent_repeat_header() {
    let fmt =
        DefaultFormat { module: true, level: true, indent: Indent::RepeatHeader, ..bare_format() };
    let written = fmt.format_record(&test_record(), "");
    assert_eq!("[INFO  test::path] log\n[INFO  test::path] message\n", written);
}

#[test]
fn default_format_indent_auto_no_header() {
    let fmt = DefaultFormat { indent: Indent::Auto, ..bare_format() };
    let written = fmt.format_record(&test_record(), "");
    assert_eq!("log\n| message\n", written);
}

#[test]
fn parse_write_style_valid() {
    let inputs = vec![
        ("auto", WriteStyle::Auto),
        ("always", WriteStyle::Always),
        ("never", WriteStyle::Never),
    ];

    for (input, expected) in inputs {
        assert_eq!(expected, parse_write_style(input));
    }
}

#[test]
fn parse_write_style_invalid() {
    let inputs = vec!["", "true", "false", "NEVER!!"];

    for input in inputs {
        assert_eq!(WriteStyle::Auto, parse_write_style(input));
    }
}

#[test]
fn format_with_timestamp_field() {
    let fmt = DefaultFormat { timestamp: true, level: true, ..bare_format() };
    let record = LogRecord { args: "one line".to_string(), ..test_record() };
    let written = fmt.format_record(&record, "2023-05-01T10:20:30Z");
    assert_eq!("[2023-05-01T10:20:30Z INFO ] one line\n", written);
}

#[test]
fn format_idempotent() {
    // formatting the same record twice with the same configuration gives
    // byte-identical output
    let fmt = DefaultFormat {
        timestamp: true,
        module: true,
        level: true,
        indent: Indent::Auto,
        ..bare_format()
    };
    let record = test_record();
    let first = fmt.format_record(&record, "2023-05-01T10:20:30Z");
    let second = fmt.format_record(&record, "2023-05-01T10:20:30Z");
    assert_eq!(first, second);
}

#[test]
fn header_composer_scenario() {
    // timestamp off, level on, module on, indent auto, two-line message:
    // the pad is the header's character count minus two
    let fmt = DefaultFormat { module: true, level: true, indent: Indent::Auto, ..bare_format() };
    let record = LogRecord { args: "line1\nline2".to_string(), ..test_record() };
    let written = fmt.format_record(&record, "");
    let header = "[INFO  test::path] ";
    let pad = " ".repeat(header.len() - 2);
    assert_eq!(format!("{}line1\n{}| line2\n", header, pad), written);
}

#[test]
fn format_message_line() {
    let record = LogRecord { args: "ready".to_string(), ..test_record() };
    assert_eq!("INFO : ready", format_message(&record));
}

#[test]
fn styled_value_disabled_writes_plain_text() {
    let style = Style::new(false).set_color(Color::Red).set_bold(true);
    let mut buf = Buffer::new();
    style.value("content").write_to(&mut buf);
    assert_eq!("content", buf.as_str());
}

#[test]
fn styled_value_enabled_wraps_in_escapes() {
    let style = Style::new(true).set_color(Color::Red).set_bold(true);
    let mut buf = Buffer::new();
    style.value("content").write_to(&mut buf);
    // the attribute escape begins with a reset, then bold, then the color
    assert_eq!("\u{1b}[0m\u{1b}[1m\u{1b}[31mcontent\u{1b}[0m", buf.as_str());
}

#[test]
fn styled_value_intense_color() {
    let style = Style::new(true).set_color(Color::Black).set_intense(true);
    let mut buf = Buffer::new();
    style.value("[").write_to(&mut buf);
    assert_eq!("\u{1b}[0m\u{1b}[38;5;8m[\u{1b}[0m", buf.as_str());
}

#[test]
fn writer_resolves_auto_against_terminal() {
    let mut b = WriterBuilder::new();
    b.write_style(WriteStyle::Auto);
    let w = b.build(false, true);
    assert_eq!(WriteStyle::Auto, w.write_style());

    let mut b = WriterBuilder::new();
    b.write_style(WriteStyle::Auto);
    let w = b.build(false, false);
    assert_eq!(WriteStyle::Never, w.write_style());

    let mut b = WriterBuilder::new();
    b.target(Target::Pipe);
    b.write_style(WriteStyle::Auto);
    let w = b.build(true, true);
    assert_eq!(WriteStyle::Never, w.write_style());

    let mut b = WriterBuilder::new();
    b.write_style(WriteStyle::Always);
    let w = b.build(false, false);
    assert_eq!(WriteStyle::Always, w.write_style());

    let mut b = WriterBuilder::new();
    b.write_style(WriteStyle::Always);
    b.is_test(true);
    let w = b.build(true, true);
    assert_eq!(WriteStyle::Never, w.write_style());
}

#[test]
fn formatter_accumulates_and_clears() {
    let mut b = WriterBuilder::new();
    b.write_style(WriteStyle::Never);
    let writer = b.build(false, false);
    let mut f = Formatter::new(&writer);
    assert_eq!(WriteStyle::Never, f.write_style());
    f.write("abc");
    f.write("def");
    assert_eq!("abcdef", f.as_str());
    f.clear();
    assert_eq!("", f.as_str());
    let cfg = DefaultFormat { module: true, level: true, ..bare_format() };
    f.write_record(&cfg, &test_record(), "");
    assert_eq!("[INFO  test::path] log\nmessage\n", f.as_str());
}

#[test]
fn rfc3339_epoch() {
    let ts = Timestamp::from_parts(0, 0, TimestampPrecision::Seconds).unwrap();
    assert_eq!("1970-01-01T00:00:00Z", ts.to_rfc3339());
}

#[test]
fn rfc3339_subsecond_precisions() {
    let secs = 1516991409; // 2018-01-26T18:30:09 UTC
    let nanos = 453_829_000;
    let millis = Timestamp::from_parts(secs, nanos, TimestampPrecision::Millis).unwrap();
    assert_eq!("2018-01-26T18:30:09.453Z", millis.to_rfc3339());
    let micros = Timestamp::from_parts(secs, nanos, TimestampPrecision::Micros).unwrap();
    assert_eq!("2018-01-26T18:30:09.453829Z", micros.to_rfc3339());
    let nanos_ts = Timestamp::from_parts(secs, nanos, TimestampPrecision::Nanos).unwrap();
    assert_eq!("2018-01-26T18:30:09.453829000Z", nanos_ts.to_rfc3339());
}

#[test]
fn timestamp_out_of_range_rejected() {
    assert!(Timestamp::from_parts(i64::MAX, 0, TimestampPrecision::Seconds).is_none());
    assert!(Timestamp::from_parts(0, 2_000_000_000, TimestampPrecision::Seconds).is_none());
}
