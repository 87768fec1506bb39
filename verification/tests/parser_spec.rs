use env_logger::level::LevelFilter;
use env_logger::parser::{parse_spec, ParseResult};

#[test]
fn parser_parse_spec_valid() {
    let ParseResult { directives: dirs, filter, .. } =
        parse_spec("crate1::mod1=error,crate1::mod2,crate2=debug");

    assert_eq!(dirs.len(), 3);
    assert_eq!(dirs[0].name, Some("crate1::mod1".to_owned()));
    assert_eq!(dirs[0].level, LevelFilter::Error);

    assert_eq!(dirs[1].name, Some("crate1::mod2".to_owned()));
    assert_eq!(dirs[1].level, LevelFilter::max());

    assert_eq!(dirs[2].name, Some("crate2".to_owned()));
    assert_eq!(dirs[2].level, LevelFilter::Debug);
    assert!(filter.is_none());
}

#[test]
fn parser_parse_spec_invalid_crate() {
    // test parse_spec with multiple = in specification
    let ParseResult { directives: dirs, filter, .. } =
        parse_spec("crate1::mod1=warn=info,crate2=debug");

    assert_eq!(dirs.len(), 1);
    assert_eq!(dirs[0].name, Some("crate2".to_owned()));
    assert_eq!(dirs[0].level, LevelFilter::Debug);
    assert!(filter.is_none());
}

#[test]
fn parser_parse_spec_invalid_level() {
    // test parse_spec with 'noNumber' as log level
    let ParseResult { directives: dirs, filter, .. } =
        parse_spec("crate1::mod1=noNumber,crate2=debug");

    assert_eq!(dirs.len(), 1);
    assert_eq!(dirs[0].name, Some("crate2".to_owned()));
    assert_eq!(dirs[0].level, LevelFilter::Debug);
    assert!(filter.is_none());
}

#[test]
fn parser_parse_spec_string_level() {
    // test parse_spec with 'warn' as log level
    let ParseResult { directives: dirs, filter, .. } =
        parse_spec("crate1::mod1=wrong,crate2=warn");

    assert_eq!(dirs.len(), 1);
    assert_eq!(dirs[0].name, Some("crate2".to_owned()));
    assert_eq!(dirs[0].level, LevelFilter::Warn);
    assert!(filter.is_none());
}

#[test]
fn parser_parse_spec_empty_level() {
    // test parse_spec with '' as log level
    let ParseResult { directives: dirs, filter, .. } = parse_spec("crate1::mod1=wrong,crate2=");

    assert_eq!(dirs.len(), 1);
    assert_eq!(dirs[0].name, Some("crate2".to_owned()));
    assert_eq!(dirs[0].level, LevelFilter::max());
    assert!(filter.is_none());
}

#[test]
fn parse_spec_empty_level_isolated() {
    // test parse_spec with "" as log level (and the entire spec str)
    let ParseResult { directives: dirs, filter, .. } = parse_spec(""); // should be ignored
    assert_eq!(dirs.len(), 0);
    assert!(filter.is_none());
}

#[test]
fn parse_spec_blank_level_isolated() {
    // test parse_spec with a white-space-only string specified as the log
    // level (and the entire spec str)
    let ParseResult { directives: dirs, filter, .. } = parse_spec("     "); // should be ignored
    assert_eq!(dirs.len(), 0);
    assert!(filter.is_none());
}

#[test]
fn parse_spec_blank_level_isolated_comma_only() {
    // The spec should contain zero or more comma-separated string slices,
    // so a comma-only string should be interpreted as two empty strings
    // (which should both be treated as invalid, so ignored).
    let ParseResult { directives: dirs, filter, .. } = parse_spec(","); // should be ignored
    assert_eq!(dirs.len(), 0);
    assert!(filter.is_none());
}

#[test]
fn parse_spec_blank_level_isolated_comma_blank() {
    // The spec should contain zero or more comma-separated string slices,
    // so this bogus spec should be interpreted as containing one empty
    // string and one blank string. Both should both be treated as
    // invalid, so ignored.
    let ParseResult { directives: dirs, filter, .. } = parse_spec(",     "); // should be ignored
    assert_eq!(dirs.len(), 0);
    assert!(filter.is_none());
}

#[test]
fn parse_spec_blank_level_isolated_blank_comma() {
    // The spec should contain zero or more comma-separated string slices,
    // so this bogus spec should be interpreted as containing one blank
    // string and one empty string. Both should both be treated as
    // invalid, so ignored.
    let ParseResult { directives: dirs, filter, .. } = parse_spec("     ,"); // should be ignored
    assert_eq!(dirs.len(), 0);
    assert!(filter.is_none());
}

#[test]
fn parser_parse_spec_global() {
    // test parse_spec with no crate
    let ParseResult { directives: dirs, filter, .. } = parse_spec("warn,crate2=debug");
    assert_eq!(dirs.len(), 2);
    assert_eq!(dirs[0].name, None);
    assert_eq!(dirs[0].level, LevelFilter::Warn);
    assert_eq!(dirs[1].name, Some("crate2".to_owned()));
    assert_eq!(dirs[1].level, LevelFilter::Debug);
    assert!(filter.is_none());
}

#[test]
fn parse_spec_global_bare_warn_lc() {
    // test parse_spec with no crate, in isolation, all lowercase
    let ParseResult { directives: dirs, filter, .. } = parse_spec("warn");
    assert_eq!(dirs.len(), 1);
    assert_eq!(dirs[0].name, None);
    assert_eq!(dirs[0].level, LevelFilter::Warn);
    assert!(filter.is_none());
}

#[test]
fn parse_spec_global_bare_warn_uc() {
    // test parse_spec with no crate, in isolation, all uppercase
    let ParseResult { directives: dirs, filter, .. } = parse_spec("WARN");
    assert_eq!(dirs.len(), 1);
    assert_eq!(dirs[0].name, None);
    assert_eq!(dirs[0].level, LevelFilter::Warn);
    assert!(filter.is_none());
}

#[test]
fn parse_spec_global_bare_warn_mixed() {
    // test parse_spec with no crate, in isolation, mixed case
    let ParseResult { directives: dirs, filter, .. } = parse_spec("wArN");
    assert_eq!(dirs.len(), 1);
    assert_eq!(dirs[0].name, None);
    assert_eq!(dirs[0].level, LevelFilter::Warn);
    assert!(filter.is_none());
}

#[test]
fn parser_parse_spec_valid_filter() {
    let ParseResult { directives: dirs, filter, .. } =
        parse_spec("crate1::mod1=error,crate1::mod2,crate2=debug/abc");
    assert_eq!(dirs.len(), 3);
    assert_eq!(dirs[0].name, Some("crate1::mod1".to_owned()));
    assert_eq!(dirs[0].level, LevelFilter::Error);

    assert_eq!(dirs[1].name, Some("crate1::mod2".to_owned()));
    assert_eq!(dirs[1].level, LevelFilter::max());

    assert_eq!(dirs[2].name, Some("crate2".to_owned()));
    assert_eq!(dirs[2].level, LevelFilter::Debug);
    assert!(filter.is_some() && filter.unwrap().as_str() == "abc");
}

#[test]
fn parser_parse_spec_invalid_crate_filter() {
    let ParseResult { directives: dirs, filter, .. } =
        parse_spec("crate1::mod1=error=warn,crate2=debug/a.c");

    assert_eq!(dirs.len(), 1);
    assert_eq!(dirs[0].name, Some("crate2".to_owned()));
    assert_eq!(dirs[0].level, LevelFilter::Debug);
    assert!(filter.is_some() && filter.unwrap().as_str() == "a.c");
}

#[test]
fn parser_parse_spec_empty_with_filter() {
    let ParseResult { directives: dirs, filter, .. } = parse_spec("crate1/a*c");
    assert_eq!(dirs.len(), 1);
    assert_eq!(dirs[0].name, Some("crate1".to_owned()));
    assert_eq!(dirs[0].level, LevelFilter::max());
    assert!(filter.is_some() && filter.unwrap().as_str() == "a*c");
}

#[test]
fn parse_spec_records_error_for_invalid_piece() {
    let ParseResult { directives: dirs, errors, .. } =
        parse_spec("crate1::mod1=warn=info,crate2=debug");
    assert_eq!(dirs.len(), 1);
    assert_eq!(errors.len(), 1);
    assert_eq!(errors[0], "invalid logging spec 'crate1::mod1=warn=info'");
}

#[test]
fn parse_spec_records_error_for_bad_level() {
    let ParseResult { errors, .. } = parse_spec("crate1::mod1=noNumber");
    assert_eq!(errors.len(), 1);
    assert_eq!(errors[0], "invalid logging spec 'noNumber'");
}

#[test]
fn parse_spec_too_many_slashes() {
    let ParseResult { directives: dirs, filter, errors } = parse_spec("a=debug/b/c");
    assert_eq!(dirs.len(), 0);
    assert!(filter.is_none());
    assert_eq!(errors.len(), 1);
    assert_eq!(errors[0], "invalid logging spec 'a=debug/b/c' (too many '/'s)");
}

#[test]
fn parse_spec_bad_filter_pattern() {
    let ParseResult { directives: dirs, filter, errors } = parse_spec("crate1=debug/a(");
    assert_eq!(dirs.len(), 1);
    assert!(filter.is_none());
    assert_eq!(errors.len(), 1);
    assert!(errors[0].starts_with("invalid regex filter - "));
}

#[test]
fn parse_spec_numeric_levels() {
    let ParseResult { directives: dirs, .. } = parse_spec("3,crate2=0");
    assert_eq!(dirs.len(), 2);
    assert_eq!(dirs[0].name, None);
    assert_eq!(dirs[0].level, LevelFilter::Info);
    assert_eq!(dirs[1].name, Some("crate2".to_owned()));
    assert_eq!(dirs[1].level, LevelFilter::Off);
}

#[test]
fn parse_spec_empty_name_directive() {
    // "=info" carries an empty module name, which matches every target
    let ParseResult { directives: dirs, .. } = parse_spec("=info");
    assert_eq!(dirs.len(), 1);
    assert_eq!(dirs[0].name, Some("".to_owned()));
    assert_eq!(dirs[0].level, LevelFilter::Info);
}

#[test]
fn parse_spec_trims_pieces() {
    let ParseResult { directives: dirs, .. } = parse_spec("  crate1::mod1 = info , warn  ");
    assert_eq!(dirs.len(), 2);
    // the name keeps its inner spacing up to the '='; only the piece and
    // the level are trimmed
    assert_eq!(dirs[0].name, Some("crate1::mod1 ".to_owned()));
    assert_eq!(dirs[0].level, LevelFilter::Info);
    assert_eq!(dirs[1].name, None);
    assert_eq!(dirs[1].level, LevelFilter::Warn);
}
