use env_logger::level::LevelFilter;
use env_logger::parser::{parse_spec, ParseResult};

#[test]
fn mod_parse_spec_valid() {
    let ParseResult { directives: dirs, filter, .. } =
        parse_spec("crate1::mod1=error,crate1::mod2,crate2=debug");
    assert_eq!(dirs.len(), 3);
    assert_eq!(dirs[0].name, Some("crate1::mod1".to_string()));
    assert_eq!(dirs[0].level, LevelFilter::Error);

    assert_eq!(dirs[1].name, Some("crate1::mod2".to_string()));
    assert_eq!(dirs[1].level, LevelFilter::max());

    assert_eq!(dirs[2].name, Some("crate2".to_string()));
    assert_eq!(dirs[2].level, LevelFilter::Debug);
    assert!(filter.is_none());
}

#[test]
fn mod_parse_spec_invalid_crate() {
    // test parse_spec with multiple = in specification
    let ParseResult { directives: dirs, filter, .. } =
        parse_spec("crate1::mod1=warn=info,crate2=debug");
    assert_eq!(dirs.len(), 1);
    assert_eq!(dirs[0].name, Some("crate2".to_string()));
    assert_eq!(dirs[0].level, LevelFilter::Debug);
    assert!(filter.is_none());
}

#[test]
fn mod_parse_spec_invalid_level() {
    // test parse_spec with 'noNumber' as log level
    let ParseResult { directives: dirs, filter, .. } =
        parse_spec("crate1::mod1=noNumber,crate2=debug");
    assert_eq!(dirs.len(), 1);
    assert_eq!(dirs[0].name, Some("crate2".to_string()));
    assert_eq!(dirs[0].level, LevelFilter::Debug);
    assert!(filter.is_none());
}

#[test]
fn mod_parse_spec_string_level() {
    // test parse_spec with 'warn' as log level
    let ParseResult { directives: dirs, filter, .. } =
        parse_spec("crate1::mod1=wrong,crate2=warn");
    assert_eq!(dirs.len(), 1);
    assert_eq!(dirs[0].name, Some("crate2".to_string()));
    assert_eq!(dirs[0].level, LevelFilter::Warn);
    assert!(filter.is_none());
}

#[test]
fn mod_parse_spec_empty_level() {
    // test parse_spec with '' as log level
    let ParseResult { directives: dirs, filter, .. } = parse_spec("crate1::mod1=wrong,crate2=");
    assert_eq!(dirs.len(), 1);
    assert_eq!(dirs[0].name, Some("crate2".to_string()));
    assert_eq!(dirs[0].level, LevelFilter::max());
    assert!(filter.is_none());
}

#[test]
fn mod_parse_spec_global() {
    // test parse_spec with no crate
    let ParseResult { directives: dirs, filter, .. } = parse_spec("warn,crate2=debug");
    assert_eq!(dirs.len(), 2);
    assert_eq!(dirs[0].name, None);
    assert_eq!(dirs[0].level, LevelFilter::Warn);
    assert_eq!(dirs[1].name, Some("crate2".to_string()));
    assert_eq!(dirs[1].level, LevelFilter::Debug);
    assert!(filter.is_none());
}

#[test]
fn mod_parse_spec_valid_filter() {
    let ParseResult { directives: dirs, filter, .. } =
        parse_spec("crate1::mod1=error,crate1::mod2,crate2=debug/abc");
    assert_eq!(dirs.len(), 3);
    assert_eq!(dirs[0].name, Some("crate1::mod1".to_string()));
    assert_eq!(dirs[0].level, LevelFilter::Error);

    assert_eq!(dirs[1].name, Some("crate1::mod2".to_string()));
    assert_eq!(dirs[1].level, LevelFilter::max());

    assert_eq!(dirs[2].name, Some("crate2".to_string()));
    assert_eq!(dirs[2].level, LevelFilter::Debug);
    assert!(filter.is_some() && filter.unwrap().as_str() == "abc");
}

#[test]
fn mod_parse_spec_invalid_crate_filter() {
    let ParseResult { directives: dirs, filter, .. } =
        parse_spec("crate1::mod1=error=warn,crate2=debug/a.c");
    assert_eq!(dirs.len(), 1);
    assert_eq!(dirs[0].name, Some("crate2".to_string()));
    assert_eq!(dirs[0].level, LevelFilter::Debug);
    assert!(filter.is_some() && filter.unwrap().as_str() == "a.c");
}

#[test]
fn mod_parse_spec_empty_with_filter() {
    let ParseResult { directives: dirs, filter, .. } = parse_spec("crate1/a*c");
    assert_eq!(dirs.len(), 1);
    assert_eq!(dirs[0].name, Some("crate1".to_string()));
    assert_eq!(dirs[0].level, LevelFilter::max());
    assert!(filter.is_some() && filter.unwrap().as_str() == "a*c");
}
