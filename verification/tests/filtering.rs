use env_logger::directive::{enabled, Directive};
use env_logger::filter::Builder;
use env_logger::filtered_log::FilteredLog;
use env_logger::level::{Level, LevelFilter};
use env_logger::record::LogRecord;

fn record(level: Level, target: &str, args: &str) -> LogRecord {
    LogRecord {
        level,
        target: target.to_string(),
        module: Some(target.to_string()),
        args: args.to_string(),
    }
}

#[test]
fn filter_info() {
    let mut builder = Builder::new();
    builder.filter(None, LevelFilter::Info);
    let logger = builder.build();
    assert!(logger.enabled(Level::Info, "crate1"));
    assert!(!logger.enabled(Level::Debug, "crate1"));
}

#[test]
fn filter_beginning_longest_match() {
    let mut builder = Builder::new();
    builder.filter(Some("crate2"), LevelFilter::Info);
    builder.filter(Some("crate2::mod"), LevelFilter::Debug);
    builder.filter(Some("crate1::mod1"), LevelFilter::Warn);
    let logger = builder.build();
    assert!(logger.enabled(Level::Debug, "crate2::mod1"));
    assert!(!logger.enabled(Level::Debug, "crate2"));
}

#[test]
fn parse_default() {
    let mut builder = Builder::new();
    builder.parse("info,crate1::mod1=warn");
    let logger = builder.build();
    assert!(logger.enabled(Level::Warn, "crate1::mod1"));
    assert!(logger.enabled(Level::Info, "crate2::mod2"));
}

#[test]
fn match_full_path() {
    let dirs = vec![
        Directive { name: Some("crate2".to_string()), level: LevelFilter::Info },
        Directive { name: Some("crate1::mod1".to_string()), level: LevelFilter::Warn },
    ];
    assert!(enabled(&dirs, Level::Warn, "crate1::mod1"));
    assert!(!enabled(&dirs, Level::Info, "crate1::mod1"));
    assert!(enabled(&dirs, Level::Info, "crate2"));
    assert!(!enabled(&dirs, Level::Debug, "crate2"));
}

#[test]
fn no_match() {
    let dirs = vec![
        Directive { name: Some("crate2".to_string()), level: LevelFilter::Info },
        Directive { name: Some("crate1::mod1".to_string()), level: LevelFilter::Warn },
    ];
    assert!(!enabled(&dirs, Level::Warn, "crate3"));
}

#[test]
fn match_beginning() {
    let dirs = vec![
        Directive { name: Some("crate2".to_string()), level: LevelFilter::Info },
        Directive { name: Some("crate1::mod1".to_string()), level: LevelFilter::Warn },
    ];
    assert!(enabled(&dirs, Level::Info, "crate2::mod1"));
}

#[test]
fn match_beginning_longest_match() {
    let dirs = vec![
        Directive { name: Some("crate2".to_string()), level: LevelFilter::Info },
        Directive { name: Some("crate2::mod".to_string()), level: LevelFilter::Debug },
        Directive { name: Some("crate1::mod1".to_string()), level: LevelFilter::Warn },
    ];
    assert!(enabled(&dirs, Level::Debug, "crate2::mod1"));
    assert!(!enabled(&dirs, Level::Debug, "crate2"));
}

#[test]
fn match_default() {
    let dirs = vec![
        Directive { name: None, level: LevelFilter::Info },
        Directive { name: Some("crate1::mod1".to_string()), level: LevelFilter::Warn },
    ];
    assert!(enabled(&dirs, Level::Warn, "crate1::mod1"));
    assert!(enabled(&dirs, Level::Info, "crate2::mod2"));
}

#[test]
fn zero_level() {
    let dirs = vec![
        Directive { name: None, level: LevelFilter::Info },
        Directive { name: Some("crate1::mod1".to_string()), level: LevelFilter::Off },
    ];
    assert!(!enabled(&dirs, Level::Error, "crate1::mod1"));
    assert!(enabled(&dirs, Level::Info, "crate2::mod2"));
}

#[test]
fn scenario_global_enabled() {
    // "warn,crate2=debug": a record at Warn passes the global directive,
    // one at Info does not (Info ranks above Warn in verbosity)
    let mut builder = Builder::new();
    builder.parse("warn,crate2=debug");
    let logger = builder.build();
    assert!(logger.enabled(Level::Warn, "other"));
    assert!(!logger.enabled(Level::Info, "other"));
    assert!(logger.enabled(Level::Debug, "crate2::detail"));
}

#[test]
fn empty_spec_default_directive() {
    // an empty specification recovers zero directives; the filter then
    // falls back to the single global Error directive
    let mut builder = Builder::new();
    builder.parse("");
    let logger = builder.build();
    let dirs = logger.directives();
    assert_eq!(dirs.len(), 1);
    assert_eq!(dirs[0].name, None);
    assert_eq!(dirs[0].level, LevelFilter::Error);
    assert!(logger.enabled(Level::Error, "anything"));
    assert!(!logger.enabled(Level::Warn, "anything"));
}

#[test]
fn content_filter_matches() {
    // "crate1/a*c": one directive at the maximum level, plus a content
    // filter compiled from "a*c"
    let mut builder = Builder::new();
    builder.parse("crate1/a*c");
    let logger = builder.build();
    assert!(logger.matches(&record(Level::Trace, "crate1", "aaac")));
    assert!(!logger.matches(&record(Level::Trace, "crate1", "xyz")));
}

#[test]
fn matches_without_content_filter() {
    let mut builder = Builder::new();
    builder.parse("crate1=info");
    let logger = builder.build();
    assert!(logger.matches(&record(Level::Info, "crate1", "anything")));
    assert!(!logger.matches(&record(Level::Debug, "crate1", "anything")));
    assert!(!logger.matches(&record(Level::Info, "crate9", "anything")));
}

#[test]
fn filter_max_level() {
    let mut builder = Builder::new();
    builder.filter(Some("module1"), LevelFilter::Info);
    builder.filter(Some("module2"), LevelFilter::Error);
    let logger = builder.build();
    assert_eq!(logger.filter(), LevelFilter::Info);
}

#[test]
fn filter_max_level_empty_is_default() {
    let mut builder = Builder::new();
    let logger = builder.build();
    assert_eq!(logger.filter(), LevelFilter::Error);
}

#[test]
fn off_disables_every_level() {
    let dirs = vec![Directive { name: Some("crate1".to_string()), level: LevelFilter::Off }];
    assert!(!enabled(&dirs, Level::Error, "crate1::anything"));
    assert!(!enabled(&dirs, Level::Trace, "crate1::anything"));
}

#[test]
fn longest_prefix_wins_either_declaration_order() {
    for flip in [false, true] {
        let mut builder = Builder::new();
        if flip {
            builder.filter(Some("crate1::mod1"), LevelFilter::Debug);
            builder.filter(Some("crate1"), LevelFilter::Error);
        } else {
            builder.filter(Some("crate1"), LevelFilter::Error);
            builder.filter(Some("crate1::mod1"), LevelFilter::Debug);
        }
        let logger = builder.build();
        assert!(logger.enabled(Level::Debug, "crate1::mod1"));
        assert!(!logger.enabled(Level::Debug, "crate1::other"));
    }
}

#[test]
fn global_off_suppresses_default() {
    // an explicit global Off directive bypasses the injected default and
    // silences everything
    let mut builder = Builder::new();
    builder.parse("off");
    let logger = builder.build();
    assert!(!logger.enabled(Level::Error, "anything"));
    assert_eq!(logger.filter(), LevelFilter::Off);
}

#[test]
fn duplicate_directive_later_wins() {
    // directives of equal name length keep declaration order through the
    // stable sort, and the reverse scan meets the later one first
    let mut builder = Builder::new();
    builder.parse("crate1=info,crate1=error");
    let logger = builder.build();
    assert!(logger.enabled(Level::Error, "crate1"));
    assert!(!logger.enabled(Level::Info, "crate1"));
}

#[test]
fn prefix_match_is_textual() {
    // matching is a plain prefix test on the target text
    let mut builder = Builder::new();
    builder.parse("crate1=debug");
    let logger = builder.build();
    assert!(logger.enabled(Level::Debug, "crate10"));
    assert!(!logger.enabled(Level::Debug, "crate"));
}

#[test]
fn reparse_reproduces_behavior() {
    // parsing the same specification twice yields filters that agree on
    // the whole behavior table
    let spec = "info,crate1::mod1=warn,crate2=off/abc";
    let mut b1 = Builder::new();
    b1.parse(spec);
    let f1 = b1.build();
    let mut b2 = Builder::new();
    b2.parse(spec);
    let f2 = b2.build();
    let levels = [Level::Error, Level::Warn, Level::Info, Level::Debug, Level::Trace];
    let targets = ["crate1::mod1", "crate1::mod1::x", "crate2", "crate2::y", "other"];
    for level in levels {
        for target in targets {
            assert_eq!(f1.enabled(level, target), f2.enabled(level, target));
            let r = record(level, target, "abc");
            assert_eq!(f1.matches(&r), f2.matches(&r));
        }
    }
    assert!(f1.enabled(Level::Warn, "crate1::mod1::x"));
    assert!(!f1.enabled(Level::Info, "crate1::mod1::x"));
    assert!(!f1.enabled(Level::Error, "crate2::y"));
    assert!(f1.enabled(Level::Info, "other"));
}

#[test]
fn filtered_log_carries_its_parts() {
    let mut builder = Builder::new();
    builder.parse("crate1=debug");
    let filter = builder.build();
    let wrapped = FilteredLog::new(filter, vec![1u8, 2u8]);
    assert_eq!(wrapped.inner(), &vec![1u8, 2u8]);
    assert!(wrapped.filter().enabled(Level::Debug, "crate1"));
    let (filter, sink) = wrapped.into_parts();
    assert!(filter.enabled(Level::Debug, "crate1"));
    assert_eq!(sink, vec![1u8, 2u8]);
}
