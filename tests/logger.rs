use enola::logger::{LogLevel, Logger};

#[test]
fn levels_from_verbosity() {
    assert_eq!(LogLevel::from(1), LogLevel::Info);
    assert_eq!(LogLevel::from(5), LogLevel::NotFound);
    assert_eq!(LogLevel::from(7), LogLevel::Request);
    assert_eq!(LogLevel::from(8), LogLevel::Response);
    assert_eq!(LogLevel::from(0), LogLevel::Response);
}

#[test]
fn level_labels() {
    assert_eq!(LogLevel::Info.as_str(), "\x1b[32mINF\x1b[0m");
    assert_eq!(LogLevel::NotFound.as_str(), "\x1b[91m!FOUND\x1b[0m");
}

#[test]
fn lines_at_or_above_threshold_are_rendered() {
    let l = Logger::new(LogLevel::Found);
    assert_eq!(l.inf("hello", false), Some("[ \x1b[32mINF\x1b[0m ] hello".to_string()));
    assert_eq!(l.err("bad", true), Some("[ \x1b[1m\x1b[31mERR\x1b[0m\x1b[0m ] bad".to_string()));
    assert_eq!(l.fnd("x", false), Some("[ \x1b[92mFOUND\x1b[0m ] x".to_string()));
    assert_eq!(l.dbg("hidden", false), None);
    assert_eq!(l.req("hidden", false), None);
    assert_eq!(l.nfnd("hidden", false), None);
    assert_eq!(l.res("hidden", false), None);
    assert_eq!(l.warn("w", false), Some("[ \x1b[33mWARN\x1b[0m ] w".to_string()));
}

#[test]
fn most_verbose_logger_shows_everything() {
    let l = Logger::new(LogLevel::Response);
    assert!(l.res("r", false).is_some());
    assert_eq!(l.log(LogLevel::Debug, "d", false), Some("[ \x1b[34mDBG\x1b[0m ] d".to_string()));
}
