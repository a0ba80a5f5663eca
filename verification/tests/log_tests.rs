use symlonk::log::LogLevel;

#[test]
fn levels_rank_from_debug_to_error() {
    assert_eq!(LogLevel::Debug.rank(), 0);
    assert_eq!(LogLevel::Info.rank(), 1);
    assert_eq!(LogLevel::Success.rank(), 2);
    assert_eq!(LogLevel::Error.rank(), 3);
}

#[test]
fn a_logger_shows_its_own_level_and_heavier_ones() {
    assert!(LogLevel::Info.allows(LogLevel::Info));
    assert!(LogLevel::Info.allows(LogLevel::Success));
    assert!(LogLevel::Info.allows(LogLevel::Error));
    assert!(!LogLevel::Info.allows(LogLevel::Debug));
    assert!(LogLevel::Debug.allows(LogLevel::Debug));
    assert!(!LogLevel::Error.allows(LogLevel::Success));
}

#[test]
fn levels_have_their_tags() {
    assert_eq!(LogLevel::Debug.tag(), "DEBUG");
    assert_eq!(LogLevel::Info.tag(), "INFO");
    assert_eq!(LogLevel::Success.tag(), "OK");
    assert_eq!(LogLevel::Error.tag(), "ERROR");
}

#[test]
fn levels_compare_by_weight() {
    assert!(LogLevel::Debug < LogLevel::Info);
    assert!(LogLevel::Info < LogLevel::Success);
    assert!(LogLevel::Success < LogLevel::Error);
    assert!(LogLevel::Info <= LogLevel::Info);
}
