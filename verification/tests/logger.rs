use termrender::game::logger::{log_file_name, LogLevel, LogLevels, LogType, Logger};

#[test]
fn test_path() {
    let _l = LogLevel::Debug;
    let str = "l";
    println!("{}", str);
    let mut logger = Logger::new(None);
    logger.log(LogLevel::from_string("warn"), "termrender::game::logger::log_test::test_path", "asafas", 179, 0);
}

#[test]
fn macro_test() {
    let mut logger = Logger::new(None);
    logger.log(LogLevel::from_string("Warn"), "termrender::game::logger::log_test::macro_test", "WARNED", 183, 0);
    let g = &logger.logs;
    for x in g.iter() {
        println!("{x}")
    }
}

#[test]
fn level_names() {
    assert!(matches!(LogLevel::from_string("Info"), LogType::Level(LogLevel::Info)));
    assert!(matches!(LogLevel::from_string("Error"), LogType::Level(LogLevel::Error)));
    assert!(matches!(LogLevel::from_string("Err"), LogType::Level(LogLevel::Error)));
    assert!(matches!(LogLevel::from_string("Errors"), LogType::Str("Errors")));
    assert!(matches!(LogLevel::from_string("Debug"), LogType::Level(LogLevel::Debug)));
    assert!(matches!(LogLevel::from_string("warn"), LogType::Str("warn")));
}

#[test]
fn labelled_entries_are_kept() {
    let mut logger = Logger::new(Some("game".to_string()));
    logger.log(LogLevel::from_string("warn"), "a::b", "asafas", 12, 5);
    assert_eq!(logger.logs, vec!["5:\x1b[38;2;128;128;128mwarn\x1b[0m:a::b:12:asafas".to_string()]);
    assert_eq!(logger.stripped_logs(), vec!["5:warn:a::b:12:asafas".to_string()]);
    assert_eq!(logger.log_path.as_deref(), Some("game"));
}

#[test]
fn switched_off_levels_are_dropped() {
    let mut logger = Logger::new(None);
    logger.log(LogType::Level(LogLevel::Warn), "p", "WARNED", 1, 2);
    logger.log(LogType::Level(LogLevel::Debug), "p", "d", 1, 2);
    logger.log(LogType::Level(LogLevel::Info), "p", "i", 1, 2);
    logger.log(LogType::Level(LogLevel::Error), "p", "e", 1, 2);
    assert!(logger.logs.is_empty());
}

#[test]
fn log_paths() {
    let mut logger = Logger::new(None);
    logger.set_path(Some("out".to_string()));
    assert_eq!(logger.log_path.as_deref(), Some("out"));
    assert_eq!(log_file_name("game", 0), "game.log");
    assert_eq!(log_file_name("game", 3), "game.3.log");
    assert_eq!(log_file_name("", 12), ".12.log");
}

#[test]
fn switched_on_levels_are_kept() {
    let mut logger = Logger::new(None);
    assert_eq!(logger.levels, LogLevels { info: false, warn: false, error: false, debug: false });
    logger.set_levels(LogLevels { info: true, warn: false, error: true, debug: false });
    logger.log(LogType::Level(LogLevel::Info), "p", "i", 3, 7);
    logger.log(LogType::Level(LogLevel::Warn), "p", "w", 4, 8);
    logger.log(LogLevel::from_string("Err"), "p", "e", 5, 9);
    assert_eq!(
        logger.logs,
        vec![
            "7:\x1b[38;2;0;255;255mInfo\x1b[0m:p:3:i".to_string(),
            "9:\x1b[38;2;255;0;0mError\x1b[0m:p:5:e".to_string(),
        ]
    );
    assert_eq!(logger.stripped_logs(), vec!["7:Info:p:3:i".to_string(), "9:Error:p:5:e".to_string()]);
}
