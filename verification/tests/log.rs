use hello::log::{entry, log, LogLevel};

#[test]
fn levels_are_labelled_in_upper_case() {
    assert_eq!(LogLevel::Trace.label(), "TRACE");
    assert_eq!(LogLevel::Debug.label(), "DEBUG");
    assert_eq!(LogLevel::Info.label(), "INFO");
    assert_eq!(LogLevel::Warn.label(), "WARN");
    assert_eq!(LogLevel::Error.label(), "ERROR");
    assert_eq!(LogLevel::Fatal.label(), "FATAL");
}

#[test]
fn entry_joins_stamp_level_and_message() {
    assert_eq!(
        entry(LogLevel::Info, "2024-05-01T12:00:00+02:00", "initialization done"),
        "2024-05-01T12:00:00+02:00 INFO initialization done\n"
    );
    assert_eq!(entry(LogLevel::Fatal, "", ""), " FATAL \n");
    assert_eq!(entry(LogLevel::Warn, "t", "two\nlines"), "t WARN two\nlines\n");
}

#[test]
fn log_stamps_the_entry_with_the_time_of_the_call() {
    let before = chrono::Local::now();
    let logged = log(LogLevel::Error, "could not accept connection: timed out");
    let after = chrono::Local::now();
    let rest = " ERROR could not accept connection: timed out\n";
    assert!(logged.ends_with(rest));
    let stamp = &logged[..logged.len() - rest.len()];
    let when = chrono::DateTime::parse_from_rfc3339(stamp).expect("the stamp is a time");
    assert!(before <= when && when <= after);
    assert_eq!(entry(LogLevel::Error, stamp, "could not accept connection: timed out"), logged);
}
