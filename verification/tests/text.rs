use cmdproxy::error::{Error, ErrorKind};
use cmdproxy::text::{decimal, join};

#[test]
fn decimal_writes_digits() {
    assert_eq!(decimal(0), "0");
    assert_eq!(decimal(7), "7");
    assert_eq!(decimal(10), "10");
    assert_eq!(decimal(1234567890), "1234567890");
    assert_eq!(decimal(-1), "-1");
    assert_eq!(decimal(-120), "-120");
    assert_eq!(decimal(i32::MAX), "2147483647");
    assert_eq!(decimal(i32::MIN), "-2147483648");
}

#[test]
fn join_puts_the_separator_between() {
    let none: Vec<String> = vec![];
    assert_eq!(join(&none, ", "), "");
    assert_eq!(join(&vec!["a".to_string()], ", "), "a");
    assert_eq!(join(&vec!["a".to_string(), "b".to_string(), "".to_string()], ", "), "a, b, ");
}

#[test]
fn error_messages_are_exact() {
    let miss = Error::env_miss("HOME");
    assert_eq!(miss.kind, ErrorKind::EnvMiss);
    assert_eq!(miss.to_string(), "environment variable `HOME' is not set");

    let palette = Error::palette_miss("nonesuch", &vec!["sh".to_string(), "ls".to_string()]);
    assert_eq!(palette.kind, ErrorKind::PaletteMiss);
    assert_eq!(
        palette.to_string(),
        "Command `nonesuch' not found in command-palette: [sh, ls]"
    );

    let server = Error::server(-1, "boom");
    assert_eq!(server.kind, ErrorKind::Server);
    assert_eq!(server.to_string(), "Server Error: code=-1, boom");

    let misplaced = Error::misplaced("@h:/p");
    assert_eq!(misplaced.kind, ErrorKind::Validation);
    assert_eq!(misplaced.to_string(), "Unaccepted local file param for server: @h:/p");

    let other = Error::new(ErrorKind::Transport, "broker is down");
    assert_eq!(other.kind, ErrorKind::Transport);
    assert_eq!(other.to_string(), "broker is down");
    assert_eq!(other.clone(), other);
}
