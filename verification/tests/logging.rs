//! Behaviour of the log records and the pure formatting behind the loggers.

use soulog::Colours;
use soulog::ErrorResponse;
use soulog::Log;
use soulog::LogType;
use soulog::PanicLogger;
use soulog::colour::colour_tag;
use soulog::logger::ask_prompt;

#[test]
fn colour_constants_are_the_escape_sequences() {
    assert_eq!(Colours::NORMAL, "\x1b[0m");
    assert_eq!(Colours::PINK, "\x1b[35m");
    assert_eq!(Colours::WHITE, "\x1b[37m");
    assert_eq!(Colours::BLUE, "\x1b[34m");
    assert_eq!(Colours::GREEN, "\x1b[32m");
    assert_eq!(Colours::CYAN, "\x1b[36m");
    assert_eq!(Colours::RED, "\x1b[31m");
    assert_eq!(Colours::BLACK, "\x1b[30m");
    assert_eq!(Colours::YELLOW, "\x1b[33m");
}

#[test]
fn log_new_keeps_its_parts() {
    let allowed = [ErrorResponse::Retry, ErrorResponse::Crash];
    let log = Log::new(LogType::Failure, "Database", "connection lost", &allowed);
    assert!(matches!(log.log_type, LogType::Failure));
    assert_eq!(log.origin, "Database");
    assert_eq!(log.message, "connection lost");
    assert_eq!(log.allowed_responses.len(), 2);
}

#[test]
fn allowed_in_finds_a_listed_response() {
    let allowed = [ErrorResponse::Retry, ErrorResponse::Crash, ErrorResponse::Panic];
    let log = Log::new(LogType::Failure, "IO", "read failed", &allowed);
    assert!(ErrorResponse::Retry.allowed_in(&log));
    assert!(ErrorResponse::Crash.allowed_in(&log));
    assert!(ErrorResponse::Panic.allowed_in(&log));
    assert!(!ErrorResponse::AskUser.allowed_in(&log));
}

#[test]
fn nothing_is_allowed_in_an_empty_list() {
    let log = Log::new(LogType::Log, "Core", "started", &[]);
    assert!(!ErrorResponse::Retry.allowed_in(&log));
    assert!(!ErrorResponse::Panic.allowed_in(&log));
    assert!(!ErrorResponse::Crash.allowed_in(&log));
    assert!(!ErrorResponse::AskUser.allowed_in(&log));
}

#[test]
fn colour_tag_brackets_the_origin() {
    let tag = colour_tag(Colours::CYAN, "Logger");
    assert_eq!(tag, "\x1b[34m[\x1b[36mLogger\x1b[34m] ");
}

#[test]
fn verbose_line_is_the_tagged_message() {
    let log = Log::new(LogType::Log, "Core", "example log", &[]);
    let line = PanicLogger::verbose_line(&log);
    assert_eq!(line, "\x1b[34m[\x1b[36mCore\x1b[34m] \x1b[0mexample log\x1b[0m");
}

#[test]
fn vital_line_labels_an_inconvenience() {
    let log = Log::new(LogType::Inconvenience, "Database", "not found; creating one", &[]);
    let line = PanicLogger::vital_line(&log).unwrap();
    assert_eq!(
        line,
        "\x1b[34m[\x1b[33mDatabase\x1b[34m] \x1b[33mInconvenience: \x1b[0mnot found; creating one\x1b[0m"
    );
}

#[test]
fn vital_line_refuses_other_kinds() {
    let log = Log::new(LogType::Log, "Core", "started", &[]);
    assert!(PanicLogger::vital_line(&log).is_none());
    let fatal = Log::new(LogType::Fatal, "Core", "gone", &[]);
    assert!(PanicLogger::vital_line(&fatal).is_none());
}

#[test]
fn error_line_labels_fatal_and_failure() {
    let fatal = Log::new(LogType::Fatal, "Core", "gone", &[]);
    assert_eq!(
        PanicLogger::error_line(&fatal).unwrap(),
        "\x1b[34m[\x1b[31mCore\x1b[34m] \x1b[31mFatal: \x1b[0mgone\x1b[0m"
    );
    let failure = Log::new(LogType::Failure, "IO", "retrying", &[]);
    assert_eq!(
        PanicLogger::error_line(&failure).unwrap(),
        "\x1b[34m[\x1b[31mIO\x1b[34m] \x1b[31mFailure: \x1b[0mretrying\x1b[0m"
    );
}

#[test]
fn error_line_refuses_other_kinds() {
    let log = Log::new(LogType::Log, "Core", "started", &[]);
    assert!(PanicLogger::error_line(&log).is_none());
    let inconvenience = Log::new(LogType::Inconvenience, "Core", "slow", &[]);
    assert!(PanicLogger::error_line(&inconvenience).is_none());
}

#[test]
fn ask_prompt_ends_ready_for_the_answer() {
    let prompt = ask_prompt("Setup", "name");
    assert_eq!(
        prompt,
        "\x1b[34m[\x1b[36mSetup\x1b[34m] \x1b[36mname\x1b[34m: \x1b[0m"
    );
}
