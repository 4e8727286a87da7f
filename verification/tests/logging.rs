use andromeda::instances::{operation_error, ErrorKind};
use andromeda::logging::{log_file_name, log_message, LogFileSearch, Logger, OperationLog, Severity};

#[test]
fn entries_are_time_stamped_and_appended_in_order() {
    let mut logger = Logger::new();
    assert_eq!(logger.len(), 0);
    log_message(&mut logger, Severity::Info, "first");
    log_message(&mut logger, Severity::Fatal, "second");
    assert_eq!(logger.len(), 2);
    let first = logger.entry(0);
    assert!(first.starts_with("[ Info ]["));
    assert!(first.ends_with("] first"));
    assert!(logger.entry(1).starts_with("[ Fatal ]["));
    assert!(logger.entry(1).ends_with("] second"));
}

#[test]
fn operations_log_requests_steps_and_failures() {
    let mut logger = Logger::new();
    let mut operation = OperationLog::new(&mut logger, "delete", Some("vm \"a\""));
    operation.step(&mut logger, "Deleting instance from database");
    operation.failure(&mut logger, Severity::Error, "disk busy");
    let list = OperationLog::new(&mut logger, "list", None);
    list.info(&mut logger, "Completed: returning 2 instance IDs");
    let entries = logger.entries();
    assert!(entries[0].ends_with("] Request received: delete instance \"vm \\\"a\\\"\""));
    assert!(entries[1].ends_with("] Deleting instance from database"));
    assert!(entries[2].starts_with("[ Error ]"));
    assert!(entries[2].ends_with("] Deleting instance from database failed: disk busy"));
    assert!(entries[3].ends_with("] Request received: list instances"));
    assert!(entries[4].ends_with("] Completed: returning 2 instance IDs"));
}

#[test]
fn internal_instance_errors_are_logged_as_errors() {
    let mut logger = Logger::new();
    let operation = OperationLog::new(&mut logger, "start", Some("x"));
    let error = operation_error(&operation, &mut logger, ErrorKind::Internal, "boom");
    assert_eq!(error.kind, ErrorKind::Internal);
    assert_eq!(error.to_string(), "boom");
    let warning = operation_error(&operation, &mut logger, ErrorKind::Conflict, "busy");
    assert_eq!(warning.message, "busy");
    assert!(logger.entry(1).starts_with("[ Error ]"));
    assert!(logger.entry(1).ends_with("] Request failed: boom"));
    assert!(logger.entry(2).starts_with("[ Warning ]"));
}

#[test]
fn saved_logs_are_numbered_per_day() {
    assert_eq!(log_file_name("2024-05-01", 1), "LOG-2024-05-01-1.txt");
    assert_eq!(log_file_name("2024-05-01", 12), "LOG-2024-05-01-12.txt");
}

#[test]
fn the_log_file_search_counts_up_from_one() {
    let mut search = LogFileSearch::new("2024-05-01");
    assert_eq!(search.candidate(), "LOG-2024-05-01-1.txt");
    assert!(search.taken());
    assert!(search.taken());
    assert_eq!(search.candidate(), "LOG-2024-05-01-3.txt");
}

#[test]
fn time_stamps_follow_the_log_format() {
    let mut logger = Logger::new();
    log_message(&mut logger, Severity::Warning, "late");
    let entry = logger.entry(0);
    let time = entry
        .strip_prefix("[ Warning ][")
        .and_then(|rest| rest.strip_suffix("] late"))
        .unwrap();
    let chars: Vec<char> = time.chars().collect();
    assert!(chars.len() >= 24, "{time}");
    assert!(["Sun", "Mon", "Tue", "Wed", "Thu", "Fri", "Sat"].contains(&&time[0..3]));
    assert!(["Jan", "Feb", "Mar", "Apr", "May", "Jun", "Jul", "Aug", "Sep", "Oct", "Nov", "Dec"]
        .contains(&&time[4..7]));
    for (index, expected) in [(3, ' '), (7, ' '), (10, ' '), (13, ':'), (16, ':'), (19, ' ')] {
        assert_eq!(chars[index], expected, "{time}");
    }
}
