use dotdeploy::logs::{rotate_logs, LogError, LoggerBuilder, Verbosity, DEFAULT_MAX_LOGS};

#[test]
fn test_log_rotation() {
    let mut names = Vec::new();
    for i in 0..10 {
        names.push(format!("dotdeploy_20241028_21441{}.log", i));
    }
    for i in 0..10 {
        names.push(format!("dotdeploy_20241028_21442{}.log", i));
    }

    let mut builder = LoggerBuilder::new();
    builder.with_verbosity(1);
    builder.with_log_dir("/tmp/logs".to_string());
    let logger = builder.build().unwrap();

    let removed = logger.rotate_logs(&names);
    let mut remaining_logs: Vec<String> = names.iter().filter(|n| !removed.contains(n)).cloned().collect();
    remaining_logs.sort();

    assert_eq!(remaining_logs.len(), 15, "Should keep exactly 15 log files after rotation");
    assert_eq!(
        remaining_logs[0], "dotdeploy_20241028_214415.log",
        "Should preserve chronological order when retaining logs"
    );
    assert_eq!(
        remaining_logs[remaining_logs.len() - 1],
        "dotdeploy_20241028_214429.log",
        "Should retain the most recent log files during rotation"
    );
}

#[test]
fn rotation_ignores_other_files_and_keeps_few_logs() {
    let names = vec!["a.log".to_string(), "notes.txt".to_string(), "b.log".to_string()];
    assert!(rotate_logs(&names, 15).is_empty());
    assert_eq!(rotate_logs(&names, 1), vec!["a.log".to_string()]);
    assert_eq!(rotate_logs(&names, 0).len(), 2);
}

#[test]
fn logger_builder_defaults() {
    let mut b = LoggerBuilder::new();
    assert_eq!(b.build().unwrap_err(), LogError::VerbosityUndefined);
    b.with_verbosity(0);
    let l = b.build().unwrap();
    assert_eq!(l.verbosity, Verbosity::Info);
    assert_eq!(l.max_logs, DEFAULT_MAX_LOGS);
    b.with_verbosity(5);
    b.with_max_logs(2);
    let l = b.build().unwrap();
    assert_eq!(l.verbosity, Verbosity::Trace);
    assert_eq!(l.max_logs, 2);
}
