use layla_log::naming::file_name_of;
use layla_log::{clean_log, init, Action, ConfigError, LogLevel, Logger, Setting};

fn appended(actions: &[Action]) -> Vec<String> {
    let mut lines = Vec::new();
    for a in actions {
        if let Action::Append(l) = a {
            lines.push(l.clone());
        }
    }
    lines
}

fn body_of(line: &str) -> &str {
    let at = line.find("] ").expect("a rendered line holds its origin");
    &line[at + 2..]
}

#[test]
fn multi_line_message_becomes_one_line_each() {
    let mut logger = Logger::new(&vec![]);
    let actions = logger.error("first\nsecond\n\nfourth", "trace".to_string());
    let lines = appended(&actions);
    let bodies: Vec<&str> = lines.iter().map(|l| body_of(l)).collect();
    assert_eq!(bodies, vec!["first", "second", "", "fourth"]);
    for l in &lines {
        assert!(!l.contains('\n'));
        assert!(l.contains(" ERROR\t[trace] "));
    }
    let stamp = lines[0].split(" ERROR").next().unwrap().to_string();
    assert!(lines.iter().all(|l| l.starts_with(&stamp)));
}

#[test]
fn empty_body_gives_one_line() {
    let mut logger = Logger::new(&vec![]);
    let lines = appended(&logger.info("", "empty".to_string()));
    assert_eq!(lines.len(), 1);
    assert!(lines[0].ends_with("[empty] "));
}

#[test]
fn rotation_after_single_length_lines() {
    let mut logger = Logger::new(&vec![]);
    let setting = Setting {
        single_length: 2,
        file_record_level: LogLevel::Info,
        ..Default::default()
    };
    assert!(init(&mut logger, setting, &vec![]).is_ok());
    let prefix = logger.current_file_prefix().clone();
    let mut all = Vec::new();
    all.extend(logger.record(LogLevel::Info, "a", "p".to_string()));
    all.extend(logger.record(LogLevel::Info, "b", "p".to_string()));
    all.extend(logger.record(LogLevel::Info, "c", "p".to_string()));
    let mut files: Vec<(String, Vec<String>)> = Vec::new();
    for a in &all {
        match a {
            Action::Open(p) => files.push((p.clone(), Vec::new())),
            Action::Append(l) => files.last_mut().unwrap().1.push(body_of(l).to_string()),
            _ => {}
        }
    }
    assert_eq!(files.len(), 2);
    assert_eq!(files[0].0, format!("./logs/{}_0.log", prefix));
    assert_eq!(files[0].1, vec!["a", "b"]);
    assert_eq!(files[1].0, format!("./logs/{}_1.log", prefix));
    assert_eq!(files[1].1, vec!["c"]);
    assert!(matches!(all[3], Action::Close));
    assert_eq!(logger.current_index(), 1);
    assert_eq!(logger.used_length(), 1);
}

#[test]
fn no_file_exceeds_single_length() {
    let mut logger = Logger::new(&vec![]);
    let setting = Setting { single_length: 3, ..Default::default() };
    assert!(layla_log::set(&mut logger, setting, &vec![]).is_ok());
    let mut in_file = 0;
    for i in 0..20 {
        for a in logger.info(&format!("line {}", i), "p".to_string()) {
            match a {
                Action::Open(_) => in_file = 0,
                Action::Append(_) => {
                    in_file += 1;
                    assert!(in_file <= 3);
                }
                _ => {}
            }
        }
        assert!(logger.used_length() < 3);
    }
    assert_eq!(logger.current_index(), 6);
}

#[test]
fn file_and_console_thresholds_are_independent() {
    let mut logger = Logger::new(&vec![]);
    let setting = Setting {
        file_record_level: LogLevel::Warn,
        terminal_print_level: LogLevel::Trace,
        print_out: true,
        ..Default::default()
    };
    assert!(layla_log::set(&mut logger, setting, &vec![]).is_ok());
    let debug = logger.debug("d", "p".to_string());
    assert_eq!(debug.len(), 1);
    assert!(matches!(&debug[0], Action::Print(l) if l.ends_with(" DEBUG\t[p] d")));
    let error = logger.error("e", "p".to_string());
    assert!(matches!(&error[0], Action::Print(_)));
    assert!(matches!(&error[1], Action::Open(_)));
    assert!(matches!(&error[2], Action::Append(l) if l.ends_with(" ERROR\t[p] e")));

    let quiet = Setting { print_out: false, terminal_print_level: LogLevel::Trace, ..Default::default() };
    assert!(layla_log::set(&mut logger, quiet, &vec![]).is_ok());
    let lines = logger.trace("t", "p".to_string());
    assert!(lines.iter().all(|a| !matches!(a, Action::Print(_))));
    assert_eq!(appended(&lines).len(), 1);
}

#[test]
fn recovery_resumes_after_existing_files() {
    let probe = Logger::new(&vec![]);
    let prefix = probe.current_file_prefix().clone();
    let existing = vec![
        file_name_of(&prefix, 0),
        file_name_of(&prefix, 1),
        file_name_of(&prefix, 2),
        "unrelated.txt".to_string(),
    ];
    let logger = Logger::new(&existing);
    assert_eq!(logger.current_index(), 3);

    let mut logger = Logger::new(&vec![]);
    assert!(init(&mut logger, Setting::default(), &existing).is_ok());
    assert_eq!(logger.current_index(), 3);
    let actions = logger.info("x", "p".to_string());
    assert!(matches!(&actions[0], Action::Open(p) if *p == format!("./logs/{}_3.log", prefix)));
}

#[test]
fn disable_keeps_rotation_state() {
    let mut logger = Logger::new(&vec![]);
    assert!(layla_log::set(&mut logger, Setting { single_length: 5, ..Default::default() }, &vec![]).is_ok());
    logger.info("one", "p".to_string());
    logger.info("two", "p".to_string());
    logger.disable();
    for _ in 0..10 {
        assert!(logger.error("dropped", "p".to_string()).is_empty());
    }
    assert_eq!(logger.used_length(), 2);
    assert!(logger.is_file_open());
    logger.enable();
    let actions = logger.info("three", "p".to_string());
    assert_eq!(actions.len(), 1);
    assert_eq!(logger.used_length(), 3);
}

#[test]
fn clear_directory_resets_index() {
    let probe = Logger::new(&vec![]);
    let prefix = probe.current_file_prefix().clone();
    let existing = vec![file_name_of(&prefix, 0), file_name_of(&prefix, 1)];
    let mut logger = Logger::new(&existing);
    assert_eq!(logger.current_index(), 2);
    logger.info("x", "p".to_string());
    let actions = clean_log(&mut logger);
    assert!(matches!(actions[0], Action::Close));
    assert!(matches!(&actions[1], Action::ResetDir(d) if d == "./logs"));
    assert_eq!(logger.current_index(), 0);
    assert_eq!(logger.used_length(), 0);
    assert!(!logger.is_file_open());
}

#[test]
fn interleaved_callers_give_whole_lines() {
    let mut logger = Logger::new(&vec![]);
    let mut all = Vec::new();
    for round in 0..50 {
        for caller in 0..4 {
            all.extend(logger.info(&format!("caller {} line {}", caller, round), format!("c{}", caller)));
        }
    }
    let lines = appended(&all);
    assert_eq!(lines.len(), 200);
    for l in &lines {
        assert!(!l.contains('\n'));
        assert!(body_of(l).starts_with("caller "));
    }
}

#[test]
fn bad_zone_is_refused() {
    let mut logger = Logger::new(&vec![]);
    let r = init(&mut logger, Setting { time_zone: 24, ..Default::default() }, &vec![]);
    assert!(matches!(r, Err(ConfigError::TimeZone)));
    assert!(!logger.is_initialized());
    let r = layla_log::set(&mut logger, Setting { time_zone: -24, ..Default::default() }, &vec![]);
    assert!(matches!(r, Err(ConfigError::TimeZone)));
}

#[test]
fn bad_date_pattern_is_refused() {
    let mut logger = Logger::new(&vec![]);
    let r = layla_log::set(&mut logger, Setting { file_time_format: "%Q".to_string(), ..Default::default() }, &vec![]);
    assert!(matches!(r, Err(ConfigError::TimeFormat)));
    assert_eq!(logger.setting().file_time_format, "%Y-%m-%d");
}
