use layla_log::{
    clean_log, disable_log, enable_log, init, Action, LogLevel, Logger, Setting,
};

fn appended(actions: &[Action]) -> Vec<String> {
    let mut lines = Vec::new();
    for a in actions {
        if let Action::Append(l) = a {
            lines.push(l.clone());
        }
    }
    lines
}

fn printed(actions: &[Action]) -> Vec<String> {
    let mut lines = Vec::new();
    for a in actions {
        if let Action::Print(l) = a {
            lines.push(l.clone());
        }
    }
    lines
}

#[test]
fn disable_test_disable() {
    let mut logger = Logger::new(&vec![]);
    let cleared = clean_log(&mut logger);
    assert!(matches!(cleared.last(), Some(Action::ResetDir(d)) if d == "./logs"));

    disable_log(&mut logger);

    let mut quiet = Vec::new();
    quiet.extend(logger.info("This should not be logged", "test_disable".to_string()));
    quiet.extend(logger.warn("This should not be logged", "test_disable".to_string()));
    quiet.extend(logger.error("This should not be logged", "test_disable".to_string()));
    quiet.extend(logger.debug("This should not be logged", "test_disable".to_string()));
    quiet.extend(logger.trace("This should not be logged", "test_disable".to_string()));
    assert!(quiet.is_empty());
    assert_eq!(logger.current_index(), 0);
    assert_eq!(logger.used_length(), 0);

    enable_log(&mut logger);
    let loud = logger.info("This should be logged", "test_disable".to_string());
    let lines = appended(&loud);
    assert_eq!(lines.len(), 1);
    assert!(lines[0].ends_with(" INFO\t[test_disable] This should be logged"));
}

#[test]
fn double_init_double_init() {
    let mut logger = Logger::new(&vec![]);
    let first = init(
        &mut logger,
        Setting { dir_path: "./logs".to_string(), ..Default::default() },
        &vec![],
    );
    assert!(first.is_ok());
    let second = init(
        &mut logger,
        Setting { dir_path: "./logs".to_string(), ..Default::default() },
        &vec![],
    );
    let warning = appended(&second.unwrap());
    assert_eq!(warning.len(), 1);
    assert!(warning[0].ends_with(" WARN\t[Logger::init] Log writer had been initialized!"));

    let mut all = Vec::new();
    all.extend(logger.error("error", "double_init".to_string()));
    all.extend(logger.warn("warn", "double_init".to_string()));
    all.extend(logger.info("info", "double_init".to_string()));
    all.extend(logger.debug("debug", "double_init".to_string()));
    all.extend(logger.trace("trace", "double_init".to_string()));
    let lines = appended(&all);
    assert_eq!(lines.len(), 5);
    assert!(lines[0].ends_with(" ERROR\t[double_init] error"));
    assert!(lines[4].ends_with(" TRACE\t[double_init] trace"));
    assert_eq!(logger.used_length(), 6);
}

#[test]
fn scope_location_f() {
    let mut logger = Logger::new(&vec![]);
    clean_log(&mut logger);
    let actions = logger.error("This is an error message", "f@tests/scope_location.rs:8".to_string());
    assert!(matches!(&actions[0], Action::Open(p) if p.ends_with("_0.log")));
    let lines = appended(&actions);
    assert_eq!(lines.len(), 1);
    assert!(lines[0].ends_with(" ERROR\t[f@tests/scope_location.rs:8] This is an error message"));
}

#[test]
fn time_zone_write_in() {
    let mut logger = Logger::new(&vec![]);
    clean_log(&mut logger);
    assert!(init(&mut logger, Setting { time_zone: 1, ..Default::default() }, &vec![]).is_ok());
    assert_eq!(logger.setting().time_zone, 1);

    let mut all = Vec::new();
    all.extend(logger.error("This is an error message", "write_in".to_string()));
    all.extend(logger.warn("This is a warning message", "write_in".to_string()));
    all.extend(logger.info("This is an info message", "write_in".to_string()));
    all.extend(logger.debug("This is a debug message", "write_in".to_string()));
    all.extend(logger.trace("This is a trace message", "write_in".to_string()));
    let lines = appended(&all);
    assert_eq!(lines.len(), 5);
    assert!(lines[2].ends_with(" INFO\t[write_in] This is an info message"));
    assert!(printed(&all).is_empty());
}

#[test]
fn universal_log_universal_log() {
    let mut logger = Logger::new(&vec![]);
    clean_log(&mut logger);
    let actions = logger.record(LogLevel::Trace, &format!("Hello, {}!", "world"), "universal_log".to_string());
    let lines = appended(&actions);
    assert_eq!(lines.len(), 1);
    assert!(lines[0].ends_with(" TRACE\t[universal_log] Hello, world!"));
}

#[test]
fn write_in_write_in() {
    let mut logger = Logger::new(&vec![]);
    clean_log(&mut logger);
    let mut all = Vec::new();
    all.extend(logger.error("This is an error message", "write_in".to_string()));
    all.extend(logger.warn("This is a warning message", "write_in".to_string()));
    all.extend(logger.debug("This is a debug message", "write_in".to_string()));
    all.extend(logger.info("This is an info message", "write_in".to_string()));
    all.extend(logger.trace("This is a trace message", "write_in".to_string()));
    let lines = appended(&all);
    assert_eq!(lines.len(), 5);
    assert!(lines[1].ends_with(" WARN\t[write_in] This is a warning message"));
    let opens = all.iter().filter(|a| matches!(a, Action::Open(_))).count();
    assert_eq!(opens, 1);
}
