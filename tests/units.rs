use layla_log::naming::{file_name_of, log_path_of, push_decimal, recover_index};
use layla_log::time::today;
use layla_log::{LogLevel, LogMessage, Logger, Setting, Time};

#[test]
fn levels_are_ordered() {
    assert_eq!(LogLevel::Trace.get_level(), 0);
    assert_eq!(LogLevel::Debug.get_level(), 1);
    assert_eq!(LogLevel::Info.get_level(), 2);
    assert_eq!(LogLevel::Warn.get_level(), 3);
    assert_eq!(LogLevel::Error.get_level(), 4);
    assert!(LogLevel::Warn.lets_through(&LogLevel::Error));
    assert!(!LogLevel::Warn.lets_through(&LogLevel::Info));
    assert_eq!(LogLevel::Info.label(), "INFO");
    assert_eq!(LogLevel::Error.label(), "ERROR");
}

#[test]
fn decimal_and_names() {
    let mut s = String::from("n=");
    push_decimal(&mut s, 0);
    push_decimal(&mut s, 1207);
    assert_eq!(s, "n=01207");
    assert_eq!(file_name_of("2024-01-02", 13), "2024-01-02_13.log");
    assert_eq!(log_path_of("./logs", "2024-01-02", 0), "./logs/2024-01-02_0.log");
}

#[test]
fn recover_index_finds_first_gap() {
    let names = vec![
        "d_0.log".to_string(),
        "d_2.log".to_string(),
        "d_1.log".to_string(),
        "d_4.log".to_string(),
    ];
    assert_eq!(recover_index("d", &names), 3);
    assert_eq!(recover_index("e", &names), 0);
    assert_eq!(recover_index("d", &vec![]), 0);
}

#[test]
fn time_renders_local_and_annotated() {
    let t = Time::new(947638923004, 0);
    assert_eq!(t.to_string(), "2000-01-12 01:02:03.004");
    let t = Time::new(947638923004, 1);
    assert_eq!(t.to_string(), "2000-01-12 02:02:03.004");
    let mut d = Time::new(947638923004, -5);
    d.detailed_display = true;
    assert_eq!(d.to_string(), "2000-01-12 01:02:03.004 (-05:00)");
    assert!(Time::now(0).utc_millis > 947638923004);
    assert_eq!(Time::new(-1000, 0).to_string(), "1969-12-31 23:59:59.000");
}

#[test]
fn message_renders_one_line() {
    let m = LogMessage::at(LogLevel::Warn, "disk low".to_string(), Time::new(947638923004, 0), "main".to_string());
    assert_eq!(m.print(), "2000-01-12 01:02:03.004 WARN\t[main] disk low");
    assert_eq!(m.get_level(), 3);
    let parts = LogMessage::at(LogLevel::Info, "a\r\nb\n".to_string(), Time::new(0, 0), "x".to_string()).split_enter();
    assert_eq!(parts.len(), 3);
    assert_eq!(parts[0].print(), "1970-01-01 00:00:00.000 INFO\t[x] a");
    assert_eq!(parts[1].print(), "1970-01-01 00:00:00.000 INFO\t[x] b");
    assert_eq!(parts[2].print(), "1970-01-01 00:00:00.000 INFO\t[x] ");
}

#[test]
fn today_renders_the_pattern() {
    let d = today(0, "%Y-%m-%d").unwrap();
    assert_eq!(d.len(), 10);
    assert_eq!(&d[4..5], "-");
    assert!(today(0, "%Q").is_none());
    let logger = Logger::new(&vec![]);
    assert_eq!(logger.current_file_prefix().len(), 10);
}

#[test]
fn default_setting_values() {
    let s = Setting::default();
    assert_eq!(s.dir_path, "./logs");
    assert_eq!(s.single_length, 0);
    assert_eq!(s.file_record_level, LogLevel::Trace);
    assert_eq!(s.terminal_print_level, LogLevel::Debug);
    assert_eq!(s.file_time_format, "%Y-%m-%d");
    assert!(!s.print_out && !s.disabled && !s.time_detailed_display);
}

#[test]
fn room_check() {
    let logger = Logger::new(&vec![]);
    assert!(logger.has_room(100));
    assert!(!logger.has_room(usize::MAX - 1));
}
