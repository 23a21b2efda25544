use streamer_tools::logs::{LocalBuffer, Log, LogBuilder, LogLevel, MAX_BUF_CAP};

#[test]
fn test_creation() {}

#[test]
fn level_names() {
    assert_eq!(LogLevel::Warn.to_string(), "WARN");
    assert_eq!(LogLevel::Info.to_string(), "INFO");
    assert_eq!(LogLevel::Error.to_string(), "ERROR");
    assert_eq!(LogLevel::Debug.to_string(), "DEBUG");
}

#[test]
fn level_from_name_any_case() {
    assert_eq!(LogLevel::from_name("ERROR"), LogLevel::Error);
    assert_eq!(LogLevel::from_name("Debug"), LogLevel::Debug);
    assert_eq!(LogLevel::from_name("warn"), LogLevel::Warn);
    assert_eq!(LogLevel::from_name("whatever"), LogLevel::Info);
    assert_eq!(LogLevel::from_lowercase("WARN"), LogLevel::Info);
}

#[test]
fn flatten_lists_every_level() {
    assert_eq!(
        LogLevel::flatten(),
        vec![LogLevel::Info, LogLevel::Error, LogLevel::Warn, LogLevel::Debug]
    );
}

#[test]
fn buffer_keeps_what_fits() {
    let mut b = LocalBuffer::new(5);
    assert_eq!(b.write(b"abc"), 3);
    assert_eq!(b.write(b"defg"), 2);
    assert_eq!(b.get_buf_length(), 5);
    assert_eq!(b.get_cap(), 5);
    assert_eq!(b.write(b"x"), 0);
}

#[test]
fn buffer_read_then_drain() {
    let mut b = LocalBuffer::new(8);
    b.write(b"hello");
    let mut out = [0u8; 3];
    assert_eq!(b.read(&mut out), 3);
    assert_eq!(&out, b"hel");
    assert_eq!(b.get_buf_length(), 5);
    let mut out2 = [0u8; 4];
    assert_eq!(b.read_and_drain(&mut out2), 4);
    assert_eq!(&out2, b"hell");
    assert_eq!(b.get_buf_length(), 1);
    let mut rest = [9u8; 3];
    assert_eq!(b.read_and_drain(&mut rest), 1);
    assert_eq!(rest, [b'o', 9, 9]);
    assert_eq!(b.get_buf_length(), 0);
}

#[test]
fn buffer_write_then_drain_gives_all_back() {
    let mut b = LocalBuffer::new(16);
    b.write(b"ab");
    b.write(b"cd");
    let mut out = [0u8; 16];
    let n = b.read_and_drain(&mut out);
    assert_eq!(&out[..n], b"abcd");
    b.write(b"z");
    b.clear();
    assert_eq!(b.get_buf_length(), 0);
}

#[test]
fn builder_builds_target() {
    let mut b = LogBuilder::new();
    b.msg("hello").level(LogLevel::Warn).line(12).col(3).file("app::main".to_string());
    let item = b.build();
    assert_eq!(item.msg, "hello");
    assert_eq!(item.level, LogLevel::Warn);
    assert_eq!(item.target, "app::main 12:3");
    assert_eq!(item.timestamp_format, "%Y-%m-%dT%H:%M:%S%.6fZ");
}

#[test]
fn builder_without_place() {
    let mut b = LogBuilder::default();
    b.msg("x").timestamp_format("%H");
    let item = b.build();
    assert_eq!(item.target, "");
    assert_eq!(item.timestamp_format, "%H");
    assert_eq!(item.level, LogLevel::Info);
}

#[test]
fn log_filters_by_scope() {
    let mut log = Log::new(Some("error,debug".to_string()), Some(4096), None);
    let mut b = LogBuilder::new();
    b.msg("shown").level(LogLevel::Error);
    let line = log.with_builder(b.build(), "T").expect("error is in scope").line;
    assert!(line.ends_with(" shown\n"));
    assert!(line.contains("ERROR"));
    assert!(line.contains('T'));
    let mut b2 = LogBuilder::new();
    b2.msg("hidden").level(LogLevel::Info);
    assert!(log.with_builder(b2.build(), "T").is_none());
}

#[test]
fn log_line_with_target() {
    colored::control::set_override(false);
    let mut log = Log::new(None, None, None);
    let mut b = LogBuilder::new();
    b.msg("m").level(LogLevel::Info).line(1).col(2);
    let line = log.with_builder(b.build(), "TS").unwrap().line;
    assert_eq!(line, "TS  INFO 1:2 m\n");
    let mut b = LogBuilder::new();
    b.msg("m").level(LogLevel::Error);
    let line = log.with_builder(b.build(), "TS").unwrap().line;
    assert_eq!(line, "TS ERROR m\n");
}

#[test]
fn log_scope_all_any_case_and_set_scope() {
    let mut log = Log::new(Some("ALL".to_string()), None, None);
    let mut b = LogBuilder::new();
    b.msg("d").level(LogLevel::Debug);
    assert!(log.with_builder(b.build(), "t").is_some());
    log.set_scope("warn");
    let mut b = LogBuilder::new();
    b.msg("d").level(LogLevel::Debug);
    assert!(log.with_builder(b.build(), "t").is_none());
}

#[test]
fn write_to_buf_stops_at_capacity() {
    let mut log = Log::new(None, Some(4), None);
    assert_eq!(log.write_to_buf("abc"), 3);
    assert_eq!(log.write_to_buf("def"), 1);
    assert_eq!(log.write_to_buf("g"), 0);
    assert_eq!(MAX_BUF_CAP, 4096);
}

#[test]
fn log_line_in_colour() {
    colored::control::set_override(true);
    let mut log = Log::new(None, None, None);
    let mut b = LogBuilder::new();
    b.msg("boom").level(LogLevel::Error).line(3).col(4);
    let line = log.with_builder(b.build(), "TS").unwrap().line;
    assert_eq!(
        line,
        "\x1b[90mTS\x1b[0m \x1b[1;31mERROR\x1b[0m \x1b[90m3:4\x1b[0m boom\n"
    );
    let mut b = LogBuilder::new();
    b.msg("w").level(LogLevel::Warn);
    let line = log.with_builder(b.build(), "TS").unwrap().line;
    assert_eq!(
        line,
        "\x1b[90mTS\x1b[0m \x1b[90m \x1b[1;33mWARN\x1b[0m\x1b[90m\x1b[0m w\n"
    );
}

#[test]
fn full_buffer_is_flushed_before_the_line() {
    colored::control::set_override(false);
    let mut log = Log::new(None, Some(20), None);
    let mut b = LogBuilder::new();
    b.msg("abc").level(LogLevel::Error);
    let first = log.with_builder(b.build(), "T").unwrap();
    assert_eq!(first.line, "T ERROR abc\n");
    assert_eq!(first.held_before, 0);
    assert!(first.to_file.is_none());
    let mut b = LogBuilder::new();
    b.msg("defgh").level(LogLevel::Error);
    let second = log.with_builder(b.build(), "T").unwrap();
    assert_eq!(second.held_before, 12);
    assert_eq!(second.to_file, Some(b"T ERROR abc\n".to_vec()));
    // the buffer now holds the second line alone
    assert_eq!(log.write_to_buf("0123456789"), 6);
}

#[test]
fn line_that_fits_is_not_flushed() {
    colored::control::set_override(false);
    let mut log = Log::new(None, Some(100), None);
    let mut b = LogBuilder::new();
    b.msg("x").level(LogLevel::Info);
    let first = log.with_builder(b.build(), "T").unwrap();
    assert!(first.to_file.is_none());
    let mut b = LogBuilder::new();
    b.msg("y").level(LogLevel::Info);
    let second = log.with_builder(b.build(), "T").unwrap();
    assert!(second.to_file.is_none());
    assert_eq!(second.held_before, first.line.len());
}

#[test]
fn internal_log_leaves_the_buffer() {
    colored::control::set_override(false);
    let mut log = Log::new(None, Some(10), None);
    let mut b = LogBuilder::new();
    b.msg("a long internal report").level(LogLevel::Debug);
    let r = log.__internal_log(b.build(), "T").unwrap();
    assert_eq!(r.line, "T DEBUG a long internal report\n");
    assert!(r.to_file.is_none());
    assert_eq!(log.write_to_buf("0123456789"), 10);
}

#[test]
fn log_location_names_the_day() {
    let log = Log::new(None, None, Some("/var/log/".to_string()));
    assert_eq!(log.log_location("2024-01-02"), "/var/log/log_2024-01-02.log");
    let log = Log::new(None, None, None);
    assert_eq!(log.log_location("d"), "C:\\tmplog_d.log");
}

#[test]
fn parse_scope_reads_names() {
    assert_eq!(
        Log::parse_scope("error,Debug,nonsense"),
        vec![LogLevel::Error, LogLevel::Debug, LogLevel::Info]
    );
    assert_eq!(Log::parse_scope("All"), LogLevel::flatten());
    assert_eq!(Log::parse_scope("warn"), vec![LogLevel::Warn]);
}
