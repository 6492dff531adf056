use boj::{
    ConsoleHandler, CustomConsoleFormatter, CustomFileFormatter, CustomLogger, FileHandler,
    FormatterKind, HandlerKind, InstallError, LogEntry, LogFormatter, LogHandler, LogLevel,
    LoggerRegistry, SinkWrite,
};

const LEVELS: [LogLevel; 5] =
    [LogLevel::Error, LogLevel::Warning, LogLevel::Info, LogLevel::Debug, LogLevel::Trace];

fn is_timestamp(s: &str) -> bool {
    let b = s.as_bytes();
    if b.len() != 19 {
        return false;
    }
    b.iter().enumerate().all(|(i, c)| match i {
        4 | 7 => *c == b'-',
        10 => *c == b' ',
        13 | 16 => *c == b':',
        _ => c.is_ascii_digit(),
    })
}

fn file_formatter(t: &str) -> FormatterKind {
    FormatterKind::File(CustomFileFormatter::new(t.to_string()))
}

fn console_formatter(t: &str) -> FormatterKind {
    FormatterKind::Console(CustomConsoleFormatter::new(t.to_string()))
}

#[test]
fn enabled_follows_severity_order() {
    for (ti, t) in LEVELS.iter().enumerate() {
        let logger = CustomLogger::new().with_threshold(*t);
        for (li, l) in LEVELS.iter().enumerate() {
            assert_eq!(logger.enabled(*l), li <= ti);
        }
    }
}

#[test]
fn default_threshold_excludes_trace_only() {
    let logger = CustomLogger::new();
    assert!(logger.enabled(LogLevel::Error));
    assert!(logger.enabled(LogLevel::Debug));
    assert!(!logger.enabled(LogLevel::Trace));
}

#[test]
fn file_format_fills_each_placeholder_in_place() {
    let f = CustomFileFormatter::new("<{level}|{message}|{timestamp}>".to_string());
    let e = LogEntry::with_timestamp("2024-01-02 03:04:05", LogLevel::Warning, "disk low");
    let out = f.format(&e);
    assert_eq!(out, "<Warning|disk low|2024-01-02 03:04:05>\n");
    assert!(!out.contains("{timestamp}") && !out.contains("{level}") && !out.contains("{message}"));
}

#[test]
fn scenario_application_started() {
    let template = "[{timestamp}] [{level}] {message}";
    let f = CustomFileFormatter::new(template.to_string());
    let e = LogEntry::with_timestamp("2024-05-06 07:08:09", LogLevel::Info, "Application started");
    assert_eq!(f.format(&e), "[2024-05-06 07:08:09] [Info] Application started\n");

    let live = LogEntry::new(LogLevel::Info, "Application started");
    let c = CustomConsoleFormatter::new(template.to_string());
    let plain = c.render_with_level(&live, "Info");
    assert!(plain.starts_with('['));
    let ts = &plain[1..20];
    assert!(is_timestamp(ts));
    assert_eq!(&plain[20..], "] [Info] Application started");
    assert_eq!(live.timestamp, ts);
}

#[test]
fn new_entry_is_stamped_with_the_time() {
    let e = LogEntry::new(LogLevel::Debug, "x");
    assert!(is_timestamp(&e.timestamp));
    assert_eq!(e.level, LogLevel::Debug);
    assert_eq!(e.message, "x");
}

#[test]
fn debug_suppressed_under_info_threshold() {
    let logger = CustomLogger::new()
        .with_threshold(LogLevel::Info)
        .add_handler(HandlerKind::Console(ConsoleHandler::new(console_formatter("{message}"))))
        .add_handler(HandlerKind::File(FileHandler::new("app.log", file_formatter("{message}"))));
    assert!(logger.debug("hidden").is_empty());
    let e = LogEntry::with_timestamp("2024-01-01 00:00:00", LogLevel::Debug, "hidden");
    assert!(logger.log(&e).is_empty());
    assert_eq!(logger.info("shown").len(), 2);
}

#[test]
fn error_reaches_console_and_file_once_each() {
    let logger = CustomLogger::new()
        .add_handler(HandlerKind::Console(ConsoleHandler::new(console_formatter("C {message}"))))
        .add_handler(HandlerKind::File(FileHandler::new(
            "app.log",
            file_formatter("F [{level}] {message}"),
        )));
    let ws = logger.error("boom");
    assert_eq!(ws.len(), 2);
    match &ws[0] {
        SinkWrite::Stdout(line) => assert_eq!(line, "C boom"),
        _ => panic!("first write is not for the console"),
    }
    match &ws[1] {
        SinkWrite::Append { path, text } => {
            assert_eq!(path, "app.log");
            assert_eq!(text, "F [Error] boom\n");
            assert_eq!(text.matches('\n').count(), 1);
        }
        _ => panic!("second write is not for the file"),
    }
}

#[test]
fn handlers_run_in_registration_order() {
    let logger = CustomLogger::new()
        .add_handler(HandlerKind::File(FileHandler::new("b.log", file_formatter("b"))))
        .add_handler(HandlerKind::File(FileHandler::new("a.log", file_formatter("a"))));
    let e = LogEntry::with_timestamp("2024-01-01 00:00:00", LogLevel::Warning, "m");
    let ws = logger.log(&e);
    let paths: Vec<&str> = ws
        .iter()
        .map(|w| match w {
            SinkWrite::Append { path, .. } => path.as_str(),
            SinkWrite::Stdout(_) => "",
        })
        .collect();
    assert_eq!(paths, vec!["b.log", "a.log"]);
}

#[test]
fn file_records_are_one_line_each_in_order() {
    let h = FileHandler::new("run.log", file_formatter("{timestamp} {level} {message}"));
    let mut log = String::new();
    let n = 5;
    for i in 0..n {
        let e = LogEntry::with_timestamp("2024-01-01 00:00:00", LogLevel::Info, &format!("m{i}"));
        match h.handle(&e) {
            SinkWrite::Append { text, .. } => log.push_str(&text),
            SinkWrite::Stdout(_) => panic!("file handler wrote to the console"),
        }
    }
    let lines: Vec<&str> = log.lines().collect();
    assert_eq!(log.matches('\n').count(), n);
    assert!(log.ends_with('\n'));
    for (i, l) in lines.iter().enumerate() {
        assert_eq!(*l, format!("2024-01-01 00:00:00 Info m{i}"));
    }
}

#[test]
fn second_install_is_rejected() {
    let mut reg = LoggerRegistry::new();
    let first = CustomLogger::new()
        .add_handler(HandlerKind::File(FileHandler::new("first.log", file_formatter("{message}"))));
    let second = CustomLogger::new();
    assert_eq!(reg.install(first), Ok(()));
    assert_eq!(reg.install(second), Err(InstallError::AlreadyInstalled));
    let ws = reg.emit(LogLevel::Error, "still here");
    assert_eq!(ws.len(), 1);
}

#[test]
fn registry_without_logger_writes_nothing() {
    let reg = LoggerRegistry::new();
    assert!(reg.emit(LogLevel::Error, "x").is_empty());
}

#[test]
fn set_max_level_changes_what_is_dispatched() {
    let mut reg = LoggerRegistry::new();
    let logger = CustomLogger::new()
        .add_handler(HandlerKind::Console(ConsoleHandler::new(console_formatter("{message}"))));
    reg.install(logger).unwrap();
    assert_eq!(reg.emit(LogLevel::Debug, "d").len(), 1);
    reg.set_max_level(LogLevel::Warning);
    assert!(reg.emit(LogLevel::Info, "i").is_empty());
    assert_eq!(reg.emit(LogLevel::Warning, "w").len(), 1);
    reg.set_max_level(LogLevel::Trace);
    assert_eq!(reg.emit(LogLevel::Trace, "t").len(), 1);
}

#[test]
fn console_format_paints_level_when_colour_is_on() {
    colored::control::set_override(true);
    let f = CustomConsoleFormatter::new("[{level}] {message}".to_string());
    let e = LogEntry::with_timestamp("2024-01-01 00:00:00", LogLevel::Info, "hi");
    assert_eq!(f.format(&e), "[\x1b[32mInfo\x1b[0m] hi");
    let e = LogEntry::with_timestamp("2024-01-01 00:00:00", LogLevel::Error, "hi");
    assert_eq!(f.format(&e), "[\x1b[31mError\x1b[0m] hi");
}

#[test]
fn console_format_plain_when_colour_is_off() {
    colored::control::set_override(false);
    let f = CustomConsoleFormatter::new("[{level}] {message}".to_string());
    let e = LogEntry::with_timestamp("2024-01-01 00:00:00", LogLevel::Trace, "hi");
    assert_eq!(f.format(&e), "[Trace] hi");
}

#[test]
fn level_names_and_colours() {
    let names: Vec<String> = LEVELS.iter().map(|l| l.name()).collect();
    assert_eq!(names, vec!["Error", "Warning", "Info", "Debug", "Trace"]);
    assert_eq!(LogLevel::Warning.color(), boj::TermColor::Yellow);
    assert_eq!(LogLevel::Debug.color(), boj::TermColor::Blue);
    assert_eq!(LogLevel::Trace.color(), boj::TermColor::Magenta);
}

#[test]
fn absent_placeholder_is_simply_absent() {
    let f = CustomFileFormatter::new("only {message}".to_string());
    let e = LogEntry::with_timestamp("2024-01-01 00:00:00", LogLevel::Info, "text");
    assert_eq!(f.format(&e), "only text\n");
}
