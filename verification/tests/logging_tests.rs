use fea_engine::logging::init_default_logger;
use fea_engine::logging::init_file_logger;
use fea_engine::logging::init_json_file_logger;
use fea_engine::logging::init_memory_logger;
use fea_engine::logging::ConsoleTarget;
use fea_engine::logging::FileTarget;
use fea_engine::logging::LogLevel;
use fea_engine::logging::LogOutput;
use fea_engine::logging::LogRecord;
use fea_engine::logging::LogSink;
use fea_engine::logging::Logger;
use fea_engine::logging::MemoryTarget;

fn record(level: LogLevel, message: &str) -> LogRecord {
    LogRecord::new(level, message, "engine", "core.rs", 7, 1700000000123, 3)
}

#[test]
fn log_levels_are_ordered_by_severity() {
    assert!(LogLevel::Trace.severity() < LogLevel::Debug.severity());
    assert!(LogLevel::Debug.severity() < LogLevel::Info.severity());
    assert!(LogLevel::Info.severity() < LogLevel::Warn.severity());
    assert!(LogLevel::Warn.severity() < LogLevel::Error.severity());
    assert!(LogLevel::Error.severity() < LogLevel::Fatal.severity());
    assert!(LogLevel::Warn.passes(LogLevel::Info));
    assert!(LogLevel::Info.passes(LogLevel::Info));
    assert!(!LogLevel::Debug.passes(LogLevel::Info));
    assert_eq!(LogLevel::Warn.label(), "WARN");
    assert_eq!(LogLevel::Fatal.label(), "FATAL");
}

#[test]
fn record_formats_one_line() {
    let r = record(LogLevel::Info, "tables built");
    assert_eq!(
        r.format(),
        "[1700000000123] [INFO] [core.rs:7] [engine] tables built"
    );
}

#[test]
fn record_renders_json() {
    let r = record(LogLevel::Error, "solver stalled");
    assert_eq!(
        r.to_json(),
        "{\"level\": \"ERROR\", \"message\": \"solver stalled\", \"target\": \"engine\", \
         \"timestamp\": 1700000000123, \"thread_id\": 3, \"file\": \"core.rs\", \"line\": 7}"
    );
}

#[test]
fn console_routes_severe_levels_to_stderr() {
    assert!(!ConsoleTarget::uses_stderr(LogLevel::Trace));
    assert!(!ConsoleTarget::uses_stderr(LogLevel::Info));
    assert!(!ConsoleTarget::uses_stderr(LogLevel::Warn));
    assert!(ConsoleTarget::uses_stderr(LogLevel::Error));
    assert!(ConsoleTarget::uses_stderr(LogLevel::Fatal));
}

#[test]
fn memory_target_drops_oldest_beyond_bound() {
    let mut target = MemoryTarget::new(2);
    target.write(&record(LogLevel::Info, "first"));
    target.write(&record(LogLevel::Info, "second"));
    target.write(&record(LogLevel::Info, "third"));
    let records = target.records();
    assert_eq!(records.len(), 2);
    assert_eq!(records[0].message, "second");
    assert_eq!(records[1].message, "third");
    target.clear();
    assert_eq!(target.records().len(), 0);
}

#[test]
fn logger_filters_below_the_minimum_level() {
    let mut logger = init_memory_logger(8, LogLevel::Warn);
    let outputs = logger.log(&record(LogLevel::Info, "quiet"));
    assert!(outputs.is_empty());
    let outputs = logger.log(&record(LogLevel::Error, "loud"));
    assert!(outputs.is_empty());
    match &logger.sinks[0] {
        LogSink::Memory(m) => {
            let records = m.records();
            assert_eq!(records.len(), 1);
            assert_eq!(records[0].message, "loud");
        }
        _ => panic!("expected a memory sink"),
    }
}

#[test]
fn logger_emits_console_and_file_writes() {
    let mut logger = Logger::new(LogLevel::Info);
    logger.add_target(LogSink::Console(ConsoleTarget));
    logger.add_target(LogSink::File(FileTarget::new("engine.log".to_string())));
    let outputs = logger.log(&record(LogLevel::Error, "ring radius clamped"));
    assert_eq!(outputs.len(), 2);
    match &outputs[0] {
        LogOutput::Console { line, use_stderr } => {
            assert!(*use_stderr);
            assert_eq!(
                line,
                "[1700000000123] [ERROR] [core.rs:7] [engine] ring radius clamped"
            );
        }
        _ => panic!("expected a console output first"),
    }
    match &outputs[1] {
        LogOutput::File { path, line } => {
            assert_eq!(path, "engine.log");
            assert!(line.ends_with("ring radius clamped"));
        }
        _ => panic!("expected a file output second"),
    }
}

#[test]
fn init_helpers_configure_their_sink() {
    let logger = init_default_logger();
    assert!(matches!(logger.sinks[0], LogSink::Console(_)));
    let logger = init_file_logger("a.log".to_string(), LogLevel::Debug);
    assert!(matches!(&logger.sinks[0], LogSink::File(f) if f.path == "a.log"));
    let logger = init_json_file_logger("b.json".to_string(), LogLevel::Warn);
    assert!(matches!(&logger.sinks[0], LogSink::JsonFile(f) if f.path == "b.json"));
    let logger = init_memory_logger(16, LogLevel::Trace);
    assert!(matches!(&logger.sinks[0], LogSink::Memory(_)));
}
