use logging::config::LoggerConfig;
use logging::consumer::{ConsumerState, LogConsumer, Sink, SinkWrite};
use logging::level::{Level, LevelFilter, LogColor, LogLevel};
use logging::logger::{init_logging, log, Logger};
use logging::record::{LogEvent, LogLine};
use logging::state::{
    logging_clock_set_realtime_mode, logging_clock_set_static_mode, logging_clock_set_static_time,
    logging_is_colored, logging_is_initialized, logging_set_bypass, LoggingState,
};
use logging::writer::{FileWriter, FileWriterConfig, StderrWriter, StdoutWriter};

const STATIC_TIME: u64 = 1_650_000_000_000_000;

fn record(level: Level, component: &str, message: &str) -> LogLine {
    LogLine {
        level,
        color: LogColor::Normal,
        component: component.to_string(),
        message: message.to_string(),
    }
}

fn running(spec: &str, file_format: Option<&str>) -> LogConsumer {
    let file_config = FileWriterConfig {
        file_format: file_format.map(|f| f.to_string()),
        ..Default::default()
    };
    let mut consumer =
        LogConsumer::new("TRADER-001".to_string(), LoggerConfig::from_spec(spec), &file_config);
    consumer.start();
    consumer
}

fn texts(writes: &[SinkWrite], sink: Sink) -> String {
    writes.iter().filter(|w| w.sink == sink).map(|w| w.text.as_str()).collect()
}

#[test]
fn test_logging_to_file() {
    let config = LoggerConfig { fileout_level: LevelFilter::Debug, ..Default::default() };
    let file_config = FileWriterConfig::default();
    let mut state = LoggingState::new();

    let (logger, mut consumer) =
        init_logging(&mut state, "TRADER-001".to_string(), config, &file_config).unwrap();
    consumer.start();

    logging_clock_set_static_mode(&mut state);
    logging_clock_set_static_time(&mut state, STATIC_TIME);

    let event = logger
        .log(
            &state,
            Level::Info,
            None,
            Some("RiskEngine".to_string()),
            "logging",
            "This is a test.".to_string(),
        )
        .unwrap();
    let writes = consumer.handle_event(Some(event), state.timestamp(1_700_000_000_000_000_000));
    let log_contents = texts(&writes, Sink::File);

    assert_eq!(
        log_contents,
        "1970-01-20T02:20:00.000000000Z [INFO] TRADER-001.RiskEngine: This is a test.\n"
    );
}

#[test]
fn test_log_component_level_filtering() {
    let config = LoggerConfig::from_spec("stdout=Info;fileout=Debug;RiskEngine=Error");
    let file_config = FileWriterConfig::default();
    let mut state = LoggingState::new();

    let (logger, mut consumer) =
        init_logging(&mut state, "TRADER-001".to_string(), config, &file_config).unwrap();
    consumer.start();

    logging_clock_set_static_mode(&mut state);
    logging_clock_set_static_time(&mut state, STATIC_TIME);

    let mut log_contents = String::new();
    for component in ["RiskEngine", "Portfolio"] {
        let event = logger
            .log(
                &state,
                Level::Info,
                None,
                Some(component.to_string()),
                "logging",
                "This is a test.".to_string(),
            )
            .unwrap();
        let writes = consumer.handle_event(Some(event), state.timestamp(0));
        log_contents.push_str(&texts(&writes, Sink::File));
    }

    assert!(!log_contents.contains("RiskEngine"));
    assert_eq!(
        log_contents,
        "1970-01-20T02:20:00.000000000Z [INFO] TRADER-001.Portfolio: This is a test.\n"
    );
}

#[test]
fn test_logging_to_file_in_json_format() {
    let config = LoggerConfig::from_spec("stdout=Info;is_colored;fileout=Debug;RiskEngine=Info");
    let file_config =
        FileWriterConfig { file_format: Some("json".to_string()), ..Default::default() };
    let mut state = LoggingState::new();

    let (logger, mut consumer) =
        init_logging(&mut state, "TRADER-001".to_string(), config, &file_config).unwrap();
    consumer.start();

    logging_clock_set_static_mode(&mut state);
    logging_clock_set_static_time(&mut state, STATIC_TIME);

    let event = logger
        .log(
            &state,
            Level::Info,
            None,
            Some("RiskEngine".to_string()),
            "logging",
            "This is a test.".to_string(),
        )
        .unwrap();
    let writes = consumer.handle_event(Some(event), state.timestamp(0));
    let log_contents = texts(&writes, Sink::File);

    assert_eq!(
        log_contents,
        "{\"level\":\"INFO\",\"color\":\"Normal\",\"component\":\"RiskEngine\",\"message\":\"This is a test.\"}\n"
    );
}

#[test]
fn dispatch_offers_stderr_then_stdout_then_file() {
    let consumer = running("stdout=Debug;fileout=Debug", None);
    let writes = consumer.dispatch(record(Level::Error, "C", "bad"), 0);
    let sinks: Vec<Sink> = writes.iter().map(|w| w.sink).collect();
    assert_eq!(sinks, vec![Sink::Stderr, Sink::File]);
    assert_eq!(writes[0].text, "1970-01-01T00:00:00.000000000Z [ERROR] TRADER-001.C: bad\n");
    assert_eq!(writes[1].text, writes[0].text);

    let writes = consumer.dispatch(record(Level::Warn, "C", "hm"), 0);
    let sinks: Vec<Sink> = writes.iter().map(|w| w.sink).collect();
    assert_eq!(sinks, vec![Sink::Stdout, Sink::File]);
}

#[test]
fn dispatch_colors_the_terminal_only() {
    let consumer = running("stdout=Info;fileout=Info;is_colored", None);
    let writes = consumer.dispatch(record(Level::Info, "C", "m"), 0);
    assert_eq!(writes.len(), 2);
    assert_eq!(writes[0].sink, Sink::Stdout);
    assert_eq!(
        writes[0].text,
        "\x1b[1m1970-01-01T00:00:00.000000000Z\x1b[0m [INFO] TRADER-001.C: m\x1b[0m\n"
    );
    assert_eq!(writes[1].sink, Sink::File);
    assert_eq!(writes[1].text, "1970-01-01T00:00:00.000000000Z [INFO] TRADER-001.C: m\n");
}

#[test]
fn a_file_format_other_than_json_is_plain() {
    for format in ["JSON", "text", ""] {
        let consumer = running("fileout=Info", Some(format));
        let writes = consumer.dispatch(record(Level::Info, "C", "m"), 0);
        assert_eq!(texts(&writes, Sink::File), "1970-01-01T00:00:00.000000000Z [INFO] TRADER-001.C: m\n");
    }
}

#[test]
fn no_file_writer_when_the_file_level_is_off() {
    let consumer = running("stdout=Debug", Some("json"));
    assert!(consumer.file_writer.is_none());
    let writes = consumer.dispatch(record(Level::Error, "C", "m"), 0);
    assert_eq!(writes.len(), 1);
    assert_eq!(writes[0].sink, Sink::Stderr);
    let consumer = running("fileout=Error", Some("json"));
    let writer = consumer.file_writer.unwrap();
    assert!(writer.json_format);
    assert_eq!(writer.level, LevelFilter::Error);
}

#[test]
fn too_verbose_records_reach_no_writer() {
    let logger = Logger::new(LoggerConfig::from_spec("stdout=Warning;fileout=Info"));
    let state = LoggingState::new();
    let consumer = running("stdout=Warning;fileout=Info", None);
    for level in [Level::Debug] {
        assert!(!logger.enabled(&state, level));
        assert!(logger.log(&state, level, None, None, "t", "m".to_string()).is_none());
        assert!(consumer.dispatch(record(level, "C", "m"), 0).is_empty());
    }
    assert!(logger.enabled(&state, Level::Info));
    assert_eq!(consumer.dispatch(record(Level::Info, "C", "m"), 0).len(), 1);
}

#[test]
fn component_level_keeps_records_from_every_writer() {
    let consumer = running("stdout=Debug;fileout=Debug;Risk=Warn;Quiet=Off", None);
    assert!(consumer.dispatch(record(Level::Info, "Risk", "m"), 0).is_empty());
    assert!(consumer.dispatch(record(Level::Debug, "Risk", "m"), 0).is_empty());
    assert_eq!(consumer.dispatch(record(Level::Warn, "Risk", "m"), 0).len(), 2);
    assert_eq!(consumer.dispatch(record(Level::Error, "Risk", "m"), 0).len(), 2);
    assert_eq!(consumer.dispatch(record(Level::Debug, "Other", "m"), 0).len(), 2);
    assert!(consumer.dispatch(record(Level::Error, "Quiet", "m"), 0).is_empty());
}

#[test]
fn errors_go_to_stderr_whatever_the_stdout_level() {
    for spec in ["stdout=Off", "stdout=Error", "stdout=Debug", "stdout=Off;fileout=Off"] {
        let logger = Logger::new(LoggerConfig::from_spec(spec));
        let state = LoggingState::new();
        let event = logger.log(&state, Level::Error, None, None, "t", "m".to_string());
        let mut consumer = running(spec, None);
        let writes = consumer.handle_event(event, 0);
        assert_eq!(writes[0].sink, Sink::Stderr);
        assert!(writes.iter().all(|w| w.sink != Sink::Stdout));
    }
}

#[test]
fn nothing_is_logged_once_bypassed() {
    let logger = Logger::new(LoggerConfig::from_spec("stdout=Debug;fileout=Debug"));
    let mut state = LoggingState::new();
    assert!(logger.enabled(&state, Level::Error));
    logging_set_bypass(&mut state);
    logging_clock_set_static_mode(&mut state);
    logging_clock_set_static_time(&mut state, 7);
    logging_clock_set_realtime_mode(&mut state);
    assert!(state.bypassed);
    for level in [Level::Error, Level::Warn, Level::Info, Level::Debug] {
        assert!(!logger.enabled(&state, level));
        assert!(logger.log(&state, level, None, None, "t", "m".to_string()).is_none());
    }
    assert!(log(&logger, &state, LogLevel::Error, LogColor::Red, "C", "m").is_none());
}

#[test]
fn logger_log_packs_the_record() {
    let logger = Logger::new(LoggerConfig::default());
    let state = LoggingState::new();
    let event = logger.log(&state, Level::Warn, Some(5), Some("Risk".to_string()), "t", "m".to_string());
    match event {
        Some(LogEvent::Log(line)) => {
            assert_eq!(line.level, Level::Warn);
            assert_eq!(line.color, LogColor::Yellow);
            assert_eq!(line.component, "Risk");
            assert_eq!(line.message, "m");
        }
        _ => panic!("no record"),
    }
    let event = logger.log(&state, Level::Info, Some(257), None, "my::target", "m".to_string());
    match event {
        Some(LogEvent::Log(line)) => {
            assert_eq!(line.color, LogColor::Green);
            assert_eq!(line.component, "my::target");
        }
        _ => panic!("no record"),
    }
    let event = logger.log(&state, Level::Info, Some(9), None, "t", "m".to_string());
    match event {
        Some(LogEvent::Log(line)) => assert_eq!(line.color, LogColor::Normal),
        _ => panic!("no record"),
    }
    assert!(matches!(logger.flush(), LogEvent::Flush));
}

#[test]
fn log_maps_the_level_and_keeps_the_color() {
    let logger = Logger::new(LoggerConfig::from_spec("stdout=Debug"));
    let state = LoggingState::new();
    assert!(log(&logger, &state, LogLevel::Off, LogColor::Normal, "C", "m").is_none());
    let cases = [
        (LogLevel::Debug, Level::Debug),
        (LogLevel::Info, Level::Info),
        (LogLevel::Warning, Level::Warn),
        (LogLevel::Error, Level::Error),
    ];
    for (asked, expected) in cases {
        match log(&logger, &state, asked, LogColor::Magenta, "Comp", "text") {
            Some(LogEvent::Log(line)) => {
                assert_eq!(line.level, expected);
                assert_eq!(line.color, LogColor::Magenta);
                assert_eq!(line.component, "Comp");
                assert_eq!(line.message, "text");
            }
            _ => panic!("no record"),
        }
    }
}

#[test]
fn consumer_state_machine() {
    let file_config = FileWriterConfig::default();
    let mut consumer = LogConsumer::new("T".to_string(), LoggerConfig::default(), &file_config);
    assert_eq!(consumer.state, ConsumerState::Starting);
    assert!(consumer.handle_event(Some(LogEvent::Log(record(Level::Info, "C", "m"))), 0).is_empty());
    assert_eq!(consumer.state, ConsumerState::Starting);
    consumer.finish();
    assert_eq!(consumer.state, ConsumerState::Starting);
    consumer.start();
    assert!(consumer.is_running());
    assert_eq!(consumer.handle_event(Some(LogEvent::Log(record(Level::Info, "C", "m"))), 0).len(), 1);
    assert_eq!(consumer.state, ConsumerState::Running);
    assert!(consumer.handle_event(Some(LogEvent::Flush), 0).is_empty());
    assert_eq!(consumer.state, ConsumerState::Draining);
    assert!(consumer.handle_event(Some(LogEvent::Log(record(Level::Info, "C", "m"))), 0).is_empty());
    consumer.start();
    assert_eq!(consumer.state, ConsumerState::Draining);
    consumer.finish();
    assert_eq!(consumer.state, ConsumerState::Terminated);
    assert!(consumer.handle_event(Some(LogEvent::Log(record(Level::Error, "C", "m"))), 0).is_empty());
    assert_eq!(consumer.state, ConsumerState::Terminated);

    let mut consumer = running("stdout=Info", None);
    assert!(consumer.handle_event(None, 0).is_empty());
    assert_eq!(consumer.state, ConsumerState::Terminated);
}

#[test]
fn handle_messages_writes_in_queue_order_until_a_flush() {
    let events = vec![
        (LogEvent::Log(record(Level::Info, "A", "one")), 1_000_000_000),
        (LogEvent::Log(record(Level::Debug, "A", "hidden")), 2_000_000_000),
        (LogEvent::Log(record(Level::Error, "B", "two")), 3_000_000_000),
        (LogEvent::Log(record(Level::Warn, "C", "three")), 4_000_000_000),
        (LogEvent::Flush, 5_000_000_000),
        (LogEvent::Log(record(Level::Info, "D", "late")), 6_000_000_000),
    ];
    let writes = Logger::handle_messages(
        "T".to_string(),
        LoggerConfig::from_spec("stdout=Info"),
        &FileWriterConfig::default(),
        events,
    );
    let seen: Vec<(Sink, &str)> = writes.iter().map(|w| (w.sink, w.text.as_str())).collect();
    assert_eq!(
        seen,
        vec![
            (Sink::Stdout, "1970-01-01T00:00:01.000000000Z [INFO] T.A: one\n"),
            (Sink::Stderr, "1970-01-01T00:00:03.000000000Z [ERROR] T.B: two\n"),
            (Sink::Stdout, "1970-01-01T00:00:04.000000000Z [WARN] T.C: three\n"),
        ]
    );
}

#[test]
fn handle_messages_of_an_empty_queue() {
    let writes = Logger::handle_messages(
        "T".to_string(),
        LoggerConfig::default(),
        &FileWriterConfig::default(),
        vec![],
    );
    assert!(writes.is_empty());
}

#[test]
fn init_logging_installs_once() {
    let mut state = LoggingState::new();
    assert_eq!(logging_is_initialized(&state), 0);
    assert_eq!(logging_is_colored(&state), 1);
    let config = LoggerConfig::from_spec("stdout=Debug;fileout=Warn");
    let first = init_logging(&mut state, "T".to_string(), config.clone(), &FileWriterConfig::default());
    let (logger, consumer) = first.unwrap();
    assert_eq!(logger.config, config);
    assert_eq!(consumer.state, ConsumerState::Starting);
    assert_eq!(consumer.trader_id, "T");
    assert_eq!(consumer.stdout_writer.level, LevelFilter::Debug);
    assert!(!consumer.stdout_writer.is_colored);
    assert!(!consumer.stderr_writer.is_colored);
    assert_eq!(consumer.file_writer.unwrap().level, LevelFilter::Warn);
    assert_eq!(logging_is_initialized(&state), 1);
    assert_eq!(logging_is_colored(&state), 0);

    let colored = LoggerConfig::from_spec("is_colored");
    let second = init_logging(&mut state, "T".to_string(), colored, &FileWriterConfig::default());
    assert!(second.is_none());
    assert_eq!(logging_is_initialized(&state), 1);
    assert_eq!(logging_is_colored(&state), 0);
}

#[test]
fn init_with_config_builds_both_sides() {
    let config = LoggerConfig::from_spec("is_colored;Risk=Error");
    let (logger, consumer) =
        Logger::init_with_config("T-9".to_string(), config.clone(), &FileWriterConfig::default());
    assert_eq!(logger.config, config);
    assert!(consumer.stdout_writer.is_colored);
    assert!(consumer.stderr_writer.is_colored);
    assert!(consumer.file_writer.is_none());
    assert_eq!(consumer.component_level.get("Risk"), Some(LevelFilter::Error));
}

#[test]
fn clock_modes() {
    let mut state = LoggingState::new();
    assert_eq!(state, LoggingState::default());
    assert_eq!(state.timestamp(42), 42);
    logging_clock_set_static_mode(&mut state);
    assert_eq!(state.timestamp(42), 0);
    logging_clock_set_static_time(&mut state, STATIC_TIME);
    assert_eq!(state.timestamp(42), STATIC_TIME);
    logging_clock_set_realtime_mode(&mut state);
    assert_eq!(state.timestamp(42), 42);
    assert_eq!(state.static_time_ns, STATIC_TIME);
}

#[test]
fn writers_enabled() {
    let stdout = StdoutWriter::new(LevelFilter::Info, false);
    let stderr = StderrWriter::new(false);
    let file = FileWriter::new(&FileWriterConfig::new(None, None, Some("json".to_string())), LevelFilter::Warn);
    assert!(file.json_format);
    let expected = [
        (Level::Error, false, true, true),
        (Level::Warn, true, false, true),
        (Level::Info, true, false, false),
        (Level::Debug, false, false, false),
    ];
    for (level, on_stdout, on_stderr, on_file) in expected {
        let line = record(level, "C", "m");
        assert_eq!(stdout.enabled(&line), on_stdout);
        assert_eq!(stderr.enabled(&line), on_stderr);
        assert_eq!(file.enabled(&line), on_file);
    }
}
