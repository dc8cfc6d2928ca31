use crate::config::{LoggerConfig, LoggerConfigView};
use crate::consumer::{
    setup_of, state_after, writes_over, ConsumerState, LogConsumer, Sink, SinkWrite,
};
use crate::level::{Level, LogColor, LogLevel};
use crate::record::{LogEvent, LogLine, LogLineView};
use crate::state::{after, LoggingState, StateChange};
use crate::writer::FileWriterConfig;
use vstd::prelude::*;

verus! {

/// Whether a record passes the producer's filter: nothing passes once logging
/// is bypassed; else an error passes, and so does a record that stdout or
/// the file would take by its level.
pub open spec fn producer_admits(bypassed: bool, config: LoggerConfigView, level: Level) -> bool {
    !bypassed && (level == Level::Error || config.stdout_level.admits(level)
        || config.fileout_level.admits(level))
}

/// The color that a record's `color` value stands for: the color whose code
/// is the value's low byte, `Normal` where there is no value.
pub open spec fn color_of(color: Option<u64>) -> LogColor {
    match color {
        Some(value) => LogColor::of_code((value % 256) as u8),
        None => LogColor::Normal,
    }
}

/// The component that a record names, or its target where it names none.
pub open spec fn component_of(component: Option<String>, target: Seq<char>) -> Seq<char> {
    match component {
        Some(name) => name@,
        None => target,
    }
}

/// The level of the record that a caller's level asks for. `Off` asks for
/// no record.
pub open spec fn level_of(log_level: LogLevel) -> Option<Level> {
    match log_level {
        LogLevel::Off => None,
        LogLevel::Debug => Some(Level::Debug),
        LogLevel::Info => Some(Level::Info),
        LogLevel::Warning => Some(Level::Warn),
        LogLevel::Error => Some(Level::Error),
    }
}

/// The producers' side of the queue: it decides which records are handed to
/// the consumer.
#[derive(Debug)]
pub struct Logger {
    /// Maximum levels for components and sinks.
    pub config: LoggerConfig,
}

impl Logger {
    /// A logger that filters by the given configuration.
    pub fn new(config: LoggerConfig) -> (r: Self)
        ensures
            r.config@ == config@,
    {
        Logger { config }
    }

    /// Whether a record of `level` is handed to the consumer.
    pub fn enabled(&self, state: &LoggingState, level: Level) -> (r: bool)
        ensures
            r == producer_admits(state.bypassed, self.config@, level),
    {
        !state.bypassed && (level == Level::Error || self.config.stdout_level.allows(level)
            || self.config.fileout_level.allows(level))
    }

    /// Packs a record for the queue, or returns `None` where the producer's filter keeps
    /// it out. `color` and `component` are the record's values under these
    /// keys, where it has them.
    pub fn log(
        &self,
        state: &LoggingState,
        level: Level,
        color: Option<u64>,
        component: Option<String>,
        target: &str,
        message: String,
    ) -> (r: Option<LogEvent>)
        ensures
            match r {
                Some(LogEvent::Log(line)) => producer_admits(state.bypassed, self.config@, level)
                    && line@ == (LogLineView {
                    level,
                    color: color_of(color),
                    component: component_of(component, target@),
                    message: message@,
                }),
                Some(LogEvent::Flush) => false,
                None => !producer_admits(state.bypassed, self.config@, level),
            },
    {
        if self.enabled(state, level) {
            let color = match color {
                Some(value) => LogColor::from((value % 256) as u8),
                None => LogColor::Normal,
            };
            let component = match component {
                Some(name) => name,
                None => target.to_owned(),
            };
            Some(LogEvent::Log(LogLine { level, color, component, message }))
        } else {
            None
        }
    }

    /// The command that makes the consumer flush its writers.
    pub fn flush(&self) -> (r: LogEvent)
        ensures
            r is Flush,
    {
        LogEvent::Flush
    }

    /// Builds both sides of the queue for one configuration: the logger for
    /// the producers and the consumer with its writers, ready to start.
    pub fn init_with_config(
        trader_id: String,
        config: LoggerConfig,
        file_config: &FileWriterConfig,
    ) -> (r: (Logger, LogConsumer))
        ensures
            r.0.config@ == config@,
            r.1.state == ConsumerState::Starting,
            r.1@ == setup_of(trader_id@, config@, file_config.file_format),
    {
        let logger = Logger { config: config.clone() };
        let consumer = LogConsumer::new(trader_id, config, file_config);
        (logger, consumer)
    }

    /// Runs a consumer over the events taken from the queue, each with the
    /// time at which it was taken. Returns what is written, in order.
    /// Nothing is written for what follows a flush.
    pub fn handle_messages(
        trader_id: String,
        config: LoggerConfig,
        file_config: &FileWriterConfig,
        events: Vec<(LogEvent, u64)>,
    ) -> (r: Vec<SinkWrite>)
        ensures
            r.deep_view() == writes_over(
                setup_of(trader_id@, config@, file_config.file_format),
                ConsumerState::Running,
                events@,
            ),
    {
        let ghost all = events@;
        let mut consumer = LogConsumer::new(trader_id, config, file_config);
        consumer.start();
        let ghost setup = consumer@;
        let mut writes: Vec<SinkWrite> = Vec::new();
        assert(writes.deep_view() =~= Seq::<(Sink, Seq<char>)>::empty());
        assert(all.take(0) =~= Seq::<(LogEvent, u64)>::empty());
        for item in it: events
            invariant
                it.seq() == all,
                consumer@ == setup,
                consumer.state == state_after(ConsumerState::Running, all.take(it.index() as int)),
                writes.deep_view() == writes_over(
                    setup,
                    ConsumerState::Running,
                    all.take(it.index() as int),
                ),
        {
            let ghost done = all.take(it.index() as int);
            let ghost next = all.take(it.index() + 1);
            assert(next.drop_last() =~= done);
            assert(next.last() == item);
            let ghost before = writes.deep_view();
            let (event, timestamp_ns) = item;
            let mut step = consumer.handle_event(Some(event), timestamp_ns);
            let ghost added = step.deep_view();
            writes.append(&mut step);
            assert(writes.deep_view() =~= before + added);
        }
        assert(all.take(all.len() as int) =~= all);
        writes
    }
}

/// Installs logging for the process, once: where no logger is installed yet
/// it marks one as installed, takes the color switch from the configuration
/// and returns both sides of the queue. Where one is installed it changes
/// nothing and returns `None`.
pub fn init_logging(
    state: &mut LoggingState,
    trader_id: String,
    config: LoggerConfig,
    file_config: &FileWriterConfig,
) -> (r: Option<(Logger, LogConsumer)>)
    ensures
        *final(state) == after(*old(state), StateChange::Install(config@.is_colored)),
        old(state).initialized ==> r is None,
        !old(state).initialized ==> (r matches Some(pair) && pair.0.config@ == config@ && pair.1.state
            == ConsumerState::Starting && pair.1@ == setup_of(
            trader_id@,
            config@,
            file_config.file_format,
        )),
{
    if state.initialized {
        None
    } else {
        state.initialized = true;
        state.colored = config.is_colored;
        Some(Logger::init_with_config(trader_id, config, file_config))
    }
}

/// The level of the record that a caller's level asks for, if it asks for
/// one.
pub fn record_level(log_level: LogLevel) -> (r: Option<Level>)
    ensures
        r == level_of(log_level),
{
    match log_level {
        LogLevel::Off => None,
        LogLevel::Debug => Some(Level::Debug),
        LogLevel::Info => Some(Level::Info),
        LogLevel::Warning => Some(Level::Warn),
        LogLevel::Error => Some(Level::Error),
    }
}

/// Emits a message for a component: packs the record that the logger hands
/// to the consumer, or returns `None` where the level is `Off` or the
/// logger's filter keeps the record out.
pub fn log(
    logger: &Logger,
    state: &LoggingState,
    level: LogLevel,
    color: LogColor,
    component: &str,
    message: &str,
) -> (r: Option<LogEvent>)
    ensures
        match r {
            Some(LogEvent::Log(line)) => level_of(level) matches Some(record_level)
                && producer_admits(state.bypassed, logger.config@, record_level) && line@ == (
            LogLineView { level: record_level, color, component: component@, message: message@ }),
            Some(LogEvent::Flush) => false,
            None => level_of(level) matches Some(record_level) ==> !producer_admits(
                state.bypassed,
                logger.config@,
                record_level,
            ),
        },
{
    let Some(level) = record_level(level) else {
        return None;
    };
    let code: u64 = color.to_u8() as u64;
    logger.log(
        state,
        level,
        Some(code),
        Some(component.to_owned()),
        component,
        message.to_owned(),
    )
}

} // verus!
