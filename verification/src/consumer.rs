use crate::components::ComponentLevels;
use crate::config::{LoggerConfig, LoggerConfigView};
use crate::level::{Level, LevelFilter};
use crate::record::{
    colored_text, json_text, plain_text, LogEvent, LogLine, LogLineView, LogLineWrapper,
};
use crate::timestamp::iso8601_text;
use crate::writer::{
    file_takes, stderr_takes, stdout_takes, wants_json, FileWriter, FileWriterConfig, StderrWriter,
    StdoutWriter,
};
use vstd::prelude::*;

verus! {

/// A destination of log lines.
#[derive(Clone, Copy, Debug, PartialEq, Eq, Structural)]
pub enum Sink {
    Stderr,
    Stdout,
    File,
}

/// A text for a sink to write and flush.
#[derive(Debug)]
pub struct SinkWrite {
    pub sink: Sink,
    pub text: String,
}

impl DeepView for SinkWrite {
    type V = (Sink, Seq<char>);

    open spec fn deep_view(&self) -> (Sink, Seq<char>) {
        (self.sink, self.text@)
    }
}

/// Where the consumer is in its life.
#[derive(Clone, Copy, Debug, PartialEq, Eq, Structural)]
pub enum ConsumerState {
    /// Set up, not yet receiving.
    Starting,
    /// Receiving events.
    Running,
    /// Told to flush; the writers are being flushed.
    Draining,
    /// Done. Nothing is written any more.
    Terminated,
}

/// What a consumer writes with: the trader it names in each line, the
/// levels of single components, and its sinks. There is a file sink only
/// where `file` is `Some`, which then holds the sink's level and whether it
/// takes JSON lines.
pub struct ConsumerSetup {
    pub trader_id: Seq<char>,
    pub component_level: Map<Seq<char>, LevelFilter>,
    pub stdout_level: LevelFilter,
    pub stdout_colored: bool,
    pub stderr_colored: bool,
    pub file: Option<(LevelFilter, bool)>,
}

/// The setup that a configuration asks for. It has a file sink unless the
/// file level is `Off`.
pub open spec fn setup_of(
    trader_id: Seq<char>,
    config: LoggerConfigView,
    file_format: Option<String>,
) -> ConsumerSetup {
    ConsumerSetup {
        trader_id,
        component_level: config.component_level,
        stdout_level: config.stdout_level,
        stdout_colored: config.is_colored,
        stderr_colored: config.is_colored,
        file: if config.fileout_level != LevelFilter::Off {
            Some((config.fileout_level, wants_json(file_format)))
        } else {
            None
        },
    }
}

/// Whether the level set for the line's component keeps the line out: it
/// does when the component has a level and the line is more verbose.
pub open spec fn component_blocks(
    component_level: Map<Seq<char>, LevelFilter>,
    line: LogLineView,
) -> bool {
    component_level.contains_key(line.component) && !component_level[line.component].admits(
        line.level,
    )
}

/// The rendering for a terminal sink.
pub open spec fn terminal_text(
    is_colored: bool,
    timestamp: Seq<char>,
    trader_id: Seq<char>,
    line: LogLineView,
) -> Seq<char> {
    if is_colored {
        colored_text(timestamp, trader_id, line)
    } else {
        plain_text(timestamp, trader_id, line)
    }
}

/// The rendering for the file sink.
pub open spec fn file_text(
    json_format: bool,
    timestamp: Seq<char>,
    trader_id: Seq<char>,
    line: LogLineView,
) -> Seq<char> {
    if json_format {
        json_text(line)
    } else {
        plain_text(timestamp, trader_id, line)
    }
}

/// What stderr receives for a line: its rendering, where the line is an
/// error.
pub open spec fn stderr_writes(setup: ConsumerSetup, line: LogLineView, timestamp: Seq<char>) -> Seq<
    (Sink, Seq<char>),
> {
    if stderr_takes(line.level) {
        seq![(Sink::Stderr, terminal_text(setup.stderr_colored, timestamp, setup.trader_id, line))]
    } else {
        Seq::empty()
    }
}

/// What stdout receives for a line: its rendering, where stdout takes the
/// line.
pub open spec fn stdout_writes(setup: ConsumerSetup, line: LogLineView, timestamp: Seq<char>) -> Seq<
    (Sink, Seq<char>),
> {
    if stdout_takes(setup.stdout_level, line.level) {
        seq![(Sink::Stdout, terminal_text(setup.stdout_colored, timestamp, setup.trader_id, line))]
    } else {
        Seq::empty()
    }
}

/// What the file receives for a line: its rendering, where there is a file
/// sink and it takes the line.
pub open spec fn file_writes(setup: ConsumerSetup, line: LogLineView, timestamp: Seq<char>) -> Seq<
    (Sink, Seq<char>),
> {
    match setup.file {
        Some((level, json_format)) => if file_takes(level, line.level) {
            seq![(Sink::File, file_text(json_format, timestamp, setup.trader_id, line))]
        } else {
            Seq::empty()
        },
        None => Seq::empty(),
    }
}

/// What is written for one line taken from the queue at `timestamp_ns`:
/// nothing where the component's level keeps the line out, else the line's
/// rendering for stderr, for stdout and for the file, in this order, each
/// only where that sink takes the line.
pub open spec fn writes_for(setup: ConsumerSetup, line: LogLineView, timestamp_ns: u64) -> Seq<
    (Sink, Seq<char>),
> {
    if component_blocks(setup.component_level, line) {
        Seq::empty()
    } else {
        let timestamp = iso8601_text(timestamp_ns);
        stderr_writes(setup, line, timestamp) + stdout_writes(setup, line, timestamp) + file_writes(
            setup,
            line,
            timestamp,
        )
    }
}

/// The state after an event. `None` stands for the hang-up of the queue.
/// Only a running consumer moves: a line keeps it running, a flush makes it
/// drain, a hang-up ends it.
pub open spec fn next_state(state: ConsumerState, event: Option<LogEvent>) -> ConsumerState {
    if state == ConsumerState::Running {
        match event {
            Some(LogEvent::Log(_)) => ConsumerState::Running,
            Some(LogEvent::Flush) => ConsumerState::Draining,
            None => ConsumerState::Terminated,
        }
    } else {
        state
    }
}

/// What is written on an event: a running consumer writes a line's
/// renderings, and nothing is written otherwise.
pub open spec fn step_writes(
    setup: ConsumerSetup,
    state: ConsumerState,
    event: Option<LogEvent>,
    timestamp_ns: u64,
) -> Seq<(Sink, Seq<char>)> {
    match event {
        Some(LogEvent::Log(line)) => if state == ConsumerState::Running {
            writes_for(setup, line@, timestamp_ns)
        } else {
            Seq::empty()
        },
        _ => Seq::empty(),
    }
}

/// The state after a run of events, each with the time at which it was
/// taken from the queue.
pub open spec fn state_after(state: ConsumerState, events: Seq<(LogEvent, u64)>) -> ConsumerState
    decreases events.len(),
{
    if events.len() == 0 {
        state
    } else {
        next_state(state_after(state, events.drop_last()), Some(events.last().0))
    }
}

/// What is written over a run of events: the writes of each event in the
/// order of the events.
pub open spec fn writes_over(
    setup: ConsumerSetup,
    state: ConsumerState,
    events: Seq<(LogEvent, u64)>,
) -> Seq<(Sink, Seq<char>)>
    decreases events.len(),
{
    if events.len() == 0 {
        Seq::empty()
    } else {
        writes_over(setup, state, events.drop_last()) + step_writes(
            setup,
            state_after(state, events.drop_last()),
            Some(events.last().0),
            events.last().1,
        )
    }
}

/// The consumer's side of the queue: it decides for each event what is
/// written to which sink.
#[derive(Debug)]
pub struct LogConsumer {
    pub state: ConsumerState,
    pub trader_id: String,
    pub component_level: ComponentLevels,
    pub stdout_writer: StdoutWriter,
    pub stderr_writer: StderrWriter,
    pub file_writer: Option<FileWriter>,
}

impl View for LogConsumer {
    type V = ConsumerSetup;

    open spec fn view(&self) -> ConsumerSetup {
        ConsumerSetup {
            trader_id: self.trader_id@,
            component_level: self.component_level@,
            stdout_level: self.stdout_writer.level,
            stdout_colored: self.stdout_writer.is_colored,
            stderr_colored: self.stderr_writer.is_colored,
            file: match self.file_writer {
                Some(writer) => Some((writer.level, writer.json_format)),
                None => None,
            },
        }
    }
}

impl LogConsumer {
    /// Sets up the writers that the configuration asks for.
    pub fn new(trader_id: String, config: LoggerConfig, file_config: &FileWriterConfig) -> (r: Self)
        ensures
            r.state == ConsumerState::Starting,
            r@ == setup_of(trader_id@, config@, file_config.file_format),
    {
        let LoggerConfig { stdout_level, fileout_level, component_level, is_colored, print_config: _ } =
            config;
        let stdout_writer = StdoutWriter::new(stdout_level, is_colored);
        let stderr_writer = StderrWriter::new(is_colored);
        let file_writer = if fileout_level != LevelFilter::Off {
            Some(FileWriter::new(file_config, fileout_level))
        } else {
            None
        };
        LogConsumer {
            state: ConsumerState::Starting,
            trader_id,
            component_level,
            stdout_writer,
            stderr_writer,
            file_writer,
        }
    }

    /// Starts receiving. Only a consumer that has not run yet starts.
    pub fn start(&mut self)
        ensures
            final(self)@ == old(self)@,
            final(self).state == if old(self).state == ConsumerState::Starting {
                ConsumerState::Running
            } else {
                old(self).state
            },
    {
        if self.state == ConsumerState::Starting {
            self.state = ConsumerState::Running;
        }
    }

    /// Ends a drain, once the writers are flushed.
    pub fn finish(&mut self)
        ensures
            final(self)@ == old(self)@,
            final(self).state == if old(self).state == ConsumerState::Draining {
                ConsumerState::Terminated
            } else {
                old(self).state
            },
    {
        if self.state == ConsumerState::Draining {
            self.state = ConsumerState::Terminated;
        }
    }

    /// Whether the consumer still takes events.
    pub fn is_running(&self) -> (r: bool)
        ensures
            r == (self.state == ConsumerState::Running),
    {
        self.state == ConsumerState::Running
    }

    /// Decides what is written for one line taken from the queue at
    /// `timestamp_ns`.
    pub fn dispatch(&self, line: LogLine, timestamp_ns: u64) -> (r: Vec<SinkWrite>)
        ensures
            r.deep_view() == writes_for(self@, line@, timestamp_ns),
    {
        let mut writes: Vec<SinkWrite> = Vec::new();
        assert(writes.deep_view() =~= Seq::<(Sink, Seq<char>)>::empty());
        match self.component_level.get(line.component.as_str()) {
            Some(filter_level) => {
                if !filter_level.allows(line.level) {
                    return writes;
                }
            },
            None => {},
        }
        let ghost shown = line@;
        let ghost timestamp = iso8601_text(timestamp_ns);
        let mut wrapper = LogLineWrapper::new(line, self.trader_id.clone(), timestamp_ns);
        if self.stderr_writer.enabled(wrapper.get_line()) {
            let text = if self.stderr_writer.is_colored {
                wrapper.get_colored().to_owned()
            } else {
                wrapper.get_string().to_owned()
            };
            writes.push(SinkWrite { sink: Sink::Stderr, text });
        }
        assert(writes.deep_view() =~= stderr_writes(self@, shown, timestamp));
        let ghost first = writes.deep_view();
        if self.stdout_writer.enabled(wrapper.get_line()) {
            let text = if self.stdout_writer.is_colored {
                wrapper.get_colored().to_owned()
            } else {
                wrapper.get_string().to_owned()
            };
            writes.push(SinkWrite { sink: Sink::Stdout, text });
        }
        assert(writes.deep_view() =~= first + stdout_writes(self@, shown, timestamp));
        let ghost second = writes.deep_view();
        match &self.file_writer {
            Some(writer) => {
                if writer.enabled(wrapper.get_line()) {
                    let text = if writer.json_format {
                        wrapper.get_json().to_owned()
                    } else {
                        wrapper.get_string().to_owned()
                    };
                    writes.push(SinkWrite { sink: Sink::File, text });
                }
            },
            None => {},
        }
        assert(writes.deep_view() =~= second + file_writes(self@, shown, timestamp));
        writes
    }

    /// Takes one event from the queue, or its hang-up as `None`, and
    /// returns what is to be written, in order.
    pub fn handle_event(&mut self, event: Option<LogEvent>, timestamp_ns: u64) -> (r: Vec<SinkWrite>)
        ensures
            final(self)@ == old(self)@,
            final(self).state == next_state(old(self).state, event),
            r.deep_view() == step_writes(old(self)@, old(self).state, event, timestamp_ns),
    {
        let mut writes: Vec<SinkWrite> = Vec::new();
        assert(writes.deep_view() =~= Seq::<(Sink, Seq<char>)>::empty());
        if self.state == ConsumerState::Running {
            match event {
                Some(LogEvent::Log(line)) => {
                    writes = self.dispatch(line, timestamp_ns);
                },
                Some(LogEvent::Flush) => {
                    self.state = ConsumerState::Draining;
                },
                None => {
                    self.state = ConsumerState::Terminated;
                },
            }
        }
        writes
    }
}

} // verus!
