use vstd::prelude::*;

verus! {

/// The logging state of a process: whether a logger is installed, whether
/// logging is bypassed, whether lines for the terminal are colored, which
/// clock stamps the records, and what the static clock shows.
#[derive(Clone, Copy, Debug, PartialEq, Eq, Structural)]
pub struct LoggingState {
    pub initialized: bool,
    pub bypassed: bool,
    pub realtime: bool,
    pub colored: bool,
    pub static_time_ns: u64,
}

/// The state at the start of a process: nothing installed, nothing
/// bypassed, the real-time clock, colors on, the static clock at zero.
pub open spec fn initial_state() -> LoggingState {
    LoggingState {
        initialized: false,
        bypassed: false,
        realtime: true,
        colored: true,
        static_time_ns: 0,
    }
}

/// A change of the logging state.
pub enum StateChange {
    /// Logging is bypassed from now on.
    Bypass,
    /// The real-time clock stamps the records.
    RealtimeClock,
    /// The static clock stamps the records.
    StaticClock,
    /// The static clock is set, in nanoseconds of UNIX time.
    StaticTime(u64),
    /// A logger is installed, with this color switch. It takes effect only
    /// where none was installed.
    Install(bool),
}

/// The state after one change.
pub open spec fn after(state: LoggingState, change: StateChange) -> LoggingState {
    match change {
        StateChange::Bypass => LoggingState { bypassed: true, ..state },
        StateChange::RealtimeClock => LoggingState { realtime: true, ..state },
        StateChange::StaticClock => LoggingState { realtime: false, ..state },
        StateChange::StaticTime(time_ns) => LoggingState { static_time_ns: time_ns, ..state },
        StateChange::Install(colored) => if state.initialized {
            state
        } else {
            LoggingState { initialized: true, colored, ..state }
        },
    }
}

/// The state after a run of changes, applied left to right.
pub open spec fn after_all(state: LoggingState, changes: Seq<StateChange>) -> LoggingState
    decreases changes.len(),
{
    if changes.len() == 0 {
        state
    } else {
        after(after_all(state, changes.drop_last()), changes.last())
    }
}

impl LoggingState {
    /// The state at the start of a process.
    pub fn new() -> (r: Self)
        ensures
            r == initial_state(),
    {
        LoggingState {
            initialized: false,
            bypassed: false,
            realtime: true,
            colored: true,
            static_time_ns: 0,
        }
    }

    /// The time that stamps a record: what the real-time clock shows in
    /// real-time mode, else what the static clock was last set to.
    pub open spec fn time_at(self, now_ns: u64) -> u64 {
        if self.realtime {
            now_ns
        } else {
            self.static_time_ns
        }
    }

    /// The time that stamps a record taken from the queue when the
    /// real-time clock shows `now_ns`.
    pub fn timestamp(&self, now_ns: u64) -> (r: u64)
        ensures
            r == self.time_at(now_ns),
    {
        if self.realtime {
            now_ns
        } else {
            self.static_time_ns
        }
    }
}

impl Default for LoggingState {
    fn default() -> (r: Self)
        ensures
            r == initial_state(),
    {
        LoggingState::new()
    }
}

/// Returns whether a logger is installed, as 1 or 0.
pub fn logging_is_initialized(state: &LoggingState) -> (r: u8)
    ensures
        r == if state.initialized {
            1u8
        } else {
            0u8
        },
{
    if state.initialized {
        1
    } else {
        0
    }
}

/// Sets the logging system to bypass mode. Nothing leaves that mode.
pub fn logging_set_bypass(state: &mut LoggingState)
    ensures
        *final(state) == after(*old(state), StateChange::Bypass),
{
    state.bypassed = true;
}

/// Returns whether lines for the terminal are colored, as 1 or 0.
pub fn logging_is_colored(state: &LoggingState) -> (r: u8)
    ensures
        r == if state.colored {
            1u8
        } else {
            0u8
        },
{
    if state.colored {
        1
    } else {
        0
    }
}

/// Sets the logging clock to real-time mode.
pub fn logging_clock_set_realtime_mode(state: &mut LoggingState)
    ensures
        *final(state) == after(*old(state), StateChange::RealtimeClock),
{
    state.realtime = true;
}

/// Sets the logging clock to static mode.
pub fn logging_clock_set_static_mode(state: &mut LoggingState)
    ensures
        *final(state) == after(*old(state), StateChange::StaticClock),
{
    state.realtime = false;
}

/// Sets the static clock to the given UNIX time in nanoseconds.
pub fn logging_clock_set_static_time(state: &mut LoggingState, time_ns: u64)
    ensures
        *final(state) == after(*old(state), StateChange::StaticTime(time_ns)),
{
    state.static_time_ns = time_ns;
}

} // verus!
