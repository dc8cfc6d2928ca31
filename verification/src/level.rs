use vstd::prelude::*;
use vstd::std_specs::convert::FromSpecImpl;

verus! {

/// The severity a caller asks for when it emits a message. `Off` emits nothing.
#[derive(Clone, Copy, Debug, PartialEq, Eq, Structural, Hash)]
pub enum LogLevel {
    Off,
    Debug,
    Info,
    Warning,
    Error,
}

/// The severity of a record. `Error` is the most severe and has the lowest
/// rank; every later variant is more verbose.
#[derive(Clone, Copy, Debug, PartialEq, Eq, Structural, Hash)]
pub enum Level {
    Error,
    Warn,
    Info,
    Debug,
}

/// The verbosity ceiling of a sink or component: `Off` admits no record, each
/// later variant admits what the earlier ones do and one level more.
#[derive(Clone, Copy, Debug, PartialEq, Eq, Structural, Hash)]
pub enum LevelFilter {
    Off,
    Error,
    Warn,
    Info,
    Debug,
}

/// A display hint for a record on a colored terminal.
#[derive(Clone, Copy, Debug, PartialEq, Eq, Structural, Hash)]
pub enum LogColor {
    Normal,
    Green,
    Blue,
    Magenta,
    Cyan,
    Yellow,
    Red,
}

impl Level {
    /// Position in the verbosity order: `Error` is 1, `Debug` is 4.
    pub open spec fn rank(self) -> nat {
        match self {
            Level::Error => 1,
            Level::Warn => 2,
            Level::Info => 3,
            Level::Debug => 4,
        }
    }

    /// The upper-case name that stands in every rendering of a record.
    pub open spec fn name(self) -> Seq<char> {
        match self {
            Level::Error => "ERROR"@,
            Level::Warn => "WARN"@,
            Level::Info => "INFO"@,
            Level::Debug => "DEBUG"@,
        }
    }

    /// The filter that admits this level and nothing more verbose.
    pub open spec fn filter(self) -> LevelFilter {
        match self {
            Level::Error => LevelFilter::Error,
            Level::Warn => LevelFilter::Warn,
            Level::Info => LevelFilter::Info,
            Level::Debug => LevelFilter::Debug,
        }
    }

    /// The level's position in the verbosity order.
    pub fn to_rank(self) -> (r: u8)
        ensures
            r == self.rank(),
    {
        match self {
            Level::Error => 1,
            Level::Warn => 2,
            Level::Info => 3,
            Level::Debug => 4,
        }
    }

    /// The level's name in upper case.
    pub fn as_str(self) -> (r: &'static str)
        ensures
            r@ == self.name(),
    {
        match self {
            Level::Error => "ERROR",
            Level::Warn => "WARN",
            Level::Info => "INFO",
            Level::Debug => "DEBUG",
        }
    }

    /// The filter that admits this level and nothing more verbose.
    pub fn to_level_filter(self) -> (r: LevelFilter)
        ensures
            r == self.filter(),
            r.rank() == self.rank(),
    {
        match self {
            Level::Error => LevelFilter::Error,
            Level::Warn => LevelFilter::Warn,
            Level::Info => LevelFilter::Info,
            Level::Debug => LevelFilter::Debug,
        }
    }
}

impl LevelFilter {
    /// Position in the verbosity order: `Off` is 0, `Debug` is 4.
    pub open spec fn rank(self) -> nat {
        match self {
            LevelFilter::Off => 0,
            LevelFilter::Error => 1,
            LevelFilter::Warn => 2,
            LevelFilter::Info => 3,
            LevelFilter::Debug => 4,
        }
    }

    /// Whether a record of `level` passes this filter: it does when it is
    /// no more verbose than the filter.
    pub open spec fn admits(self, level: Level) -> bool {
        level.rank() <= self.rank()
    }

    /// The filter's position in the verbosity order.
    pub fn to_rank(self) -> (r: u8)
        ensures
            r == self.rank(),
    {
        match self {
            LevelFilter::Off => 0,
            LevelFilter::Error => 1,
            LevelFilter::Warn => 2,
            LevelFilter::Info => 3,
            LevelFilter::Debug => 4,
        }
    }

    /// Whether a record of `level` passes this filter.
    pub fn allows(self, level: Level) -> (r: bool)
        ensures
            r == self.admits(level),
    {
        level.to_rank() <= self.to_rank()
    }
}

impl LogColor {
    /// The number that carries the color across the producer interface.
    pub open spec fn code(self) -> nat {
        match self {
            LogColor::Normal => 0,
            LogColor::Green => 1,
            LogColor::Blue => 2,
            LogColor::Magenta => 3,
            LogColor::Cyan => 4,
            LogColor::Yellow => 5,
            LogColor::Red => 6,
        }
    }

    /// The color a number stands for. A number that is no color's code
    /// stands for `Normal`.
    pub open spec fn of_code(value: u8) -> LogColor {
        if value == 1 {
            LogColor::Green
        } else if value == 2 {
            LogColor::Blue
        } else if value == 3 {
            LogColor::Magenta
        } else if value == 4 {
            LogColor::Cyan
        } else if value == 5 {
            LogColor::Yellow
        } else if value == 6 {
            LogColor::Red
        } else {
            LogColor::Normal
        }
    }

    /// The ANSI SGR sequence that switches a terminal to this color.
    /// `Normal` switches nothing.
    pub open spec fn ansi_prefix(self) -> Seq<char> {
        match self {
            LogColor::Normal => ""@,
            LogColor::Green => "\x1b[92m"@,
            LogColor::Blue => "\x1b[94m"@,
            LogColor::Magenta => "\x1b[35m"@,
            LogColor::Cyan => "\x1b[36m"@,
            LogColor::Yellow => "\x1b[1;33m"@,
            LogColor::Red => "\x1b[1;31m"@,
        }
    }

    /// The name under which the color stands in a JSON record.
    pub open spec fn name(self) -> Seq<char> {
        match self {
            LogColor::Normal => "Normal"@,
            LogColor::Green => "Green"@,
            LogColor::Blue => "Blue"@,
            LogColor::Magenta => "Magenta"@,
            LogColor::Cyan => "Cyan"@,
            LogColor::Yellow => "Yellow"@,
            LogColor::Red => "Red"@,
        }
    }

    /// The color's code.
    pub fn to_u8(self) -> (r: u8)
        ensures
            r == self.code(),
            LogColor::of_code(r) == self,
    {
        match self {
            LogColor::Normal => 0,
            LogColor::Green => 1,
            LogColor::Blue => 2,
            LogColor::Magenta => 3,
            LogColor::Cyan => 4,
            LogColor::Yellow => 5,
            LogColor::Red => 6,
        }
    }

    /// The ANSI sequence that switches a terminal to this color.
    pub fn as_ansi(self) -> (r: &'static str)
        ensures
            r@ == self.ansi_prefix(),
    {
        match self {
            LogColor::Normal => "",
            LogColor::Green => "\x1b[92m",
            LogColor::Blue => "\x1b[94m",
            LogColor::Magenta => "\x1b[35m",
            LogColor::Cyan => "\x1b[36m",
            LogColor::Yellow => "\x1b[1;33m",
            LogColor::Red => "\x1b[1;31m",
        }
    }

    /// The color's name.
    pub fn as_str(self) -> (r: &'static str)
        ensures
            r@ == self.name(),
    {
        match self {
            LogColor::Normal => "Normal",
            LogColor::Green => "Green",
            LogColor::Blue => "Blue",
            LogColor::Magenta => "Magenta",
            LogColor::Cyan => "Cyan",
            LogColor::Yellow => "Yellow",
            LogColor::Red => "Red",
        }
    }
}

impl From<u8> for LogColor {
    fn from(value: u8) -> (r: LogColor) {
        match value {
            1 => LogColor::Green,
            2 => LogColor::Blue,
            3 => LogColor::Magenta,
            4 => LogColor::Cyan,
            5 => LogColor::Yellow,
            6 => LogColor::Red,
            _ => LogColor::Normal,
        }
    }
}

impl FromSpecImpl<u8> for LogColor {
    open spec fn obeys_from_spec() -> bool {
        true
    }

    open spec fn from_spec(value: u8) -> LogColor {
        LogColor::of_code(value)
    }
}

/// The filter that a level chosen by a caller stands for.
pub open spec fn level_filter_of(log_level: LogLevel) -> LevelFilter {
    match log_level {
        LogLevel::Off => LevelFilter::Off,
        LogLevel::Debug => LevelFilter::Debug,
        LogLevel::Info => LevelFilter::Info,
        LogLevel::Warning => LevelFilter::Warn,
        LogLevel::Error => LevelFilter::Error,
    }
}

/// Maps the level that a caller chose to the filter it stands for.
pub fn map_log_level_to_filter(log_level: LogLevel) -> (r: LevelFilter)
    ensures
        r == level_filter_of(log_level),
{
    match log_level {
        LogLevel::Off => LevelFilter::Off,
        LogLevel::Debug => LevelFilter::Debug,
        LogLevel::Info => LevelFilter::Info,
        LogLevel::Warning => LevelFilter::Warn,
        LogLevel::Error => LevelFilter::Error,
    }
}

} // verus!
