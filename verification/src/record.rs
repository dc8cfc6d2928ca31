use crate::json::{json_string, to_json_string};
use crate::level::{Level, LogColor};
use crate::timestamp::{iso8601_text, unix_nanos_to_iso8601};
use vstd::pervasive::unreached;
use vstd::prelude::*;
use vstd::string::StringExecFns;

verus! {

/// What a log line says.
pub struct LogLineView {
    pub level: Level,
    pub color: LogColor,
    pub component: Seq<char>,
    pub message: Seq<char>,
}

/// A log event which includes a message.
#[derive(Debug)]
pub struct LogLine {
    /// The log level for the event.
    pub level: Level,
    /// The color for the log message content.
    pub color: LogColor,
    /// The system component the log event originated from.
    pub component: String,
    /// The log message content.
    pub message: String,
}

/// What the producers hand to the consumer.
#[derive(Debug)]
pub enum LogEvent {
    /// A log line event.
    Log(LogLine),
    /// A command to flush all logger buffers.
    Flush,
}

impl View for LogLine {
    type V = LogLineView;

    open spec fn view(&self) -> LogLineView {
        LogLineView {
            level: self.level,
            color: self.color,
            component: self.component@,
            message: self.message@,
        }
    }
}

impl Clone for LogLine {
    fn clone(&self) -> (r: Self)
        ensures
            r@ == self@,
    {
        LogLine {
            level: self.level,
            color: self.color,
            component: self.component.clone(),
            message: self.message.clone(),
        }
    }
}

/// The short form of a line: `[LEVEL] component: message`.
pub open spec fn summary_text(line: LogLineView) -> Seq<char> {
    "["@ + line.level.name() + "] "@ + line.component + ": "@ + line.message
}

/// The plain rendering of a line:
/// `timestamp [LEVEL] trader_id.component: message` and a line feed.
pub open spec fn plain_text(timestamp: Seq<char>, trader_id: Seq<char>, line: LogLineView) -> Seq<
    char,
> {
    timestamp + " ["@ + line.level.name() + "] "@ + trader_id + "."@ + line.component + ": "@
        + line.message + "\n"@
}

/// The rendering for a terminal: the timestamp in bold, the rest of the line
/// in the line's color, then a reset and a line feed.
pub open spec fn colored_text(timestamp: Seq<char>, trader_id: Seq<char>, line: LogLineView) -> Seq<
    char,
> {
    "\x1b[1m"@ + timestamp + "\x1b[0m "@ + line.color.ansi_prefix() + "["@ + line.level.name()
        + "] "@ + trader_id + "."@ + line.component + ": "@ + line.message + "\x1b[0m\n"@
}

/// The JSON rendering: one compact object with the keys `level`, `color`,
/// `component` and `message` in this order, and a line feed.
pub open spec fn json_text(line: LogLineView) -> Seq<char> {
    "{\"level\":\""@ + line.level.name() + "\",\"color\":\""@ + line.color.name()
        + "\",\"component\":"@ + json_string(line.component) + ",\"message\":"@ + json_string(
        line.message,
    ) + "}\n"@
}

impl LogLine {
    /// The line as `[LEVEL] component: message`.
    pub fn to_string(&self) -> (r: String)
        ensures
            r@ == summary_text(self@),
    {
        let mut out = String::new();
        out.append("[");
        assert(out@ =~= "["@);
        out.append(self.level.as_str());
        out.append("] ");
        out.append(self.component.as_str());
        out.append(": ");
        out.append(self.message.as_str());
        out
    }

    /// The line as a JSON object on one line.
    pub fn to_json(&self) -> (r: String)
        ensures
            r@ == json_text(self@),
    {
        let component = to_json_string(self.component.as_str());
        let message = to_json_string(self.message.as_str());
        let mut out = String::new();
        out.append("{\"level\":\"");
        assert(out@ =~= "{\"level\":\""@);
        out.append(self.level.as_str());
        out.append("\",\"color\":\"");
        out.append(self.color.as_str());
        out.append("\",\"component\":");
        out.append(component.as_str());
        out.append(",\"message\":");
        out.append(message.as_str());
        out.append("}\n");
        out
    }
}

/// A log line on the consumer's side, with the time at which it was taken
/// from the queue and the trader it belongs to. Each rendering is built when
/// it is first asked for and kept: asking again changes nothing.
pub struct LogLineWrapper {
    line: LogLine,
    cache: Option<String>,
    colored: Option<String>,
    json: Option<String>,
    timestamp: String,
    trader_id: String,
}

impl LogLineWrapper {
    #[verifier::type_invariant]
    spec fn caches_hold_the_renderings(self) -> bool {
        &&& self.cache matches Some(text) ==> text@ == self.plain()
        &&& self.colored matches Some(text) ==> text@ == self.colored()
        &&& self.json matches Some(text) ==> text@ == self.json()
    }

    /// The line that is wrapped.
    pub closed spec fn line(self) -> LogLineView {
        self.line@
    }

    /// The time at which the line was taken from the queue, as a text.
    pub closed spec fn timestamp(self) -> Seq<char> {
        self.timestamp@
    }

    /// The trader that the line belongs to.
    pub closed spec fn trader_id(self) -> Seq<char> {
        self.trader_id@
    }

    /// Whether the plain rendering has been built.
    pub closed spec fn has_plain(self) -> bool {
        self.cache is Some
    }

    /// Whether the colored rendering has been built.
    pub closed spec fn has_colored(self) -> bool {
        self.colored is Some
    }

    /// Whether the JSON rendering has been built.
    pub closed spec fn has_json(self) -> bool {
        self.json is Some
    }

    /// The plain rendering of the line.
    pub open spec fn plain(self) -> Seq<char> {
        plain_text(self.timestamp(), self.trader_id(), self.line())
    }

    /// The rendering of the line for a terminal that shows colors.
    pub open spec fn colored(self) -> Seq<char> {
        colored_text(self.timestamp(), self.trader_id(), self.line())
    }

    /// The JSON rendering of the line.
    pub open spec fn json(self) -> Seq<char> {
        json_text(self.line())
    }

    /// The same line, time and trader.
    pub open spec fn same_record(self, other: Self) -> bool {
        &&& self.line() == other.line()
        &&& self.timestamp() == other.timestamp()
        &&& self.trader_id() == other.trader_id()
    }

    /// Wraps a line taken from the queue at `timestamp`, in nanoseconds of
    /// UNIX time. No rendering is built yet.
    pub fn new(line: LogLine, trader_id: String, timestamp: u64) -> (r: Self)
        ensures
            r.line() == line@,
            r.trader_id() == trader_id@,
            r.timestamp() == iso8601_text(timestamp),
            !r.has_plain(),
            !r.has_colored(),
            !r.has_json(),
    {
        LogLineWrapper {
            line,
            cache: None,
            colored: None,
            json: None,
            timestamp: unix_nanos_to_iso8601(timestamp),
            trader_id,
        }
    }

    /// The line that is wrapped.
    pub fn get_line(&self) -> (r: &LogLine)
        ensures
            r@ == self.line(),
    {
        &self.line
    }

    /// The plain rendering.
    pub fn get_string(&mut self) -> (r: &str)
        ensures
            r@ == old(self).plain(),
            final(self).same_record(*old(self)),
            final(self).has_plain(),
            final(self).has_colored() == old(self).has_colored(),
            final(self).has_json() == old(self).has_json(),
            old(self).has_plain() ==> *final(self) == *old(self),
    {
        proof {
            use_type_invariant(&*self);
        }
        if self.cache.is_none() {
            let mut out = self.timestamp.clone();
            out.append(" [");
            out.append(self.line.level.as_str());
            out.append("] ");
            out.append(self.trader_id.as_str());
            out.append(".");
            out.append(self.line.component.as_str());
            out.append(": ");
            out.append(self.line.message.as_str());
            out.append("\n");
            self.cache = Some(out);
        }
        match &self.cache {
            Some(text) => text.as_str(),
            None => unreached(),
        }
    }

    /// The rendering for a terminal that shows colors.
    pub fn get_colored(&mut self) -> (r: &str)
        ensures
            r@ == old(self).colored(),
            final(self).same_record(*old(self)),
            final(self).has_colored(),
            final(self).has_plain() == old(self).has_plain(),
            final(self).has_json() == old(self).has_json(),
            old(self).has_colored() ==> *final(self) == *old(self),
    {
        proof {
            use_type_invariant(&*self);
        }
        if self.colored.is_none() {
            let mut out = String::new();
            out.append("\x1b[1m");
            assert(out@ =~= "\x1b[1m"@);
            out.append(self.timestamp.as_str());
            out.append("\x1b[0m ");
            out.append(self.line.color.as_ansi());
            out.append("[");
            out.append(self.line.level.as_str());
            out.append("] ");
            out.append(self.trader_id.as_str());
            out.append(".");
            out.append(self.line.component.as_str());
            out.append(": ");
            out.append(self.line.message.as_str());
            out.append("\x1b[0m\n");
            self.colored = Some(out);
        }
        match &self.colored {
            Some(text) => text.as_str(),
            None => unreached(),
        }
    }

    /// The JSON rendering.
    pub fn get_json(&mut self) -> (r: &str)
        ensures
            r@ == old(self).json(),
            final(self).same_record(*old(self)),
            final(self).has_json(),
            final(self).has_plain() == old(self).has_plain(),
            final(self).has_colored() == old(self).has_colored(),
            old(self).has_json() ==> *final(self) == *old(self),
    {
        proof {
            use_type_invariant(&*self);
        }
        if self.json.is_none() {
            let out = self.line.to_json();
            self.json = Some(out);
        }
        match &self.json {
            Some(text) => text.as_str(),
            None => unreached(),
        }
    }
}

} // verus!
