use crate::config::LoggerConfigView;
use crate::consumer::{
    component_blocks, file_writes, next_state, setup_of, state_after, stderr_writes, stdout_writes,
    step_writes, terminal_text, writes_for, writes_over, ConsumerSetup, ConsumerState, Sink,
};
use crate::json::{json_string, lemma_json_string_is_one_line};
use crate::level::{Level, LevelFilter, LogColor};
use crate::logger::producer_admits;
use crate::record::{colored_text, json_text, plain_text, LogEvent, LogLineView};
use crate::state::{after, after_all, LoggingState, StateChange};
use crate::timestamp::iso8601_text;
use vstd::prelude::*;

verus! {

/// The text ends with a line feed, and with one only.
pub open spec fn ends_with_one_newline(text: Seq<char>) -> bool {
    &&& text.len() >= 2
    &&& text[text.len() - 1] == '\n'
    &&& text[text.len() - 2] != '\n'
}

/// The message ends with a line feed.
pub open spec fn ends_with_newline(message: Seq<char>) -> bool {
    message.len() > 0 && message.last() == '\n'
}

/// What is written for a queue is what is written for its first part
/// followed by what is written for the rest: the consumer writes in the
/// order in which the events were taken from the queue.
pub proof fn lemma_writes_follow_the_queue(
    setup: ConsumerSetup,
    state: ConsumerState,
    first: Seq<(LogEvent, u64)>,
    rest: Seq<(LogEvent, u64)>,
)
    ensures
        state_after(state, first + rest) == state_after(state_after(state, first), rest),
        writes_over(setup, state, first + rest) == writes_over(setup, state, first) + writes_over(
            setup,
            state_after(state, first),
            rest,
        ),
    decreases rest.len(),
{
    if rest.len() == 0 {
        assert(first + rest =~= first);
        assert(writes_over(setup, state, first) + Seq::<(Sink, Seq<char>)>::empty() =~= writes_over(
            setup,
            state,
            first,
        ));
    } else {
        lemma_writes_follow_the_queue(setup, state, first, rest.drop_last());
        assert((first + rest).drop_last() =~= first + rest.drop_last());
        assert((first + rest).last() == rest.last());
        let step = step_writes(
            setup,
            state_after(state, first + rest.drop_last()),
            Some(rest.last().0),
            rest.last().1,
        );
        assert(writes_over(setup, state, first + rest) =~= writes_over(setup, state, first) + (
        writes_over(setup, state_after(state, first), rest.drop_last()) + step));
    }
}

/// Once the consumer has left the running state, nothing more is written,
/// whatever follows in the queue.
pub proof fn lemma_nothing_is_written_after_a_flush(
    setup: ConsumerSetup,
    state: ConsumerState,
    events: Seq<(LogEvent, u64)>,
)
    requires
        state != ConsumerState::Running,
    ensures
        state_after(state, events) == state,
        writes_over(setup, state, events) == Seq::<(Sink, Seq<char>)>::empty(),
    decreases events.len(),
{
    if events.len() != 0 {
        lemma_nothing_is_written_after_a_flush(setup, state, events.drop_last());
        assert(writes_over(setup, state, events) =~= Seq::<(Sink, Seq<char>)>::empty());
    }
}

/// A record that is no error and more verbose than both the stdout level
/// and the file level is kept out by the producer's filter, and no writer
/// would receive it.
pub proof fn lemma_too_verbose_reaches_no_writer(
    bypassed: bool,
    trader_id: Seq<char>,
    config: LoggerConfigView,
    file_format: Option<String>,
    line: LogLineView,
    timestamp_ns: u64,
)
    requires
        line.level.rank() > config.stdout_level.rank(),
        line.level.rank() > config.fileout_level.rank(),
        line.level != Level::Error,
    ensures
        !producer_admits(bypassed, config, line.level),
        writes_for(setup_of(trader_id, config, file_format), line, timestamp_ns) == Seq::<
            (Sink, Seq<char>),
        >::empty(),
{
    let setup = setup_of(trader_id, config, file_format);
    assert(writes_for(setup, line, timestamp_ns) =~= Seq::<(Sink, Seq<char>)>::empty());
}

/// A record that is more verbose than the level set for its component
/// reaches no writer.
pub proof fn lemma_component_level_reaches_no_writer(
    setup: ConsumerSetup,
    line: LogLineView,
    timestamp_ns: u64,
)
    requires
        setup.component_level.contains_key(line.component),
        line.level.rank() > setup.component_level[line.component].rank(),
    ensures
        writes_for(setup, line, timestamp_ns) == Seq::<(Sink, Seq<char>)>::empty(),
{
}

/// The colored rendering ends with exactly one line feed.
pub proof fn lemma_colored_text_ends_with_one_newline(
    timestamp: Seq<char>,
    trader_id: Seq<char>,
    line: LogLineView,
)
    ensures
        ends_with_one_newline(colored_text(timestamp, trader_id, line)),
{
    reveal_strlit("\x1b[0m\n");
}

/// The JSON rendering ends with exactly one line feed and holds no other:
/// it is one line.
pub proof fn lemma_json_text_is_one_line(line: LogLineView)
    ensures
        ends_with_one_newline(json_text(line)),
        forall|i: int| 0 <= i < json_text(line).len() - 1 ==> json_text(line)[i] != '\n',
{
    reveal_strlit("{\"level\":\"");
    reveal_strlit("\",\"color\":\"");
    reveal_strlit("\",\"component\":");
    reveal_strlit(",\"message\":");
    reveal_strlit("}\n");
    lemma_level_name_is_plain(line.level);
    lemma_color_name_is_plain(line.color);
    lemma_json_string_is_one_line(line.component);
    lemma_json_string_is_one_line(line.message);
    let a = "{\"level\":\""@;
    let b = a + line.level.name();
    let c = b + "\",\"color\":\""@;
    let d = c + line.color.name();
    let e = d + "\",\"component\":"@;
    let f = e + json_string(line.component);
    let g = f + ",\"message\":"@;
    let h = g + json_string(line.message);
    let text = h + "}\n"@;
    assert(text == json_text(line));
    assert forall|i: int| 0 <= i < a.len() implies a[i] != '\n' by {}
    assert forall|i: int| 0 <= i < b.len() implies b[i] != '\n' by {
        if i >= a.len() {
            assert(b[i] == line.level.name()[i - a.len()]);
        }
    }
    assert forall|i: int| 0 <= i < c.len() implies c[i] != '\n' by {
        if i >= b.len() {
            assert(c[i] == "\",\"color\":\""@[i - b.len()]);
        }
    }
    assert forall|i: int| 0 <= i < d.len() implies d[i] != '\n' by {
        if i >= c.len() {
            assert(d[i] == line.color.name()[i - c.len()]);
        }
    }
    assert forall|i: int| 0 <= i < e.len() implies e[i] != '\n' by {
        if i >= d.len() {
            assert(e[i] == "\",\"component\":"@[i - d.len()]);
        }
    }
    assert forall|i: int| 0 <= i < f.len() implies f[i] != '\n' by {
        if i >= e.len() {
            assert(f[i] == json_string(line.component)[i - e.len()]);
        }
    }
    assert forall|i: int| 0 <= i < g.len() implies g[i] != '\n' by {
        if i >= f.len() {
            assert(g[i] == ",\"message\":"@[i - f.len()]);
        }
    }
    assert forall|i: int| 0 <= i < h.len() implies h[i] != '\n' by {
        if i >= g.len() {
            assert(h[i] == json_string(line.message)[i - g.len()]);
        }
    }
    assert(text[text.len() - 1] == '\n');
    assert(text[text.len() - 2] == '}');
    assert forall|i: int| 0 <= i < text.len() - 1 implies text[i] != '\n' by {
        if i < h.len() {
            assert(text[i] == h[i]);
        }
    }
}

/// The name of a level holds no line feed.
pub proof fn lemma_level_name_is_plain(level: Level)
    ensures
        forall|i: int| 0 <= i < level.name().len() ==> #[trigger] level.name()[i] != '\n',
{
    reveal_strlit("ERROR");
    reveal_strlit("WARN");
    reveal_strlit("INFO");
    reveal_strlit("DEBUG");
}

/// The name of a color holds no line feed.
pub proof fn lemma_color_name_is_plain(color: LogColor)
    ensures
        forall|i: int| 0 <= i < color.name().len() ==> #[trigger] color.name()[i] != '\n',
{
    reveal_strlit("Normal");
    reveal_strlit("Green");
    reveal_strlit("Blue");
    reveal_strlit("Magenta");
    reveal_strlit("Cyan");
    reveal_strlit("Yellow");
    reveal_strlit("Red");
}

/// The plain rendering ends with exactly one line feed, unless the message
/// itself ends with one.
pub proof fn lemma_plain_text_ends_with_one_newline(
    timestamp: Seq<char>,
    trader_id: Seq<char>,
    line: LogLineView,
)
    requires
        !ends_with_newline(line.message),
    ensures
        ends_with_one_newline(plain_text(timestamp, trader_id, line)),
{
    reveal_strlit(": ");
    reveal_strlit("\n");
    let head = timestamp + " ["@ + line.level.name() + "] "@ + trader_id + "."@ + line.component
        + ": "@;
    let text = head + line.message + "\n"@;
    assert(text == plain_text(timestamp, trader_id, line));
    assert(head[head.len() - 1] == ' ');
    if line.message.len() > 0 {
        assert(text[text.len() - 2] == line.message.last());
    } else {
        assert(text[text.len() - 2] == head[head.len() - 1]);
    }
}

/// Every text that a writer receives for a line ends with exactly one line
/// feed. The one exception is the plain rendering of a message that itself
/// ends with a line feed.
pub proof fn lemma_writes_end_with_one_newline(
    setup: ConsumerSetup,
    line: LogLineView,
    timestamp_ns: u64,
)
    ensures
        forall|i: int|
            0 <= i < writes_for(setup, line, timestamp_ns).len() ==> {
                let text = (#[trigger] writes_for(setup, line, timestamp_ns)[i]).1;
                ends_with_one_newline(text) || (ends_with_newline(line.message) && text
                    == plain_text(iso8601_text(timestamp_ns), setup.trader_id, line))
            },
{
    let timestamp = iso8601_text(timestamp_ns);
    lemma_colored_text_ends_with_one_newline(timestamp, setup.trader_id, line);
    lemma_json_text_is_one_line(line);
    if !ends_with_newline(line.message) {
        lemma_plain_text_ends_with_one_newline(timestamp, setup.trader_id, line);
    }
    let a = stderr_writes(setup, line, timestamp);
    let b = stdout_writes(setup, line, timestamp);
    let c = file_writes(setup, line, timestamp);
    assert forall|i: int| 0 <= i < writes_for(setup, line, timestamp_ns).len() implies {
        let text = (#[trigger] writes_for(setup, line, timestamp_ns)[i]).1;
        ends_with_one_newline(text) || (ends_with_newline(line.message) && text == plain_text(
            timestamp,
            setup.trader_id,
            line,
        ))
    } by {
        let w = writes_for(setup, line, timestamp_ns);
        assert(w == a + b + c);
        if i < a.len() {
            assert(w[i] == a[i]);
        } else if i < a.len() + b.len() {
            assert(w[i] == b[i - a.len()]);
        } else {
            assert(w[i] == c[i - a.len() - b.len()]);
        }
    }
}

/// An error passes the producer's filter whenever logging is not bypassed,
/// whatever the stdout and file levels are. Unless the level set for its
/// component keeps it out, it is written to stderr first, and never to
/// stdout.
pub proof fn lemma_errors_go_to_stderr(
    config: LoggerConfigView,
    setup: ConsumerSetup,
    line: LogLineView,
    timestamp_ns: u64,
)
    requires
        line.level == Level::Error,
    ensures
        producer_admits(false, config, line.level),
        !component_blocks(setup.component_level, line) ==> {
            let writes = writes_for(setup, line, timestamp_ns);
            &&& writes.len() >= 1
            &&& writes[0] == (
                Sink::Stderr,
                terminal_text(
                    setup.stderr_colored,
                    iso8601_text(timestamp_ns),
                    setup.trader_id,
                    line,
                ),
            )
            &&& forall|i: int| 0 <= i < writes.len() ==> (#[trigger] writes[i]).0 != Sink::Stdout
        },
{
    if !component_blocks(setup.component_level, line) {
        let timestamp = iso8601_text(timestamp_ns);
        let a = stderr_writes(setup, line, timestamp);
        let b = stdout_writes(setup, line, timestamp);
        let c = file_writes(setup, line, timestamp);
        let writes = writes_for(setup, line, timestamp_ns);
        assert(writes == a + b + c);
        assert(b.len() == 0);
        assert(writes[0] == a[0]);
        assert forall|i: int| 0 <= i < writes.len() implies (#[trigger] writes[i]).0
            != Sink::Stdout by {
            if i >= 1 {
                assert(writes[i] == c[i - 1]);
            }
        }
    }
}

/// The only component level that keeps an error out is `Off`.
pub proof fn lemma_only_off_blocks_an_error(
    component_level: Map<Seq<char>, LevelFilter>,
    line: LogLineView,
)
    requires
        line.level == Level::Error,
    ensures
        component_blocks(component_level, line) <==> (component_level.contains_key(line.component)
            && component_level[line.component] == LevelFilter::Off),
{
}

/// Bypass is a latch: once logging is bypassed it stays so through every
/// change of the state, and the producer's filter lets no record through.
pub proof fn lemma_bypass_is_a_latch(
    state: LoggingState,
    changes: Seq<StateChange>,
    config: LoggerConfigView,
    level: Level,
)
    requires
        state.bypassed,
    ensures
        after_all(state, changes).bypassed,
        !producer_admits(after_all(state, changes).bypassed, config, level),
    decreases changes.len(),
{
    if changes.len() != 0 {
        lemma_bypass_is_a_latch(state, changes.drop_last(), config, level);
    }
}

/// A state is marked as installed at most once: later installs change
/// nothing, and no change takes the mark away.
pub proof fn lemma_installed_stays_installed(state: LoggingState, changes: Seq<StateChange>)
    requires
        state.initialized,
    ensures
        after_all(state, changes).initialized,
        after_all(state, changes).colored == state.colored,
    decreases changes.len(),
{
    if changes.len() != 0 {
        lemma_installed_stays_installed(state, changes.drop_last());
    }
}

} // verus!
