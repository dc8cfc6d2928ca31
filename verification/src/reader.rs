use crate::json::{escape_char, escape_text, hex_digit, is_control, json_string};
use crate::level::{Level, LogColor};
use crate::record::{json_text, LogLine, LogLineView};
use crate::text::chars_of;
use vstd::prelude::*;

verus! {

/// The text behind `prefix`, where `s` begins with it.
pub open spec fn strip(s: Seq<char>, prefix: Seq<char>) -> Option<Seq<char>> {
    if prefix.is_prefix_of(s) {
        Some(s.skip(prefix.len() as int))
    } else {
        None
    }
}

/// The number that a lower-case hexadecimal digit stands for.
pub open spec fn hex_value(c: char) -> Option<int> {
    if '0' <= c && c <= '9' {
        Some(c as int - 48)
    } else if 'a' <= c && c <= 'f' {
        Some(c as int - 87)
    } else {
        None
    }
}

/// The control character that `\u00` and the two digits stand for, where
/// they are how such a character is written: the character has no shorter
/// escape of its own.
pub open spec fn control_of(high: char, low: char) -> Option<char> {
    match (hex_value(high), hex_value(low)) {
        (Some(h), Some(l)) => {
            let n = h * 16 + l;
            if n < 0x20 && n != 8 && n != 9 && n != 10 && n != 12 && n != 13 {
                Some(n as char)
            } else {
                None
            }
        },
        _ => None,
    }
}

/// The character that `s` begins with inside a JSON string, and the number
/// of characters that write it. Only the one way in which a character is
/// written is read: a control character or a quotation mark that stands for
/// itself is none, nor is an escape of a character that needs none.
pub open spec fn read_char(s: Seq<char>) -> Option<(char, int)> {
    if s.len() == 0 {
        None
    } else if s[0] == '\\' {
        if s.len() < 2 {
            None
        } else if s[1] == '"' {
            Some(('"', 2))
        } else if s[1] == '\\' {
            Some(('\\', 2))
        } else if s[1] == 'b' {
            Some(('\u{8}', 2))
        } else if s[1] == 'f' {
            Some(('\u{c}', 2))
        } else if s[1] == 'n' {
            Some(('\n', 2))
        } else if s[1] == 'r' {
            Some(('\r', 2))
        } else if s[1] == 't' {
            Some(('\t', 2))
        } else if s[1] == 'u' && s.len() >= 6 && s[2] == '0' && s[3] == '0' {
            match control_of(s[4], s[5]) {
                Some(c) => Some((c, 6)),
                None => None,
            }
        } else {
            None
        }
    } else if s[0] == '"' || is_control(s[0]) {
        None
    } else {
        Some((s[0], 1))
    }
}

/// The text of a JSON string whose opening quotation mark has been read,
/// and what follows its closing quotation mark.
pub open spec fn read_body(s: Seq<char>) -> Option<(Seq<char>, Seq<char>)>
    decreases s.len(),
{
    if s.len() == 0 {
        None
    } else if s[0] == '"' {
        Some((Seq::<char>::empty(), s.skip(1)))
    } else {
        match read_char(s) {
            Some((c, n)) => if 1 <= n <= s.len() {
                match read_body(s.skip(n)) {
                    Some((text, rest)) => Some((seq![c] + text, rest)),
                    None => None,
                }
            } else {
                None
            },
            None => None,
        }
    }
}

/// The text of the JSON string that `s` begins with, and what follows it.
pub open spec fn read_string(s: Seq<char>) -> Option<(Seq<char>, Seq<char>)> {
    if s.len() > 0 && s[0] == '"' {
        read_body(s.skip(1))
    } else {
        None
    }
}

/// The level whose name `s` begins with, and what follows the name.
#[verifier::opaque]
pub open spec fn read_level(s: Seq<char>) -> Option<(Level, Seq<char>)> {
    if strip(s, "ERROR"@) is Some {
        Some((Level::Error, strip(s, "ERROR"@).unwrap()))
    } else if strip(s, "WARN"@) is Some {
        Some((Level::Warn, strip(s, "WARN"@).unwrap()))
    } else if strip(s, "INFO"@) is Some {
        Some((Level::Info, strip(s, "INFO"@).unwrap()))
    } else if strip(s, "DEBUG"@) is Some {
        Some((Level::Debug, strip(s, "DEBUG"@).unwrap()))
    } else {
        None
    }
}

/// The color whose name `s` begins with, and what follows the name.
#[verifier::opaque]
pub open spec fn read_color(s: Seq<char>) -> Option<(LogColor, Seq<char>)> {
    if strip(s, "Normal"@) is Some {
        Some((LogColor::Normal, strip(s, "Normal"@).unwrap()))
    } else if strip(s, "Green"@) is Some {
        Some((LogColor::Green, strip(s, "Green"@).unwrap()))
    } else if strip(s, "Blue"@) is Some {
        Some((LogColor::Blue, strip(s, "Blue"@).unwrap()))
    } else if strip(s, "Magenta"@) is Some {
        Some((LogColor::Magenta, strip(s, "Magenta"@).unwrap()))
    } else if strip(s, "Cyan"@) is Some {
        Some((LogColor::Cyan, strip(s, "Cyan"@).unwrap()))
    } else if strip(s, "Yellow"@) is Some {
        Some((LogColor::Yellow, strip(s, "Yellow"@).unwrap()))
    } else if strip(s, "Red"@) is Some {
        Some((LogColor::Red, strip(s, "Red"@).unwrap()))
    } else {
        None
    }
}

/// The line that a JSON text stands for, where the text is written as the
/// JSON rendering writes a line: the four keys in their order, no space
/// between the parts, and a line feed at the end.
pub open spec fn parse_json_text(s: Seq<char>) -> Option<LogLineView> {
    match strip(s, "{\"level\":\""@) {
        Some(s1) => match read_level(s1) {
            Some((level, s2)) => match strip(s2, "\",\"color\":\""@) {
                Some(s3) => match read_color(s3) {
                    Some((color, s4)) => match strip(s4, "\",\"component\":"@) {
                        Some(s5) => match read_string(s5) {
                            Some((component, s6)) => match strip(s6, ",\"message\":"@) {
                                Some(s7) => match read_string(s7) {
                                    Some((message, s8)) => if s8 == "}\n"@ {
                                        Some(LogLineView { level, color, component, message })
                                    } else {
                                        None
                                    },
                                    None => None,
                                },
                                None => None,
                            },
                            None => None,
                        },
                        None => None,
                    },
                    None => None,
                },
                None => None,
            },
            None => None,
        },
        None => None,
    }
}

/// A text that begins with a prefix loses exactly the prefix when the
/// prefix is stripped.
pub proof fn lemma_strip_prefix(prefix: Seq<char>, rest: Seq<char>)
    ensures
        strip(prefix + rest, prefix) == Some(rest),
{
    assert((prefix + rest).subrange(0, prefix.len() as int) =~= prefix);
    assert((prefix + rest).skip(prefix.len() as int) =~= rest);
}

/// The escape of a character is read back as the character.
pub proof fn lemma_read_char_of_escape(c: char, rest: Seq<char>)
    ensures
        read_char(escape_char(c) + rest) == Some((c, escape_char(c).len() as int)),
        (escape_char(c) + rest)[0] != '"',
{
    let s = escape_char(c) + rest;
    let n = c as int;
    if c == '"' || c == '\\' || c == '\u{8}' || c == '\u{c}' || c == '\n' || c == '\r' || c == '\t' {
        assert(s[0] == '\\');
        assert(s[1] == escape_char(c)[1]);
    } else if is_control(c) {
        assert(s[0] == '\\');
        assert(s[1] == 'u');
        assert(s[2] == '0');
        assert(s[3] == '0');
        assert(s[4] == hex_digit(n / 16));
        assert(s[5] == hex_digit(n % 16));
        assert(hex_value(hex_digit(n / 16)) == Some(n / 16));
        assert(hex_value(hex_digit(n % 16)) == Some(n % 16));
        assert((n / 16) * 16 + n % 16 == n);
        assert(n as char == c);
    } else {
        assert(s[0] == c);
    }
}

/// Escaping a text escapes its first character and then the rest.
pub proof fn lemma_escape_text_first(c: char, t: Seq<char>)
    ensures
        escape_text(seq![c] + t) == escape_char(c) + escape_text(t),
    decreases t.len(),
{
    let s = seq![c] + t;
    if t.len() == 0 {
        assert(s.len() == 1);
        assert(s.last() == c);
        assert(s.drop_last().len() == 0);
        assert(escape_text(s.drop_last()) =~= Seq::<char>::empty());
        assert(escape_text(s) =~= escape_char(c));
        assert(escape_char(c) + escape_text(t) =~= escape_char(c));
    } else {
        assert(s.drop_last() =~= seq![c] + t.drop_last());
        lemma_escape_text_first(c, t.drop_last());
        assert(s.last() == t.last());
        assert(escape_text(s) =~= escape_char(c) + escape_text(t));
    }
}

/// An escaped text and a quotation mark are read back as the text, and
/// what follows the quotation mark is left.
pub proof fn lemma_read_body_of_escape(t: Seq<char>, rest: Seq<char>)
    ensures
        read_body(escape_text(t).push('"') + rest) == Some((t, rest)),
    decreases t.len(),
{
    let s = escape_text(t).push('"') + rest;
    if t.len() == 0 {
        assert(s[0] == '"');
        assert(s.skip(1) =~= rest);
    } else {
        let c = t[0];
        let tail = t.skip(1);
        assert(t =~= seq![c] + tail);
        lemma_escape_text_first(c, tail);
        let after = escape_text(tail).push('"') + rest;
        assert(s =~= escape_char(c) + after);
        lemma_read_char_of_escape(c, after);
        let n = escape_char(c).len() as int;
        assert(s.skip(n) =~= after);
        lemma_read_body_of_escape(tail, rest);
        assert(seq![c] + tail =~= t);
    }
}

/// A JSON string is read back as its text.
pub proof fn lemma_read_string_of_json_string(t: Seq<char>, rest: Seq<char>)
    ensures
        read_string(json_string(t) + rest) == Some((t, rest)),
{
    let s = json_string(t) + rest;
    assert(s[0] == '"');
    assert(s.skip(1) =~= escape_text(t).push('"') + rest);
    lemma_read_body_of_escape(t, rest);
}

/// The name of a level is read back as the level.
pub proof fn lemma_read_level_of_name(level: Level, rest: Seq<char>)
    ensures
        read_level(level.name() + rest) == Some((level, rest)),
{
    reveal(read_level);
    reveal_strlit("ERROR");
    reveal_strlit("WARN");
    reveal_strlit("INFO");
    reveal_strlit("DEBUG");
    let s = level.name() + rest;
    lemma_strip_prefix(level.name(), rest);
    assert(s[0] == level.name()[0]);
    assert("ERROR"@.is_prefix_of(s) ==> s[0] == "ERROR"@[0]);
    assert("WARN"@.is_prefix_of(s) ==> s[0] == "WARN"@[0]);
    assert("INFO"@.is_prefix_of(s) ==> s[0] == "INFO"@[0]);
    assert("DEBUG"@.is_prefix_of(s) ==> s[0] == "DEBUG"@[0]);
}

/// The name of a color is read back as the color.
pub proof fn lemma_read_color_of_name(color: LogColor, rest: Seq<char>)
    ensures
        read_color(color.name() + rest) == Some((color, rest)),
{
    reveal(read_color);
    reveal_strlit("Normal");
    reveal_strlit("Green");
    reveal_strlit("Blue");
    reveal_strlit("Magenta");
    reveal_strlit("Cyan");
    reveal_strlit("Yellow");
    reveal_strlit("Red");
    let s = color.name() + rest;
    lemma_strip_prefix(color.name(), rest);
    assert(s[0] == color.name()[0]);
    assert("Normal"@.is_prefix_of(s) ==> s[0] == "Normal"@[0]);
    assert("Green"@.is_prefix_of(s) ==> s[0] == "Green"@[0]);
    assert("Blue"@.is_prefix_of(s) ==> s[0] == "Blue"@[0]);
    assert("Magenta"@.is_prefix_of(s) ==> s[0] == "Magenta"@[0]);
    assert("Cyan"@.is_prefix_of(s) ==> s[0] == "Cyan"@[0]);
    assert("Yellow"@.is_prefix_of(s) ==> s[0] == "Yellow"@[0]);
    assert("Red"@.is_prefix_of(s) ==> s[0] == "Red"@[0]);
}

/// The parts of the JSON rendering of a line, each followed by all that
/// comes after it: the rendering is the first of them.
spec fn json_tails(line: LogLineView) -> Seq<Seq<char>> {
    let s8 = "}\n"@;
    let s7 = json_string(line.message) + s8;
    let s6 = ",\"message\":"@ + s7;
    let s5 = json_string(line.component) + s6;
    let s4 = "\",\"component\":"@ + s5;
    let s3 = line.color.name() + s4;
    let s2 = "\",\"color\":\""@ + s3;
    let s1 = line.level.name() + s2;
    let s0 = "{\"level\":\""@ + s1;
    seq![s0, s1, s2, s3, s4, s5, s6, s7, s8]
}

proof fn lemma_json_text_by_tails(line: LogLineView)
    ensures
        json_text(line) == json_tails(line)[0],
{
    let r = json_tails(line);
    let p1 = "{\"level\":\""@;
    let p2 = p1 + line.level.name();
    let p3 = p2 + "\",\"color\":\""@;
    let p4 = p3 + line.color.name();
    let p5 = p4 + "\",\"component\":"@;
    let p6 = p5 + json_string(line.component);
    let p7 = p6 + ",\"message\":"@;
    let p8 = p7 + json_string(line.message);
    assert(json_text(line) == p8 + r[8]);
    assert(p8 + r[8] =~= p7 + r[7]);
    assert(p7 + r[7] =~= p6 + r[6]);
    assert(p6 + r[6] =~= p5 + r[5]);
    assert(p5 + r[5] =~= p4 + r[4]);
    assert(p4 + r[4] =~= p3 + r[3]);
    assert(p3 + r[3] =~= p2 + r[2]);
    assert(p2 + r[2] =~= p1 + r[1]);
}

proof fn lemma_parse_by_tails(line: LogLineView)
    ensures
        parse_json_text(json_tails(line)[0]) == Some(line),
{
    let r = json_tails(line);
    lemma_strip_prefix("{\"level\":\""@, r[1]);
    lemma_read_level_of_name(line.level, r[2]);
    lemma_strip_prefix("\",\"color\":\""@, r[3]);
    lemma_read_color_of_name(line.color, r[4]);
    lemma_strip_prefix("\",\"component\":"@, r[5]);
    lemma_read_string_of_json_string(line.component, r[6]);
    lemma_strip_prefix(",\"message\":"@, r[7]);
    lemma_read_string_of_json_string(line.message, r[8]);
}

/// Reading the JSON rendering of a line gives the line back, so rendering
/// what was read gives the same text again.
pub proof fn lemma_json_round_trip(line: LogLineView)
    ensures
        parse_json_text(json_text(line)) == Some(line),
        json_text(parse_json_text(json_text(line)).unwrap()) == json_text(line),
{
    lemma_json_text_by_tails(line);
    lemma_parse_by_tails(line);
}

/// Two lines with the same JSON rendering are the same line.
pub proof fn lemma_json_text_is_injective(a: LogLineView, b: LogLineView)
    requires
        json_text(a) == json_text(b),
    ensures
        a == b,
{
    lemma_json_round_trip(a);
    lemma_json_round_trip(b);
}

/// What is stripped of a prefix began with the prefix.
pub proof fn lemma_strip_gives_prefix(s: Seq<char>, prefix: Seq<char>)
    requires
        strip(s, prefix) is Some,
    ensures
        s == prefix + strip(s, prefix).unwrap(),
{
    assert(s =~= s.subrange(0, prefix.len() as int) + s.skip(prefix.len() as int));
}

/// A character is read only from its escape.
pub proof fn lemma_read_char_is_exact(s: Seq<char>)
    requires
        read_char(s) is Some,
    ensures
        ({
            let (c, n) = read_char(s).unwrap();
            1 <= n <= s.len() && s.take(n) == escape_char(c)
        }),
{
    let (c, n) = read_char(s).unwrap();
    if s[0] == '\\' && s[1] == 'u' {
        let h = hex_value(s[4]).unwrap();
        let l = hex_value(s[5]).unwrap();
        let code = h * 16 + l;
        assert(c as int == code);
        assert(code / 16 == h && code % 16 == l);
        assert(hex_digit(h) == s[4]);
        assert(hex_digit(l) == s[5]);
        assert(is_control(c));
    }
    assert(s.take(n) =~= escape_char(c));
}

/// A string's text is read only from its escaped form and a closing
/// quotation mark.
pub proof fn lemma_read_body_is_exact(s: Seq<char>)
    requires
        read_body(s) is Some,
    ensures
        s == escape_text(read_body(s).unwrap().0).push('"') + read_body(s).unwrap().1,
    decreases s.len(),
{
    let (text, rest) = read_body(s).unwrap();
    if s[0] == '"' {
        assert(escape_text(text) =~= Seq::<char>::empty());
        assert(s =~= Seq::<char>::empty().push('"') + s.skip(1));
    } else {
        let (c, n) = read_char(s).unwrap();
        lemma_read_char_is_exact(s);
        lemma_read_body_is_exact(s.skip(n));
        let tail = read_body(s.skip(n)).unwrap().0;
        assert(text == seq![c] + tail);
        lemma_escape_text_first(c, tail);
        assert(s =~= s.take(n) + s.skip(n));
        assert(s =~= escape_text(text).push('"') + rest);
    }
}

/// A string is read only from its JSON form.
pub proof fn lemma_read_string_is_exact(s: Seq<char>)
    requires
        read_string(s) is Some,
    ensures
        s == json_string(read_string(s).unwrap().0) + read_string(s).unwrap().1,
{
    lemma_read_body_is_exact(s.skip(1));
    let (text, rest) = read_string(s).unwrap();
    assert(s =~= seq![s[0]] + s.skip(1));
    assert(s =~= json_string(text) + rest);
}

/// A level is read only from its name.
pub proof fn lemma_read_level_is_exact(s: Seq<char>)
    requires
        read_level(s) is Some,
    ensures
        s == read_level(s).unwrap().0.name() + read_level(s).unwrap().1,
{
    reveal(read_level);
    lemma_strip_gives_prefix(s, read_level(s).unwrap().0.name());
}

/// A color is read only from its name.
pub proof fn lemma_read_color_is_exact(s: Seq<char>)
    requires
        read_color(s) is Some,
    ensures
        s == read_color(s).unwrap().0.name() + read_color(s).unwrap().1,
{
    reveal(read_color);
    lemma_strip_gives_prefix(s, read_color(s).unwrap().0.name());
}

/// A text is read as a line only where it is the JSON rendering of that
/// line: with the round trip, a text stands for a line exactly when it is
/// the line's rendering.
pub proof fn lemma_parse_json_text_is_exact(s: Seq<char>)
    requires
        parse_json_text(s) is Some,
    ensures
        json_text(parse_json_text(s).unwrap()) == s,
{
    let line = parse_json_text(s).unwrap();
    let o1 = strip(s, "{\"level\":\""@);
    assert(o1 is Some);
    let s1 = o1.unwrap();
    let o2 = read_level(s1);
    assert(o2 is Some);
    let s2 = o2.unwrap().1;
    let o3 = strip(s2, "\",\"color\":\""@);
    assert(o3 is Some);
    let s3 = o3.unwrap();
    let o4 = read_color(s3);
    assert(o4 is Some);
    let s4 = o4.unwrap().1;
    let o5 = strip(s4, "\",\"component\":"@);
    assert(o5 is Some);
    let s5 = o5.unwrap();
    let o6 = read_string(s5);
    assert(o6 is Some);
    let s6 = o6.unwrap().1;
    let o7 = strip(s6, ",\"message\":"@);
    assert(o7 is Some);
    let s7 = o7.unwrap();
    let o8 = read_string(s7);
    assert(o8 is Some);
    let s8 = o8.unwrap().1;
    assert(s8 == "}\n"@);
    assert(line == (LogLineView {
        level: o2.unwrap().0,
        color: o4.unwrap().0,
        component: o6.unwrap().0,
        message: o8.unwrap().0,
    }));
    lemma_strip_gives_prefix(s, "{\"level\":\""@);
    lemma_read_level_is_exact(s1);
    lemma_strip_gives_prefix(s2, "\",\"color\":\""@);
    lemma_read_color_is_exact(s3);
    lemma_strip_gives_prefix(s4, "\",\"component\":"@);
    lemma_read_string_is_exact(s5);
    lemma_strip_gives_prefix(s6, ",\"message\":"@);
    lemma_read_string_is_exact(s7);
    lemma_tails_join(line, seq![s, s1, s2, s3, s4, s5, s6, s7, s8]);
    lemma_json_text_by_tails(line);
}

/// Texts that are built as the tails of a line's rendering are those tails.
proof fn lemma_tails_join(line: LogLineView, t: Seq<Seq<char>>)
    requires
        t.len() == 9,
        t[8] == "}\n"@,
        t[7] == json_string(line.message) + t[8],
        t[6] == ",\"message\":"@ + t[7],
        t[5] == json_string(line.component) + t[6],
        t[4] == "\",\"component\":"@ + t[5],
        t[3] == line.color.name() + t[4],
        t[2] == "\",\"color\":\""@ + t[3],
        t[1] == line.level.name() + t[2],
        t[0] == "{\"level\":\""@ + t[1],
    ensures
        t[0] == json_tails(line)[0],
{
}

/// What was read before, put in front of what is read from here on.
spec fn prepend(head: Seq<char>, tail: Option<(Seq<char>, Seq<char>)>) -> Option<
    (Seq<char>, Seq<char>),
> {
    match tail {
        Some((text, rest)) => Some((head + text, rest)),
        None => None,
    }
}

/// Reads `prefix` at a place in the text and returns the place behind it.
fn strip_at(chars: &Vec<char>, at: usize, prefix: &str) -> (r: Option<usize>)
    requires
        at <= chars.len(),
    ensures
        match r {
            Some(next) => next == at + prefix@.len() && next <= chars.len() && strip(
                chars@.skip(at as int),
                prefix@,
            ) == Some(chars@.skip(next as int)),
            None => strip(chars@.skip(at as int), prefix@) is None,
        },
{
    let ghost s = chars@.skip(at as int);
    let mut next = at;
    let mut matches = true;
    for c in it: prefix.chars()
        invariant
            it.seq() == prefix@,
            s == chars@.skip(at as int),
            at <= next <= chars.len(),
            matches ==> next == at + it.index() && s.take(it.index() as int) == prefix@.take(
                it.index() as int,
            ),
            !matches ==> !prefix@.is_prefix_of(s),
    {
        let ghost k = it.index() as int;
        if matches {
            if next < chars.len() && chars[next] == c {
                assert(s[k] == chars@[next as int]);
                assert(s.take(k + 1) =~= s.take(k).push(s[k]));
                assert(prefix@.take(k + 1) =~= prefix@.take(k).push(c));
                next += 1;
            } else {
                matches = false;
                proof {
                    if prefix@.is_prefix_of(s) {
                        assert(s.subrange(0, prefix@.len() as int)[k] == prefix@[k]);
                    }
                }
            }
        }
    }
    if matches {
        assert(prefix@.take(prefix@.len() as int) =~= prefix@);
        assert(s.take(prefix@.len() as int) =~= s.subrange(0, prefix@.len() as int));
        assert(s.skip(prefix@.len() as int) =~= chars@.skip(next as int));
        Some(next)
    } else {
        None
    }
}

/// The number that a lower-case hexadecimal digit stands for.
fn hex_digit_value(c: char) -> (r: Option<u8>)
    ensures
        match r {
            Some(n) => hex_value(c) == Some(n as int),
            None => hex_value(c) is None,
        },
{
    if '0' <= c && c <= '9' {
        Some((c as u8) - 48)
    } else if 'a' <= c && c <= 'f' {
        Some((c as u8) - 87)
    } else {
        None
    }
}

/// Reads one character of a JSON string at a place in the text and returns
/// it with the number of characters that write it.
fn read_char_at(chars: &Vec<char>, at: usize) -> (r: Option<(char, usize)>)
    requires
        at < chars.len(),
    ensures
        match r {
            Some((c, n)) => 1 <= n && at + n <= chars.len() && read_char(chars@.skip(at as int))
                == Some((c, n as int)),
            None => read_char(chars@.skip(at as int)) is None,
        },
{
    let ghost s = chars@.skip(at as int);
    let first = chars[at];
    assert(s[0] == first);
    if first == '\\' {
        if chars.len() - at < 2 {
            return None;
        }
        let second = chars[at + 1];
        assert(s[1] == second);
        if second == '"' {
            Some(('"', 2))
        } else if second == '\\' {
            Some(('\\', 2))
        } else if second == 'b' {
            Some(('\u{8}', 2))
        } else if second == 'f' {
            Some(('\u{c}', 2))
        } else if second == 'n' {
            Some(('\n', 2))
        } else if second == 'r' {
            Some(('\r', 2))
        } else if second == 't' {
            Some(('\t', 2))
        } else if second == 'u' && chars.len() - at >= 6 && chars[at + 2] == '0' && chars[at + 3]
            == '0' {
            assert(s[2] == chars@[at + 2]);
            assert(s[3] == chars@[at + 3]);
            assert(s[4] == chars@[at + 4]);
            assert(s[5] == chars@[at + 5]);
            match (hex_digit_value(chars[at + 4]), hex_digit_value(chars[at + 5])) {
                (Some(high), Some(low)) => {
                    if high < 2 {
                        let n: u8 = high * 16 + low;
                        if n != 8 && n != 9 && n != 10 && n != 12 && n != 13 {
                            Some((n as char, 6))
                        } else {
                            None
                        }
                    } else {
                        None
                    }
                },
                _ => None,
            }
        } else {
            if second == 'u' && chars.len() - at >= 6 {
                assert(s[2] == chars@[at + 2]);
                assert(s[3] == chars@[at + 3]);
            }
            None
        }
    } else if first == '"' || first <= '\u{1f}' {
        None
    } else {
        Some((first, 1))
    }
}

/// Reads a JSON string at a place in the text and returns its text with
/// the place behind its closing quotation mark.
fn read_string_at(chars: &Vec<char>, at: usize) -> (r: Option<(String, usize)>)
    requires
        at <= chars.len(),
    ensures
        match r {
            Some((text, next)) => next <= chars.len() && read_string(chars@.skip(at as int))
                == Some((text@, chars@.skip(next as int))),
            None => read_string(chars@.skip(at as int)) is None,
        },
{
    if at >= chars.len() || chars[at] != '"' {
        return None;
    }
    assert(chars@.skip(at as int)[0] == chars@[at as int]);
    assert(chars@.skip(at as int).skip(1) =~= chars@.skip(at + 1));
    let ghost whole = read_body(chars@.skip(at + 1));
    assert(read_string(chars@.skip(at as int)) == whole);
    let mut i: usize = at + 1;
    let mut out = String::new();
    assert(prepend(out@, whole) == whole) by {
        if let Some((text, rest)) = whole {
            assert(out@ + text =~= text);
        }
    }
    loop
        invariant
            at < i <= chars.len(),
            read_string(chars@.skip(at as int)) == whole,
            whole == prepend(out@, read_body(chars@.skip(i as int))),
        decreases chars.len() - i,
    {
        let ghost s = chars@.skip(i as int);
        if i >= chars.len() {
            return None;
        }
        assert(s[0] == chars@[i as int]);
        if chars[i] == '"' {
            assert(s.skip(1) =~= chars@.skip(i + 1));
            assert(out@ + Seq::<char>::empty() =~= out@);
            return Some((out, i + 1));
        }
        match read_char_at(chars, i) {
            Some((c, n)) => {
                let ghost before = out@;
                assert(s.skip(n as int) =~= chars@.skip(i + n));
                assert(prepend(before, read_body(s)) == prepend(
                    before.push(c),
                    read_body(chars@.skip(i + n)),
                )) by {
                    if let Some((text, rest)) = read_body(chars@.skip(i + n)) {
                        assert(before + (seq![c] + text) =~= before.push(c) + text);
                    }
                }
                out.push(c);
                i += n;
            },
            None => {
                return None;
            },
        }
    }
}

/// Reads the name of a level at a place in the text.
fn read_level_at(chars: &Vec<char>, at: usize) -> (r: Option<(Level, usize)>)
    requires
        at <= chars.len(),
    ensures
        match r {
            Some((level, next)) => next <= chars.len() && read_level(chars@.skip(at as int))
                == Some((level, chars@.skip(next as int))),
            None => read_level(chars@.skip(at as int)) is None,
        },
{
    proof {
        reveal(read_level);
    }
    if let Some(next) = strip_at(chars, at, "ERROR") {
        Some((Level::Error, next))
    } else if let Some(next) = strip_at(chars, at, "WARN") {
        Some((Level::Warn, next))
    } else if let Some(next) = strip_at(chars, at, "INFO") {
        Some((Level::Info, next))
    } else if let Some(next) = strip_at(chars, at, "DEBUG") {
        Some((Level::Debug, next))
    } else {
        None
    }
}

/// Reads the name of a color at a place in the text.
fn read_color_at(chars: &Vec<char>, at: usize) -> (r: Option<(LogColor, usize)>)
    requires
        at <= chars.len(),
    ensures
        match r {
            Some((color, next)) => next <= chars.len() && read_color(chars@.skip(at as int))
                == Some((color, chars@.skip(next as int))),
            None => read_color(chars@.skip(at as int)) is None,
        },
{
    proof {
        reveal(read_color);
    }
    if let Some(next) = strip_at(chars, at, "Normal") {
        Some((LogColor::Normal, next))
    } else if let Some(next) = strip_at(chars, at, "Green") {
        Some((LogColor::Green, next))
    } else if let Some(next) = strip_at(chars, at, "Blue") {
        Some((LogColor::Blue, next))
    } else if let Some(next) = strip_at(chars, at, "Magenta") {
        Some((LogColor::Magenta, next))
    } else if let Some(next) = strip_at(chars, at, "Cyan") {
        Some((LogColor::Cyan, next))
    } else if let Some(next) = strip_at(chars, at, "Yellow") {
        Some((LogColor::Yellow, next))
    } else if let Some(next) = strip_at(chars, at, "Red") {
        Some((LogColor::Red, next))
    } else {
        None
    }
}

impl LogLine {
    /// Reads a line from its JSON rendering. A text that is not written as
    /// the rendering writes a line gives `None`.
    pub fn from_json(text: &str) -> (r: Option<LogLine>)
        ensures
            match r {
                Some(line) => parse_json_text(text@) == Some(line@),
                None => parse_json_text(text@) is None,
            },
    {
        let chars = chars_of(text);
        assert(chars@.skip(0) =~= chars@);
        let Some(i1) = strip_at(&chars, 0, "{\"level\":\"") else {
            return None;
        };
        let Some((level, i2)) = read_level_at(&chars, i1) else {
            return None;
        };
        let Some(i3) = strip_at(&chars, i2, "\",\"color\":\"") else {
            return None;
        };
        let Some((color, i4)) = read_color_at(&chars, i3) else {
            return None;
        };
        let Some(i5) = strip_at(&chars, i4, "\",\"component\":") else {
            return None;
        };
        let Some((component, i6)) = read_string_at(&chars, i5) else {
            return None;
        };
        let Some(i7) = strip_at(&chars, i6, ",\"message\":") else {
            return None;
        };
        let Some((message, i8)) = read_string_at(&chars, i7) else {
            return None;
        };
        let ghost tail = chars@.skip(i8 as int);
        match strip_at(&chars, i8, "}\n") {
            Some(end) => {
                if end == chars.len() {
                    assert(tail =~= "}\n"@);
                    Some(LogLine { level, color, component, message })
                } else {
                    None
                }
            },
            None => {
                proof {
                    if tail == "}\n"@ {
                        assert(tail.subrange(0, tail.len() as int) =~= tail);
                    }
                }
                None
            },
        }
    }
}

} // verus!
