use vstd::prelude::*;

verus! {

/// The lower-case hexadecimal digit of a number below 16.
pub open spec fn hex_digit(n: int) -> char {
    if n < 10 {
        ((n + 48) as u8) as char
    } else {
        ((n + 87) as u8) as char
    }
}

/// How one character stands inside a JSON string: the quotation mark, the
/// backslash and the control characters below U+0020 are escaped, every
/// other character stands for itself.
pub open spec fn escape_char(c: char) -> Seq<char> {
    if c == '"' {
        seq!['\\', '"']
    } else if c == '\\' {
        seq!['\\', '\\']
    } else if c == '\u{8}' {
        seq!['\\', 'b']
    } else if c == '\u{c}' {
        seq!['\\', 'f']
    } else if c == '\n' {
        seq!['\\', 'n']
    } else if c == '\r' {
        seq!['\\', 'r']
    } else if c == '\t' {
        seq!['\\', 't']
    } else if is_control(c) {
        seq!['\\', 'u', '0', '0', hex_digit((c as int) / 16), hex_digit((c as int) % 16)]
    } else {
        seq![c]
    }
}

/// The characters of `s`, each escaped for a JSON string.
pub open spec fn escape_text(s: Seq<char>) -> Seq<char>
    decreases s.len(),
{
    if s.len() == 0 {
        Seq::<char>::empty()
    } else {
        escape_text(s.drop_last()) + escape_char(s.last())
    }
}

/// `s` as a JSON string: escaped, between quotation marks.
pub open spec fn json_string(s: Seq<char>) -> Seq<char> {
    (seq!['"'] + escape_text(s)).push('"')
}

/// A character below U+0020, among them the line feed.
pub open spec fn is_control(c: char) -> bool {
    (c as int) < 0x20
}

/// The escape of a character holds no control character.
pub proof fn lemma_escape_char_is_printable(c: char)
    ensures
        1 <= escape_char(c).len() <= 6,
        forall|j: int| 0 <= j < escape_char(c).len() ==> !is_control(#[trigger] escape_char(c)[j]),
{
    let n = c as int;
    if n < 0x20 {
        assert(!is_control(hex_digit(n / 16)));
        assert(!is_control(hex_digit(n % 16)));
    }
}

/// An escaped text holds no control character, so no line feed.
pub proof fn lemma_escape_text_is_one_line(s: Seq<char>)
    ensures
        forall|i: int| 0 <= i < escape_text(s).len() ==> !is_control(#[trigger] escape_text(s)[i]),
    decreases s.len(),
{
    if s.len() != 0 {
        let before = escape_text(s.drop_last());
        let tail = escape_char(s.last());
        lemma_escape_text_is_one_line(s.drop_last());
        lemma_escape_char_is_printable(s.last());
        assert forall|i: int| 0 <= i < escape_text(s).len() implies !is_control(
            #[trigger] escape_text(s)[i],
        ) by {
            if i >= before.len() {
                assert(escape_text(s)[i] == tail[i - before.len()]);
            } else {
                assert(escape_text(s)[i] == before[i]);
            }
        }
    }
}

/// A JSON string holds no line feed.
pub proof fn lemma_json_string_is_one_line(s: Seq<char>)
    ensures
        json_string(s).len() >= 2,
        forall|i: int| 0 <= i < json_string(s).len() ==> #[trigger] json_string(s)[i] != '\n',
{
    lemma_escape_text_is_one_line(s);
    let e = escape_text(s);
    assert forall|i: int| 0 <= i < json_string(s).len() implies #[trigger] json_string(s)[i]
        != '\n' by {
        if 1 <= i <= e.len() {
            assert(json_string(s)[i] == e[i - 1]);
            assert(!is_control(e[i - 1]));
        }
    }
}

/// `serde_json::to_string` for a string slice. It writes a quotation mark,
/// then the slice with `"` and `\` behind a backslash, backspace, form feed,
/// line feed, carriage return and tab as `\b`, `\f`, `\n`, `\r`, `\t`, every
/// other character below U+0020 as `\u00` and two lower-case hexadecimal
/// digits, all else unchanged, and a closing quotation mark. The only
/// errors it passes on are those of its writer, and it writes into a byte
/// vector, which has none: the call returns `Ok` for every slice.
#[verifier::external_body]
pub(crate) fn to_json_string(s: &str) -> (r: String)
    ensures
        r@ == json_string(s@),
{
    serde_json::to_string(s).expect("Error serializing log event to string")
}

} // verus!
