//! JSON text of strings and lists of strings, as `serde_json` writes them
//! with its compact formatter.

use vstd::prelude::*;

use crate::text::push_all;

verus! {

/// A lower-case hexadecimal digit of a value below 16.
pub open spec fn hex_digit(n: u32) -> char {
    seq!['0', '1', '2', '3', '4', '5', '6', '7', '8', '9', 'a', 'b', 'c', 'd', 'e', 'f'][n as int]
}

/// How a character stands inside a JSON string: a quote and a backslash are
/// escaped by a backslash, backspace, tab, line feed, form feed and carriage
/// return by their short escapes, other control characters below U+0020 as
/// `\u00` and two lower-case hexadecimal digits; everything else as it is.
pub open spec fn json_escaped(c: char) -> Seq<char> {
    if c == '"' {
        seq!['\\', '"']
    } else if c == '\\' {
        seq!['\\', '\\']
    } else if c == '\u{8}' {
        seq!['\\', 'b']
    } else if c == '\t' {
        seq!['\\', 't']
    } else if c == '\n' {
        seq!['\\', 'n']
    } else if c == '\u{c}' {
        seq!['\\', 'f']
    } else if c == '\r' {
        seq!['\\', 'r']
    } else if (c as u32) < 0x20 {
        seq!['\\', 'u', '0', '0', hex_digit((c as u32) / 16), hex_digit((c as u32) % 16)]
    } else {
        seq![c]
    }
}

/// The characters of a text, each as it stands inside a JSON string.
pub open spec fn json_escaped_text(s: Seq<char>) -> Seq<char>
    decreases s.len(),
{
    if s.len() == 0 {
        Seq::empty()
    } else {
        json_escaped_text(s.drop_last()) + json_escaped(s.last())
    }
}

/// A text as a JSON string: in double quotes, escaped.
pub open spec fn json_string_literal(s: Seq<char>) -> Seq<char> {
    seq!['"'] + json_escaped_text(s) + seq!['"']
}

/// JSON strings joined by commas.
pub open spec fn json_joined(items: Seq<Seq<char>>) -> Seq<char>
    decreases items.len(),
{
    if items.len() == 0 {
        Seq::empty()
    } else if items.len() == 1 {
        json_string_literal(items[0])
    } else {
        json_joined(items.drop_last()) + seq![','] + json_string_literal(items.last())
    }
}

/// A list of texts as a JSON array, without spaces.
pub open spec fn json_string_array(items: Seq<Seq<char>>) -> Seq<char> {
    seq!['['] + json_joined(items) + seq![']']
}

fn hex_char(n: u32) -> (c: char)
    requires
        n < 16,
    ensures
        c == hex_digit(n),
{
    match n {
        0 => '0',
        1 => '1',
        2 => '2',
        3 => '3',
        4 => '4',
        5 => '5',
        6 => '6',
        7 => '7',
        8 => '8',
        9 => '9',
        10 => 'a',
        11 => 'b',
        12 => 'c',
        13 => 'd',
        14 => 'e',
        _ => 'f',
    }
}

fn push_escaped(out: &mut Vec<char>, c: char)
    ensures
        final(out)@ == old(out)@ + json_escaped(c),
{
    let code = c as u32;
    let piece: Vec<char> = if c == '"' {
        vec!['\\', '"']
    } else if c == '\\' {
        vec!['\\', '\\']
    } else if c == '\u{8}' {
        vec!['\\', 'b']
    } else if c == '\t' {
        vec!['\\', 't']
    } else if c == '\n' {
        vec!['\\', 'n']
    } else if c == '\u{c}' {
        vec!['\\', 'f']
    } else if c == '\r' {
        vec!['\\', 'r']
    } else if code < 0x20 {
        vec!['\\', 'u', '0', '0', hex_char(code / 16), hex_char(code % 16)]
    } else {
        vec![c]
    };
    assert(piece@ =~= json_escaped(c));
    push_all(out, piece.as_slice());
}

fn push_json_string(out: &mut Vec<char>, s: &str)
    ensures
        final(out)@ == old(out)@ + json_string_literal(s@),
{
    let chars = crate::text::chars_of(s);
    out.push('"');
    let ghost start = out@;
    let mut i: usize = 0;
    while i < chars.len()
        invariant
            0 <= i <= chars@.len(),
            chars@ == s@,
            out@ == start + json_escaped_text(chars@.subrange(0, i as int)),
        decreases chars.len() - i,
    {
        proof {
            assert(chars@.subrange(0, i + 1).drop_last() =~= chars@.subrange(0, i as int));
        }
        push_escaped(out, chars[i]);
        proof {
            assert(out@ =~= start + json_escaped_text(chars@.subrange(0, i + 1)));
        }
        i = i + 1;
    }
    assert(chars@.subrange(0, chars@.len() as int) =~= s@);
    out.push('"');
    assert(out@ =~= old(out)@ + json_string_literal(s@));
}

/// What `serde_json::to_string` writes for a text.
pub fn json_string(s: &str) -> (r: String)
    ensures
        r@ == json_string_literal(s@),
{
    let mut out: Vec<char> = Vec::new();
    push_json_string(&mut out, s);
    crate::text::string_of(out.as_slice())
}

/// What `serde_json::to_string` writes for a list of texts.
pub fn json_array_of(items: &Vec<String>) -> (r: String)
    ensures
        r@ == json_string_array(items@.map_values(|s: String| s@)),
{
    let ghost views = items@.map_values(|s: String| s@);
    let mut out: Vec<char> = Vec::new();
    out.push('[');
    let mut i: usize = 0;
    while i < items.len()
        invariant
            0 <= i <= items@.len(),
            views == items@.map_values(|s: String| s@),
            out@ == seq!['['] + json_joined(views.subrange(0, i as int)),
        decreases items.len() - i,
    {
        let ghost before = out@;
        proof {
            assert(views.subrange(0, i + 1).drop_last() =~= views.subrange(0, i as int));
            assert(views.subrange(0, i + 1).last() == items@[i as int]@);
        }
        if i > 0 {
            out.push(',');
        }
        push_json_string(&mut out, items[i].as_str());
        proof {
            if i == 0 {
                assert(views.subrange(0, 1)[0] == items@[0]@);
                assert(out@ =~= seq!['['] + json_joined(views.subrange(0, 1)));
            } else {
                assert(out@ =~= seq!['['] + json_joined(views.subrange(0, i + 1)));
            }
        }
        i = i + 1;
    }
    out.push(']');
    assert(views.subrange(0, items@.len() as int) =~= views);
    assert(out@ =~= json_string_array(views));
    crate::text::string_of(out.as_slice())
}

} // verus!
