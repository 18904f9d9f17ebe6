//! What holds of JSON texts.

use crate::json::{escaped, escaped_char, json_string, members_text, object_text};
use vstd::prelude::*;

verus! {

/// Whether this is how a character is written inside a string: a quote, a backslash and the
/// control characters behind a backslash, and every other character as itself.
pub open spec fn is_written_as(c: char, text: Seq<char>) -> bool {
    if c == '"' || c == '\\' {
        text == seq!['\\', c]
    } else if c as u32 == 8 {
        text == seq!['\\', 'b']
    } else if c as u32 == 9 {
        text == seq!['\\', 't']
    } else if c as u32 == 10 {
        text == seq!['\\', 'n']
    } else if c as u32 == 12 {
        text == seq!['\\', 'f']
    } else if c as u32 == 13 {
        text == seq!['\\', 'r']
    } else if (c as u32) < 32 {
        &&& text.len() == 6
        &&& text.take(4) == seq!['\\', 'u', '0', '0']
        &&& text[4] == if (c as u32) < 16 {
            '0'
        } else {
            '1'
        }
        &&& text[5] as u32 == if c as u32 % 16 < 10 {
            48 + c as u32 % 16
        } else {
            87 + c as u32 % 16
        }
    } else {
        text == seq![c]
    }
}

/// A string is written character by character between quotes.
pub proof fn law_strings_are_written_by_character(a: Seq<char>, b: Seq<char>, c: char)
    ensures
        escaped(Seq::empty()) == Seq::<char>::empty(),
        escaped(a + b) == escaped(a) + escaped(b),
        is_written_as(c, escaped(seq![c])),
        json_string(a) == seq!['"'] + escaped(a) + seq!['"'],
    decreases b.len(),
{
    reveal_with_fuel(escaped, 2);
    assert(seq![c].drop_last() =~= Seq::<char>::empty());
    assert(escaped(seq![c]) =~= escaped_char(c));
    if (c as u32) < 32 && escaped_char(c).len() == 6 {
        assert(escaped_char(c).take(4) =~= seq!['\\', 'u', '0', '0']);
    }
    if b.len() == 0 {
        assert(a + b =~= a);
        assert(escaped(a + b) =~= escaped(a) + escaped(b));
    } else {
        law_strings_are_written_by_character(a, b.drop_last(), c);
        assert((a + b).drop_last() =~= a + b.drop_last());
        assert((a + b).last() == b.last());
        assert(escaped(a + b) =~= escaped(a) + escaped(b));
    }
}

/// An object of one member stands on a line of its own with an indentation, and without one it
/// stands between the braces, as does each further member behind a comma.
pub proof fn law_objects_are_written_by_member(
    name: Seq<char>,
    text: Seq<char>,
    more: Seq<char>,
    rest: Seq<char>,
)
    ensures
        object_text(seq![(name, text)], 2, true) == seq!['{', '\n', ' ', ' '] + json_string(name)
            + seq![':', ' '] + json_string(text) + seq!['\n', '}'],
        object_text(seq![(name, text), (more, rest)], 0, false) == seq!['{'] + json_string(name)
            + seq![':'] + json_string(text) + seq![','] + json_string(more) + seq![':']
            + json_string(rest) + seq!['}'],
{
    reveal_with_fuel(members_text, 3);
    let one = seq![(name, text)];
    let two = seq![(name, text), (more, rest)];
    assert(one.drop_last() =~= Seq::empty());
    assert(two.drop_last() =~= one);
    assert(object_text(one, 2, true) =~= seq!['{', '\n', ' ', ' '] + json_string(name) + seq![
        ':',
        ' ',
    ] + json_string(text) + seq!['\n', '}']);
    assert(object_text(two, 0, false) =~= seq!['{'] + json_string(name) + seq![':'] + json_string(
        text,
    ) + seq![','] + json_string(more) + seq![':'] + json_string(rest) + seq!['}']);
}

} // verus!
