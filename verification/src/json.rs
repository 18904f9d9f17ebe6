//! JSON texts of objects whose members are strings.

use vstd::prelude::*;
#[allow(unused_imports)]
use vstd::string::*;

verus! {

/// The hexadecimal digit for a number below sixteen.
pub open spec fn hex_digit(d: int) -> char {
    if d < 10 {
        ('0' as u32 + d) as char
    } else {
        ('a' as u32 + (d - 10)) as char
    }
}

/// How a character is written inside a JSON string.
pub open spec fn escaped_char(c: char) -> Seq<char> {
    if c == '"' {
        seq!['\\', '"']
    } else if c == '\\' {
        seq!['\\', '\\']
    } else if c == '\n' {
        seq!['\\', 'n']
    } else if c == '\r' {
        seq!['\\', 'r']
    } else if c == '\t' {
        seq!['\\', 't']
    } else if c as u32 == 0x08 {
        seq!['\\', 'b']
    } else if c as u32 == 0x0C {
        seq!['\\', 'f']
    } else if (c as u32) < 0x20 {
        seq!['\\', 'u', '0', '0', hex_digit(c as int / 16), hex_digit(c as int % 16)]
    } else {
        seq![c]
    }
}

/// The inside of a JSON string.
pub open spec fn escaped(s: Seq<char>) -> Seq<char>
    decreases s.len(),
{
    if s.len() == 0 {
        seq![]
    } else {
        escaped(s.drop_last()) + escaped_char(s.last())
    }
}

/// A JSON string.
pub open spec fn json_string(s: Seq<char>) -> Seq<char> {
    seq!['"'] + escaped(s) + seq!['"']
}

/// The members of an object, each on a line of its own where there is an indentation.
pub open spec fn members_text(
    members: Seq<(Seq<char>, Seq<char>)>,
    indent: nat,
    spacing: bool,
) -> Seq<char>
    decreases members.len(),
{
    if members.len() == 0 {
        seq![]
    } else {
        let comma: Seq<char> = if members.len() > 1 {
            seq![',']
        } else {
            seq![]
        };
        let gap: Seq<char> = if indent > 0 {
            seq!['\n'] + Seq::new(indent, |i: int| ' ')
        } else if spacing {
            seq![' ']
        } else {
            seq![]
        };
        let colon: Seq<char> = if spacing {
            seq![':', ' ']
        } else {
            seq![':']
        };
        members_text(members.drop_last(), indent, spacing) + comma + gap + json_string(
            members.last().0,
        ) + colon + json_string(members.last().1)
    }
}

/// An object.
pub open spec fn object_text(
    members: Seq<(Seq<char>, Seq<char>)>,
    indent: nat,
    spacing: bool,
) -> Seq<char> {
    let end: Seq<char> = if members.len() == 0 {
        seq![]
    } else if indent > 0 {
        seq!['\n']
    } else if spacing {
        seq![' ']
    } else {
        seq![]
    };
    seq!['{'] + members_text(members, indent, spacing) + end + seq!['}']
}

/// What each member holds.
pub open spec fn member_views(members: Seq<(&str, &str)>) -> Seq<(Seq<char>, Seq<char>)> {
    members.map_values(|member: (&str, &str)| (member.0@, member.1@))
}

/// Writes an object with `nojson::json`, by `JsonFormatter::object` and
/// `JsonObjectFormatter::members`.
///
/// The contract gives the text in full: the braces, the commas, the line breaks that an
/// indentation brings, the spaces that spacing brings, and the escapes inside the strings.
#[verifier::external_body]
pub(crate) fn write_object(members: &Vec<(&str, &str)>, indent: usize, spacing: bool) -> (r: String)
    requires
        indent <= 16,
    ensures
        r@ == object_text(member_views(members@), indent as nat, spacing),
{
    nojson::json(
        |f| {
            f.set_spacing(spacing);
            f.set_indent_size(indent);
            f.object(|f| f.members(members.iter().map(|member| (member.0, member.1))))
        },
    ).to_string()
}

} // verus!
