//! Answering requests.

pub mod answer_laws;
pub mod finish;
pub mod intake_laws;
pub mod reply;
pub mod status;
pub mod upload;
pub mod upload_laws;

use crate::text::{chars_of, trim, trimmed};
use vstd::prelude::*;
#[allow(unused_imports)]
use vstd::string::*;
use vstd::utf8::encode_utf8;

verus! {

/// Answers that the server is up.
pub fn health_check() -> (r: &'static str)
    ensures
        r@ == "Whisper HTTP Server is running"@,
{
    "Whisper HTTP Server is running"
}

/// The longest file name, in bytes.
pub const MAX_FILENAME_LEN: usize = 128;

/// A character that a file name may hold.
pub open spec fn filename_char(c: char) -> bool {
    ||| 'a' <= c <= 'z'
    ||| 'A' <= c <= 'Z'
    ||| '0' <= c <= '9'
    ||| c == '.'
    ||| c == '_'
    ||| c == '-'
}

/// What is wrong with a file name that has no white space around it.
pub open spec fn filename_problem(name: Seq<char>) -> Option<Seq<char>> {
    if name.len() == 0 {
        Some("filename must not be empty"@)
    } else if encode_utf8(name).len() > MAX_FILENAME_LEN {
        Some("filename is too long (max 128 characters)"@)
    } else if name == seq!['.'] || name == seq!['.', '.'] {
        Some("filename is invalid"@)
    } else if exists|i: int| 0 <= i < name.len() && !filename_char(#[trigger] name[i]) {
        Some("filename contains invalid characters"@)
    } else {
        None
    }
}

/// Checks a file name, and takes off the white space around it.
///
/// A name that passes is a single path component: it holds no separator and is not one of the
/// two special directories.
pub fn validate_filename(filename: &str) -> (r: Result<String, String>)
    ensures
        match r {
            Ok(name) => {
                &&& filename_problem(trimmed(filename@)) is None
                &&& name@ == trimmed(filename@)
            },
            Err(e) => filename_problem(trimmed(filename@)) == Some(e@),
        },
{
    let name = trim(filename);
    if name.is_empty() {
        return Err("filename must not be empty".to_string());
    }
    if name.as_bytes().len() > MAX_FILENAME_LEN {
        return Err("filename is too long (max 128 characters)".to_string());
    }
    let chars = chars_of(name);
    assert(name@ == seq!['.'] <==> name@.len() == 1 && name@[0] == '.') by {
        if name@.len() == 1 && name@[0] == '.' {
            assert(name@ =~= seq!['.']);
        }
    }
    assert(name@ == seq!['.', '.'] <==> name@.len() == 2 && name@[0] == '.' && name@[1] == '.') by {
        if name@.len() == 2 && name@[0] == '.' && name@[1] == '.' {
            assert(name@ =~= seq!['.', '.']);
        }
    }
    if (chars.len() == 1 && chars[0] == '.') || (chars.len() == 2 && chars[0] == '.' && chars[1]
        == '.') {
        return Err("filename is invalid".to_string());
    }
    let mut i: usize = 0;
    while i < chars.len()
        invariant
            i <= chars.len(),
            chars@ == name@,
            name@ == trimmed(filename@),
            name@.len() > 0,
            encode_utf8(name@).len() <= MAX_FILENAME_LEN,
            name@ != seq!['.'],
            name@ != seq!['.', '.'],
            forall|j: int| 0 <= j < i ==> filename_char(#[trigger] name@[j]),
        decreases chars.len() - i,
    {
        let c = chars[i];
        if !(('a' <= c && c <= 'z') || ('A' <= c && c <= 'Z') || ('0' <= c && c <= '9') || c == '.'
            || c == '_' || c == '-') {
            assert(!filename_char(name@[i as int]));
            return Err("filename contains invalid characters".to_string());
        }
        i = i + 1;
    }
    Ok(name.to_string())
}

/// A file name that passes holds no path separator.
pub proof fn law_valid_filename_has_no_separator(filename: Seq<char>)
    requires
        filename_problem(trimmed(filename)) is None,
    ensures
        !trimmed(filename).contains('/'),
        !trimmed(filename).contains('\\'),
        trimmed(filename) != seq!['.'],
        trimmed(filename) != seq!['.', '.'],
{
    let name = trimmed(filename);
    assert forall|i: int| 0 <= i < name.len() implies #[trigger] name[i] != '/' && name[i]
        != '\\' by {
        assert(filename_char(name[i]));
    }
}

} // verus!
