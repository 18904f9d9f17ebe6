//! What holds of texts, numbers and settings.

use crate::config::{
    max_audio_samples, server_port, vad_model_path, whisper_model_path, SampleLimit,
};
use crate::text::{
    chars_of, decimal_text, is_white_space, parse_decimal, same_text, trim, trim_end, trim_start,
};
#[allow(unused_imports)]
use crate::text::{decimal_digits, decimal_value, is_digit, trimmed, unsigned_part};
use vstd::prelude::*;
#[allow(unused_imports)]
use vstd::string::*;

verus! {

/// Whether a character is white space.
pub open spec fn is_blank(c: char) -> bool {
    let code = c as u32;
    ||| code == 0x20 || 0x09 <= code <= 0x0D
    ||| code == 0x85 || code == 0xA0 || code == 0x1680
    ||| 0x2000 <= code <= 0x200A
    ||| code == 0x2028 || code == 0x2029 || code == 0x202F || code == 0x205F || code == 0x3000
}

/// Whether `t` is `s` without the white space around it.
pub open spec fn is_trimmed(s: Seq<char>, t: Seq<char>) -> bool {
    &&& exists|from: int, to: int|
        0 <= from <= to <= s.len() && t == #[trigger] s.subrange(from, to) && (forall|i: int|
            0 <= i < from || to <= i < s.len() ==> is_blank(#[trigger] s[i]))
    &&& t.len() > 0 ==> !is_blank(t[0]) && !is_blank(t.last())
}

proof fn lemma_trim_start_of(s: Seq<char>) -> (from: int)
    ensures
        0 <= from <= s.len(),
        trim_start(s) == s.skip(from),
        forall|i: int| 0 <= i < from ==> is_white_space(#[trigger] s[i]),
        from < s.len() ==> !is_white_space(s[from]),
    decreases s.len(),
{
    if s.len() > 0 && is_white_space(s[0]) {
        let rest = lemma_trim_start_of(s.drop_first());
        assert(s.drop_first().skip(rest) =~= s.skip(rest + 1));
        assert forall|i: int| 0 <= i < rest + 1 implies is_white_space(#[trigger] s[i]) by {
            if i > 0 {
                assert(s.drop_first()[i - 1] == s[i]);
            }
        }
        rest + 1
    } else {
        assert(s.skip(0) =~= s);
        0
    }
}

proof fn lemma_trim_end_of(s: Seq<char>) -> (to: int)
    ensures
        0 <= to <= s.len(),
        trim_end(s) == s.take(to),
        forall|i: int| to <= i < s.len() ==> is_white_space(#[trigger] s[i]),
        to > 0 ==> !is_white_space(s[to - 1]),
    decreases s.len(),
{
    if s.len() > 0 && is_white_space(s.last()) {
        let to = lemma_trim_end_of(s.drop_last());
        assert(s.drop_last().take(to) =~= s.take(to));
        assert forall|i: int| to <= i < s.len() implies is_white_space(#[trigger] s[i]) by {
            if i < s.len() - 1 {
                assert(s.drop_last()[i] == s[i]);
            }
        }
        to
    } else {
        assert(s.take(s.len() as int) =~= s);
        s.len() as int
    }
}

/// What is trimmed is a part of the text with nothing but white space around it, and no white space
/// at its own ends.
pub proof fn lemma_trimmed_is_trimmed(s: Seq<char>)
    ensures
        is_trimmed(s, trimmed(s)),
{
    let from = lemma_trim_start_of(s);
    let rest = s.skip(from);
    let to = lemma_trim_end_of(rest);
    let t = s.subrange(from, from + to);
    assert(rest.take(to) =~= t);
    assert(trimmed(s) == t);
    assert forall|i: int| 0 <= i < from || from + to <= i < s.len() implies is_blank(
        #[trigger] s[i],
    ) by {
        if i >= from + to {
            assert(rest[i - from] == s[i]);
        }
    }
    assert(t == s.subrange(from, from + to));
    if t.len() > 0 {
        assert(t[0] == s[from]);
        assert(t.last() == rest[to - 1]);
    }
}

/// Trimming takes off the white space around a text and nothing else.
pub proof fn law_trim_takes_off_white_space(s: &str, r: &str)
    requires
        call_ensures(trim, (s,), r),
    ensures
        is_trimmed(s@, r@),
{
    lemma_trimmed_is_trimmed(s@);
}

/// Texts are the same just where all their characters are.
pub proof fn law_texts_are_told_apart(a: &str, b: &str, r: bool, chars: Vec<char>)
    requires
        call_ensures(same_text, (a, b), r),
        call_ensures(chars_of, (a,), chars),
    ensures
        chars@ == a@,
        r <==> a@.len() == b@.len() && (forall|i: int| 0 <= i < a@.len() ==> a@[i] == b@[i]),
{
    if a@.len() == b@.len() && (forall|i: int| 0 <= i < a@.len() ==> a@[i] == b@[i]) {
        assert(a@ =~= b@);
    }
}

/// A written number ends with its last digit, and what stands before that is a tenth of the number
/// as it is written itself.
pub proof fn law_numbers_are_written_in_base_ten(n: u64, r: String, tenth: String)
    requires
        call_ensures(decimal_text, (n,), r),
        call_ensures(decimal_text, ((n / 10) as u64,), tenth),
    ensures
        r@.len() > 0,
        r@.last() as int == 48 + n % 10,
        n < 10 ==> r@.len() == 1,
        n >= 10 ==> r@.drop_last() == tenth@,
{
    if n >= 10 {
        assert(r@.drop_last() =~= decimal_digits(n as nat / 10));
    }
}

/// A number reads digit by digit: a further digit makes it ten times as much and the digit more,
/// where that is not too much, and nothing but digits can follow. A plus may stand before it.
pub proof fn law_numbers_are_read_in_base_ten(
    s: &str,
    t: &str,
    plus: &str,
    c: char,
    max: u64,
    a: Option<u64>,
    b: Option<u64>,
    p: Option<u64>,
)
    requires
        call_ensures(parse_decimal, (s, max), a),
        call_ensures(parse_decimal, (t, max), b),
        call_ensures(parse_decimal, (plus, max), p),
        t@ == s@.push(c),
        plus@ == seq!['+'] + s@,
    ensures
        s@.len() == 0 ==> a is None && p is None,
        s@.len() == 0 && '0' <= c <= '9' ==> b == if (c as int) - 48 <= max {
            Some(((c as int) - 48) as u64)
        } else {
            None
        },
        s@.len() == 0 && !('0' <= c <= '9') ==> b is None,
        s@.len() > 0 && a is None && s@ != seq!['+'] ==> b is None,
        a matches Some(n) ==> if '0' <= c <= '9' && 10 * n + ((c as int) - 48) <= max {
            b == Some((10 * n + ((c as int) - 48)) as u64)
        } else {
            b is None
        },
        s@.len() > 0 && !('0' <= c <= '9') ==> b is None,
        s@.len() > 0 && s@[0] != '+' ==> p == a,
        s@.len() > 0 && s@[0] == '+' ==> p is None,
{
    let digits = unsigned_part(s@);
    let more = unsigned_part(t@);
    assert(plus@[0] == '+');
    assert(unsigned_part(plus@) =~= s@);
    if s@.len() > 0 {
        assert(t@[0] == s@[0]);
        assert(more =~= digits.push(c));
        assert(more.drop_last() =~= digits);
        assert(more.last() == c);
        if !('0' <= c <= '9') {
            assert(!is_digit(more[more.len() - 1]));
        }
        if a is Some {
            if '0' <= c <= '9' {
                assert forall|i: int| 0 <= i < more.len() implies is_digit(#[trigger] more[i]) by {
                    if i < digits.len() {
                        assert(more[i] == digits[i]);
                    }
                }
            }
        } else if s@ != seq!['+'] {
            if digits.len() == 0 {
                assert(s@ =~= seq!['+']);
            }
            if exists|i: int| 0 <= i < digits.len() && !is_digit(#[trigger] digits[i]) {
                let i = choose|i: int| 0 <= i < digits.len() && !is_digit(#[trigger] digits[i]);
                assert(!is_digit(more[i]));
            }
        }
        if s@[0] == '+' {
            assert(!is_digit(s@[0]));
        }
    } else {
        assert(t@ =~= seq![c]);
        if c != '+' {
            assert(more =~= seq![c]);
            assert(more.drop_last() =~= seq![]);
            assert(decimal_value(more.drop_last()) == 0);
            assert(more[0] == c);
        } else {
            assert(more.len() == 0);
        }
    }
}

/// The port is the number that is configured, where that is one of at most 65535, and otherwise
/// 3000.
pub proof fn law_port_is_configured(raw: Option<&str>, r: u16, number: Option<u64>)
    requires
        call_ensures(server_port, (raw,), r),
        raw matches Some(raw) ==> call_ensures(parse_decimal, (raw, 65535u64), number),
        raw is None ==> number is None,
    ensures
        number matches Some(n) ==> r == n,
        number is None ==> r == 3000,
{
}

/// The limit is the number that is configured, with white space around it or not, where that is
/// positive, and otherwise 28800000.
pub proof fn law_limit_is_configured(
    raw: Option<&str>,
    r: usize,
    inside: &str,
    number: Option<u64>,
)
    requires
        call_ensures(max_audio_samples, (raw,), r),
        raw matches Some(raw) ==> call_ensures(trim, (raw,), inside) && call_ensures(
            parse_decimal,
            (inside, usize::MAX as u64),
            number,
        ),
        raw is None ==> number is None,
    ensures
        number matches Some(n) ==> r == if n > 0 {
            n as int
        } else {
            28800000
        },
        number is None ==> r == 28800000,
{
}

/// The limit that is read first stays the same: it is what is configured when it is asked for the
/// first time, and what was read before every time after that.
pub proof fn law_first_limit_stays(
    limit: &mut SampleLimit,
    fresh: SampleLimit,
    raw: Option<&str>,
    r: usize,
    configured: usize,
)
    requires
        call_ensures(SampleLimit::new, (), fresh),
        call_ensures(SampleLimit::get, (limit, raw), r),
        call_ensures(max_audio_samples, (raw,), configured),
    ensures
        fresh.read is None,
        final(limit).read == Some(r),
        old(limit).read is None ==> r == configured,
        old(limit).read matches Some(first) ==> r == first,
{
}

/// The models are where they are configured to be, and otherwise under `./models`.
pub proof fn law_models_are_configured(
    whisper: Option<String>,
    vad: Option<String>,
    w: String,
    v: String,
)
    requires
        call_ensures(whisper_model_path, (whisper,), w),
        call_ensures(vad_model_path, (vad,), v),
    ensures
        whisper matches Some(path) ==> w@ == path@,
        whisper is None ==> w@ == "./models/ggml-base.bin"@,
        vad matches Some(path) ==> v@ == path@,
        vad is None ==> v@ == "./models/silero_vad.onnx"@,
{
}

} // verus!
