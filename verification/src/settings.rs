//! Settings taken from the environment when `transcribe` runs as the
//! implicit command (`VOICETOOLS_MODEL`, `VOICE_SILENCE_MS`).

use vstd::prelude::*;

use crate::text::{chars_of, push_char};

verus! {

/// Trailing silence, in milliseconds, that ends a recording by default.
pub const DEFAULT_SILENCE_MS: u64 = 600;

pub open spec fn is_ascii_digit(c: char) -> bool {
    0x30 <= c as u32 <= 0x39
}

pub open spec fn digit_value(c: char) -> int {
    c as u32 - 0x30
}

/// The number a string of decimal digits denotes.
pub open spec fn digits_value(d: Seq<char>) -> int
    decreases d.len(),
{
    if d.len() == 0 {
        0
    } else {
        digits_value(d.drop_last()) * 10 + digit_value(d.last())
    }
}

pub open spec fn all_digits(d: Seq<char>) -> bool {
    forall|i: int| 0 <= i < d.len() ==> is_ascii_digit(#[trigger] d[i])
}

/// What `str::parse::<u64>` accepts: an optional `+` followed by at least
/// one ASCII digit, denoting a value that fits.
pub open spec fn decimal_u64(s: Seq<char>) -> Option<u64> {
    let d = if s.len() > 0 && s[0] == '+' { s.drop_first() } else { s };
    if d.len() > 0 && all_digits(d) && digits_value(d) <= u64::MAX {
        Some(digits_value(d) as u64)
    } else {
        None
    }
}

proof fn lemma_digits_value_grows(d: Seq<char>, k: int)
    requires
        all_digits(d),
        0 <= k <= d.len(),
    ensures
        digits_value(d.take(k)) <= digits_value(d),
        0 <= digits_value(d),
    decreases d.len(),
{
    if d.len() > 0 {
        assert(all_digits(d.drop_last())) by {
            assert forall|i: int| 0 <= i < d.drop_last().len() implies is_ascii_digit(
                #[trigger] d.drop_last()[i],
            ) by {
                assert(d.drop_last()[i] == d[i]);
            }
        }
        if k < d.len() {
            lemma_digits_value_grows(d.drop_last(), k);
            assert(d.drop_last().take(k) =~= d.take(k));
        } else {
            assert(d.take(k) =~= d);
            lemma_digits_value_grows(d.drop_last(), 0);
        }
        assert(is_ascii_digit(d[d.len() - 1]));
    }
}

/// Parses a decimal `u64` the way `str::parse` does.
pub fn parse_u64(s: &str) -> (r: Option<u64>)
    ensures
        r == decimal_u64(s@),
{
    let v = chars_of(s);
    let start: usize = if v.len() > 0 && v[0] == '+' {
        1
    } else {
        0
    };
    let ghost d = if s@.len() > 0 && s@[0] == '+' { s@.drop_first() } else { s@ };
    assert(d =~= s@.subrange(start as int, s@.len() as int));
    if start >= v.len() {
        return None;
    }
    let mut value: u64 = 0;
    let mut i = start;
    while i < v.len()
        invariant
            v@ == s@,
            start <= i <= v.len(),
            d =~= s@.subrange(start as int, s@.len() as int),
            d == (if s@.len() > 0 && s@[0] == '+' { s@.drop_first() } else { s@ }),
            d.len() > 0,
            all_digits(d.take(i - start)),
            value == digits_value(d.take(i - start)),
        decreases v.len() - i,
    {
        let c = v[i];
        let ghost k = i - start;
        proof {
            assert(d.take(k + 1).drop_last() =~= d.take(k));
            assert(d.take(k + 1).last() == c);
        }
        if !((c as u32) >= 0x30 && (c as u32) <= 0x39) {
            assert(!all_digits(d)) by {
                assert(d[k] == c);
            }
            return None;
        }
        let digit = ((c as u32) - 0x30) as u64;
        if value > (u64::MAX - digit) / 10 {
            proof {
                assert(digits_value(d.take(k + 1)) > u64::MAX);
                if all_digits(d) {
                    lemma_digits_value_grows(d, k + 1);
                }
            }
            return None;
        }
        value = value * 10 + digit;
        i = i + 1;
        proof {
            assert forall|j: int| 0 <= j < d.take(k + 1).len() implies is_ascii_digit(
                #[trigger] d.take(k + 1)[j],
            ) by {
                if j < k {
                    assert(d.take(k + 1)[j] == d.take(k)[j]);
                }
            }
        }
    }
    assert(d.take(d.len() as int) =~= d);
    Some(value)
}

/// The decimal digits of `n`, without leading zeros (what `{}` prints).
pub open spec fn decimal_text(n: nat) -> Seq<char>
    decreases n,
{
    if n < 10 {
        seq![(n + 0x30) as char]
    } else {
        decimal_text(n / 10).push(((n % 10) + 0x30) as char)
    }
}

/// Renders `n` in decimal.
pub fn format_u64(n: u64) -> (r: String)
    ensures
        r@ == decimal_text(n as nat),
    decreases n,
{
    let digit = ((n % 10) as u8 + 0x30) as char;
    if n < 10 {
        let mut r = String::new();
        push_char(&mut r, digit);
        assert(r@ =~= seq![digit]);
        r
    } else {
        let mut r = format_u64(n / 10);
        push_char(&mut r, digit);
        r
    }
}

/// The silence timeout for a `VOICE_SILENCE_MS` value: the value when it
/// parses as a number, otherwise [`DEFAULT_SILENCE_MS`].
pub fn silence_ms_setting(value: Option<&str>) -> (r: u64)
    ensures
        r == match value {
            Some(s) => match decimal_u64(s@) {
                Some(n) => n,
                None => DEFAULT_SILENCE_MS,
            },
            None => DEFAULT_SILENCE_MS,
        },
{
    match value {
        Some(s) => match parse_u64(s) {
            Some(n) => n,
            None => DEFAULT_SILENCE_MS,
        },
        None => DEFAULT_SILENCE_MS,
    }
}

/// The model name for a `VOICETOOLS_MODEL` value: the value itself, or
/// `parakeet-v3` when it is unset.
pub fn model_setting(value: Option<String>) -> (r: String)
    ensures
        r@ == match value {
            Some(s) => s@,
            None => "parakeet-v3"@,
        },
{
    match value {
        Some(s) => s,
        None => "parakeet-v3".to_owned(),
    }
}

} // verus!
