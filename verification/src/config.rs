//! Reading the configuration: picking a variable by the start of its name,
//! and numbers written in decimal.

use vstd::prelude::*;
use vstd::string::{is_ascii_spec_bytes, StrSliceExecFns};

verus! {

/// Seconds between two ticks where the configuration names none.
pub const DEFAULT_POLLING_INTERVAL: u64 = 10;

/// Whether `text` begins with `prefix`.
pub open spec fn starts_with(text: Seq<char>, prefix: Seq<char>) -> bool {
    prefix.len() <= text.len() && text.subrange(0, prefix.len() as int) == prefix
}

/// Whether `text` begins with `prefix`.
pub fn has_prefix(text: &str, prefix: &str) -> (r: bool)
    ensures
        r == starts_with(text@, prefix@),
{
    let n = prefix.unicode_len();
    if n > text.unicode_len() {
        return false;
    }
    let mut i: usize = 0;
    while i < n
        invariant
            i <= n,
            n == prefix@.len(),
            n <= text@.len(),
            forall|j: int| 0 <= j < i ==> text@[j] == prefix@[j],
        decreases n - i,
    {
        if text.get_char(i) != prefix.get_char(i) {
            assert(text@.subrange(0, n as int)[i as int] != prefix@[i as int]);
            return false;
        }
        i += 1;
    }
    proof {
        assert(text@.subrange(0, n as int) =~= prefix@);
    }
    true
}

/// The names and values of a list of variables.
pub open spec fn variable_views(vars: Seq<(String, String)>) -> Seq<(Seq<char>, Seq<char>)> {
    vars.map_values(|v: (String, String)| (v.0@, v.1@))
}

/// The value of the first variable whose name begins with `prefix`.
pub open spec fn first_with_prefix(vars: Seq<(Seq<char>, Seq<char>)>, prefix: Seq<char>) -> Option<
    Seq<char>,
>
    decreases vars.len(),
{
    if vars.len() == 0 {
        None
    } else if starts_with(vars[0].0, prefix) {
        Some(vars[0].1)
    } else {
        first_with_prefix(vars.drop_first(), prefix)
    }
}

/// The value of the first of `vars` whose name begins with `prefix`; `None`
/// where no name does.
pub fn value_with_prefix(vars: &Vec<(String, String)>, prefix: &str) -> (r: Option<String>)
    ensures
        match first_with_prefix(variable_views(vars@), prefix@) {
            Some(value) => r is Some && r->Some_0@ == value,
            None => r is None,
        },
{
    let ghost all = variable_views(vars@);
    let mut i: usize = 0;
    proof {
        assert(all.skip(0) =~= all);
    }
    while i < vars.len()
        invariant
            i <= vars.len(),
            all == variable_views(vars@),
            first_with_prefix(all, prefix@) == first_with_prefix(all.skip(i as int), prefix@),
        decreases vars.len() - i,
    {
        proof {
            assert(all.skip(i as int)[0] == all[i as int]);
            assert(all.skip(i as int).drop_first() =~= all.skip(i + 1));
        }
        if has_prefix(vars[i].0.as_str(), prefix) {
            return Some(vars[i].1.clone());
        }
        i += 1;
    }
    None
}

/// Whether `c` is a decimal digit.
pub open spec fn is_digit(c: char) -> bool {
    '0' <= c <= '9'
}

/// The number that the digit `c` stands for.
pub open spec fn digit_value(c: char) -> nat {
    if is_digit(c) {
        (c as u8 - 48) as nat
    } else {
        0
    }
}

/// The number that `digits` write in decimal.
pub open spec fn digits_value(digits: Seq<char>) -> nat
    decreases digits.len(),
{
    if digits.len() == 0 {
        0
    } else {
        10 * digits_value(digits.drop_last()) + digit_value(digits.last())
    }
}

/// `text` without a plus sign at its start.
pub open spec fn unsigned_part(text: Seq<char>) -> Seq<char> {
    if text.len() > 0 && text[0] == '+' {
        text.subrange(1, text.len() as int)
    } else {
        text
    }
}

/// The number up to `max` that `text` writes: one or more decimal digits,
/// with or without a plus sign before them, and nothing else. Any other text
/// writes no number.
pub open spec fn decimal(text: Seq<char>, max: nat) -> Option<nat> {
    let digits = unsigned_part(text);
    if digits.len() > 0 && (forall|i: int| 0 <= i < digits.len() ==> is_digit(#[trigger] digits[i]))
        && digits_value(digits) <= max {
        Some(digits_value(digits))
    } else {
        None
    }
}

/// Digits added at the end never make the number smaller.
pub proof fn lemma_digits_value_grows(digits: Seq<char>, k: int)
    requires
        0 <= k <= digits.len(),
    ensures
        digits_value(digits.take(k)) <= digits_value(digits),
    decreases digits.len(),
{
    if k == digits.len() {
        assert(digits.take(k) =~= digits);
    } else {
        lemma_digits_value_grows(digits.drop_last(), k);
        assert(digits.drop_last().take(k) =~= digits.take(k));
    }
}

/// The number up to `max` that `text` writes in decimal, if it writes one.
pub fn parse_decimal(text: &str, max: u64) -> (r: Option<u64>)
    ensures
        match decimal(text@, max as nat) {
            Some(value) => r == Some(value as u64),
            None => r is None,
        },
{
    let ghost digits = unsigned_part(text@);
    if !text.is_ascii() {
        proof {
            let i = choose|i: int|
                0 <= i < text@.len() && !('\0' <= #[trigger] text@[i] <= '\u{7f}');
            if text@[0] == '+' {
                assert(digits[i - 1] == text@[i]);
            } else {
                assert(digits[i] == text@[i]);
            }
        }
        return None;
    }
    let bytes = text.as_bytes();
    let n = bytes.len();
    proof {
        is_ascii_spec_bytes(text);
    }
    assert(n == text@.len());
    let start: usize = if n > 0 && bytes[0] == 43 {
        1
    } else {
        0
    };
    assert(digits =~= text@.subrange(start as int, n as int));
    if start == n {
        return None;
    }
    let mut value: u64 = 0;
    let mut i: usize = start;
    while i < n
        invariant
            start <= i <= n,
            n == text@.len(),
            text.is_ascii(),
            bytes@ == Seq::new(text@.len(), |k: int| text@[k] as u8),
            digits == unsigned_part(text@),
            digits == text@.subrange(start as int, n as int),
            forall|j: int| 0 <= j < i - start ==> is_digit(#[trigger] digits[j]),
            value == digits_value(digits.take(i - start)),
            value <= max,
        decreases n - i,
    {
        let b = bytes[i];
        let ghost c = text@[i as int];
        assert(digits[i - start] == c);
        if b < 48 || b > 57 {
            return None;
        }
        proof {
            let upto = digits.take(i - start + 1);
            assert(upto.drop_last() =~= digits.take(i - start));
            assert(upto.last() == c);
            assert(digit_value(c) == b - 48);
            lemma_digits_value_grows(digits, i - start + 1);
        }
        let d = (b - 48) as u64;
        if value > max / 10 {
            return None;
        }
        if d > max - value * 10 {
            return None;
        }
        value = value * 10 + d;
        i += 1;
    }
    proof {
        assert(digits.take(n - start) =~= digits);
    }
    Some(value)
}

/// The seconds between two ticks: what the configuration names, in decimal,
/// and the default where it names nothing. A text that writes no number of
/// seconds gives `None`.
pub fn polling_interval(configured: Option<&str>) -> (r: Option<u64>)
    ensures
        match configured {
            None => r == Some(DEFAULT_POLLING_INTERVAL),
            Some(text) => match decimal(text@, u64::MAX as nat) {
                Some(value) => r == Some(value as u64),
                None => r is None,
            },
        },
{
    match configured {
        None => Some(DEFAULT_POLLING_INTERVAL),
        Some(text) => parse_decimal(text, u64::MAX),
    }
}

/// The broker's port, as the configuration writes it in decimal.
pub fn port(configured: &str) -> (r: Option<u16>)
    ensures
        match decimal(configured@, u16::MAX as nat) {
            Some(value) => r == Some(value as u16),
            None => r is None,
        },
{
    match parse_decimal(configured, 65535) {
        Some(value) => Some(value as u16),
        None => None,
    }
}

} // verus!
