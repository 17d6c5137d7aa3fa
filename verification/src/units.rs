//! Decimal numbers with a unit suffix, as written in manifests and
//! `pit.toml` (`2s`, `500ms`, `64MiB`).

use vstd::prelude::*;
use vstd::string::StringExecFns;

use crate::text::{chars_of, decimal, digit_char, ends_with, has_suffix};

verus! {

pub open spec fn is_digit(c: char) -> bool {
    '0' <= c && c <= '9'
}

pub open spec fn all_digits(s: Seq<char>) -> bool {
    forall|i: int| 0 <= i < s.len() ==> is_digit(#[trigger] s[i])
}

/// The value of a string of decimal digits.
pub open spec fn digits_value(s: Seq<char>) -> nat
    decreases s.len(),
{
    if s.len() == 0 {
        0
    } else {
        digits_value(s.drop_last()) * 10 + (s.last() as nat - 48) as nat
    }
}

/// The digits that `u64::from_str` reads: `s` without one leading `+`.
pub open spec fn unsigned_digits(s: Seq<char>) -> Seq<char> {
    if s.len() > 0 && s[0] == '+' {
        s.drop_first()
    } else {
        s
    }
}

/// What `str::parse::<u64>` returns: an optional `+`, then at least one
/// decimal digit and nothing else, with a value that fits in a `u64`.
pub open spec fn parse_u64_spec(s: Seq<char>) -> Option<u64> {
    let d = unsigned_digits(s);
    if d.len() > 0 && all_digits(d) && digits_value(d) <= u64::MAX {
        Some(digits_value(d) as u64)
    } else {
        None
    }
}

proof fn lemma_digits_value_grows(d: Seq<char>, i: int, j: int)
    requires
        0 <= i <= j <= d.len(),
        all_digits(d),
    ensures
        digits_value(d.take(i)) <= digits_value(d.take(j)),
    decreases j - i,
{
    if i < j {
        lemma_digits_value_grows(d, i, j - 1);
        assert(d.take(j).drop_last() =~= d.take(j - 1));
        assert(is_digit(d[j - 1]));
    }
}

/// `str::parse::<u64>` on a character sequence.
pub fn parse_u64(s: &Vec<char>) -> (r: Option<u64>)
    ensures
        r == parse_u64_spec(s@),
{
    let start: usize = if s.len() > 0 && s[0] == '+' { 1 } else { 0 };
    let ghost d = unsigned_digits(s@);
    assert(d =~= s@.skip(start as int));
    if start >= s.len() {
        return None;
    }
    let mut acc: u64 = 0;
    let mut i: usize = start;
    while i < s.len()
        invariant
            start <= i <= s@.len(),
            start < s@.len(),
            d == s@.skip(start as int),
            d == unsigned_digits(s@),
            all_digits(d.take(i - start)),
            acc as nat == digits_value(d.take(i - start)),
        decreases s.len() - i,
    {
        let c = s[i];
        if !('0' <= c && c <= '9') {
            assert(!is_digit(d[i - start]));
            return None;
        }
        let dv: u64 = (c as u32 - 48) as u64;
        let ghost k = (i - start) as int;
        assert(d.take(k + 1).drop_last() =~= d.take(k));
        assert(d.take(k + 1).last() == c);
        assert(all_digits(d.take(k + 1)));
        match acc.checked_mul(10) {
            Some(m) => match m.checked_add(dv) {
                Some(next) => {
                    acc = next;
                },
                None => {
                    proof {
                        if all_digits(d) {
                            lemma_digits_value_grows(d, k + 1, d.len() as int);
                            assert(d.take(d.len() as int) =~= d);
                        }
                    }
                    return None;
                },
            },
            None => {
                proof {
                    if all_digits(d) {
                        lemma_digits_value_grows(d, k + 1, d.len() as int);
                        assert(d.take(d.len() as int) =~= d);
                    }
                }
                return None;
            },
        }
        i = i + 1;
    }
    assert(d.take(i - start) =~= d);
    Some(acc)
}

/// Why a unit value was refused.
#[derive(Debug, Clone, Copy, PartialEq, Eq, Structural)]
pub enum UnitError {
    /// The duration does not end in `ms`, `s` or `m`.
    DurationUnit,
    /// The duration's number is malformed or the product overflows.
    DurationValue,
    /// The memory size does not end in `KiB`, `MiB` or `GiB`.
    MemoryUnit,
    /// The memory size's number is malformed or the product overflows.
    MemoryValue,
}

impl UnitError {
    pub open spec fn text(self) -> Seq<char> {
        match self {
            UnitError::DurationUnit => "duration must use ms, s, or m (for example 2s)"@,
            UnitError::DurationValue => "duration is invalid or too large"@,
            UnitError::MemoryUnit => "memory must use KiB, MiB, or GiB (for example 64MiB)"@,
            UnitError::MemoryValue => "memory is invalid or too large"@,
        }
    }

    /// The message the CLI prints for this error.
    pub fn message(&self) -> (s: String)
        ensures
            s@ == self.text(),
    {
        match self {
            UnitError::DurationUnit => String::from_str(
                "duration must use ms, s, or m (for example 2s)",
            ),
            UnitError::DurationValue => String::from_str("duration is invalid or too large"),
            UnitError::MemoryUnit => String::from_str(
                "memory must use KiB, MiB, or GiB (for example 64MiB)",
            ),
            UnitError::MemoryValue => String::from_str("memory is invalid or too large"),
        }
    }
}

/// The number and the multiplier of a duration, by its suffix, checked in
/// the order `ms`, `s`, `m`.
pub open spec fn duration_split(s: Seq<char>) -> Option<(Seq<char>, nat)> {
    if ends_with(s, seq!['m', 's']) {
        Some((s.subrange(0, s.len() - 2), 1))
    } else if ends_with(s, seq!['s']) {
        Some((s.subrange(0, s.len() - 1), 1000))
    } else if ends_with(s, seq!['m']) {
        Some((s.subrange(0, s.len() - 1), 60000))
    } else {
        None
    }
}

/// The number and the multiplier of a memory size, by its suffix.
pub open spec fn memory_split(s: Seq<char>) -> Option<(Seq<char>, nat)> {
    if ends_with(s, seq!['K', 'i', 'B']) {
        Some((s.subrange(0, s.len() - 3), 1024))
    } else if ends_with(s, seq!['M', 'i', 'B']) {
        Some((s.subrange(0, s.len() - 3), 1048576))
    } else if ends_with(s, seq!['G', 'i', 'B']) {
        Some((s.subrange(0, s.len() - 3), 1073741824))
    } else {
        None
    }
}

/// The scaled value, when the number parses and the product fits a `u64`.
pub open spec fn scaled(number: Seq<char>, multiplier: nat) -> Option<u64> {
    match parse_u64_spec(number) {
        Some(v) => if v * multiplier <= u64::MAX {
            Some((v * multiplier) as u64)
        } else {
            None
        },
        None => None,
    }
}

pub open spec fn duration_ms_spec(s: Seq<char>) -> Result<u64, UnitError> {
    match duration_split(s) {
        None => Err(UnitError::DurationUnit),
        Some((number, multiplier)) => match scaled(number, multiplier) {
            Some(v) => Ok(v),
            None => Err(UnitError::DurationValue),
        },
    }
}

pub open spec fn memory_bytes_spec(s: Seq<char>) -> Result<u64, UnitError> {
    match memory_split(s) {
        None => Err(UnitError::MemoryUnit),
        Some((number, multiplier)) => match scaled(number, multiplier) {
            Some(v) => Ok(v),
            None => Err(UnitError::MemoryValue),
        },
    }
}

/// The first `n` characters of `s`.
pub fn prefix_chars(s: &Vec<char>, n: usize) -> (out: Vec<char>)
    requires
        n <= s@.len(),
    ensures
        out@ == s@.subrange(0, n as int),
{
    let mut out: Vec<char> = Vec::new();
    let mut i: usize = 0;
    while i < n
        invariant
            i <= n <= s@.len(),
            out@ == s@.subrange(0, i as int),
        decreases n - i,
    {
        out.push(s[i]);
        i = i + 1;
        assert(out@ =~= s@.subrange(0, i as int));
    }
    out
}

fn scale(number: &Vec<char>, multiplier: u64) -> (r: Option<u64>)
    ensures
        r == scaled(number@, multiplier as nat),
{
    match parse_u64(number) {
        Some(v) => v.checked_mul(multiplier),
        None => None,
    }
}

/// Parses a duration such as `2s`, `500ms` or `1m` into milliseconds.
pub fn parse_duration_ms(value: &str) -> (r: Result<u64, UnitError>)
    ensures
        r == duration_ms_spec(value@),
{
    let s = chars_of(value);
    let ms = vec!['m', 's'];
    let sec = vec!['s'];
    let min = vec!['m'];
    assert(ms@ =~= seq!['m', 's'] && sec@ =~= seq!['s'] && min@ =~= seq!['m']);
    let (cut, multiplier): (usize, u64) = if has_suffix(&s, &ms) {
        (2, 1)
    } else if has_suffix(&s, &sec) {
        (1, 1000)
    } else if has_suffix(&s, &min) {
        (1, 60000)
    } else {
        return Err(UnitError::DurationUnit);
    };
    let number = prefix_chars(&s, s.len() - cut);
    match scale(&number, multiplier) {
        Some(v) => Ok(v),
        None => Err(UnitError::DurationValue),
    }
}

/// Parses a memory size such as `64MiB` into bytes.
pub fn parse_memory_bytes(value: &str) -> (r: Result<u64, UnitError>)
    ensures
        r == memory_bytes_spec(value@),
{
    let s = chars_of(value);
    let kib = vec!['K', 'i', 'B'];
    let mib = vec!['M', 'i', 'B'];
    let gib = vec!['G', 'i', 'B'];
    assert(kib@ =~= seq!['K', 'i', 'B'] && mib@ =~= seq!['M', 'i', 'B'] && gib@ =~= seq![
        'G',
        'i',
        'B',
    ]);
    let multiplier: u64 = if has_suffix(&s, &kib) {
        1024
    } else if has_suffix(&s, &mib) {
        1048576
    } else if has_suffix(&s, &gib) {
        1073741824
    } else {
        return Err(UnitError::MemoryUnit);
    };
    let number = prefix_chars(&s, s.len() - 3);
    match scale(&number, multiplier) {
        Some(v) => Ok(v),
        None => Err(UnitError::MemoryValue),
    }
}


proof fn lemma_decimal_digits(n: nat)
    ensures
        decimal(n).len() > 0,
        all_digits(decimal(n)),
        digits_value(decimal(n)) == n,
    decreases n,
{
    if n < 10 {
        let d = decimal(n);
        assert(d =~= seq![digit_char(n)]);
        assert(d.drop_last() =~= Seq::<char>::empty());
        assert(digit_char(n) as nat == 48 + n);
        assert(digits_value(d) == digits_value(d.drop_last()) * 10 + (d.last() as nat - 48) as nat);
        assert(digits_value(Seq::<char>::empty()) == 0);
    } else {
        lemma_decimal_digits(n / 10);
        let d = decimal(n);
        assert(d.drop_last() =~= decimal(n / 10));
        assert(d.last() == digit_char(n % 10));
        assert(digit_char(n % 10) as nat == 48 + n % 10);
        assert(digits_value(d) == digits_value(d.drop_last()) * 10 + (d.last() as nat - 48) as nat);
        assert((n / 10) * 10 + n % 10 == n);
        assert forall|i: int| 0 <= i < d.len() implies is_digit(#[trigger] d[i]) by {
            if i < d.len() - 1 {
                assert(d[i] == decimal(n / 10)[i]);
            }
        }
    }
}

/// A whole number written in decimal reads back as itself.
pub proof fn law_parse_decimal(n: u64)
    ensures
        parse_u64_spec(decimal(n as nat)) == Some(n),
{
    lemma_decimal_digits(n as nat);
    let d = decimal(n as nat);
    assert(is_digit(d[0]));
    assert(unsigned_digits(d) == d);
}

proof fn lemma_suffix_split(n: u64, suffix: Seq<char>)
    ensures
        (decimal(n as nat) + suffix).subrange(0, decimal(n as nat).len() as int) == decimal(n as nat),
        ends_with(decimal(n as nat) + suffix, suffix),
{
    let d = decimal(n as nat);
    let s = d + suffix;
    assert(s.subrange(0, d.len() as int) =~= d);
    assert(s.subrange(s.len() - suffix.len(), s.len() as int) =~= suffix);
}

/// The scaled value of `n` units of `multiplier`: the product when it fits a
/// `u64`, else the value error.
pub open spec fn scaled_or(n: u64, multiplier: nat, e: UnitError) -> Result<u64, UnitError> {
    if n * multiplier <= u64::MAX {
        Ok((n * multiplier) as u64)
    } else {
        Err(e)
    }
}

/// A whole number of milliseconds, seconds or minutes, written with its
/// suffix, reads back as that many milliseconds (or as too large).
pub proof fn law_duration_round_trip(n: u64)
    ensures
        duration_ms_spec(decimal(n as nat) + "ms"@) == Ok::<u64, UnitError>(n),
        duration_ms_spec(decimal(n as nat) + "s"@) == scaled_or(n, 1000, UnitError::DurationValue),
        duration_ms_spec(decimal(n as nat) + "m"@) == scaled_or(n, 60000, UnitError::DurationValue),
{
    reveal_strlit("ms");
    reveal_strlit("s");
    reveal_strlit("m");
    law_parse_decimal(n);
    lemma_decimal_digits(n as nat);
    let d = decimal(n as nat);
    lemma_suffix_split(n, "ms"@);
    lemma_suffix_split(n, "s"@);
    lemma_suffix_split(n, "m"@);
    assert("ms"@ =~= seq!['m', 's']);
    assert("s"@ =~= seq!['s']);
    assert("m"@ =~= seq!['m']);
    let s1 = d + "s"@;
    assert(s1[s1.len() - 2] == d[d.len() - 1]);
    assert(is_digit(d[d.len() - 1]));
    assert(!ends_with(s1, seq!['m', 's']));
    let s2 = d + "m"@;
    assert(s2[s2.len() - 1] == 'm');
    assert(!ends_with(s2, seq!['m', 's']));
    assert(!ends_with(s2, seq!['s']));
    assert(s1.subrange(0, s1.len() - 1) =~= d);
    assert(s2.subrange(0, s2.len() - 1) =~= d);
    let s0 = d + "ms"@;
    assert(s0.subrange(0, s0.len() - 2) =~= d);
}

/// A whole number of KiB, MiB or GiB, written with its suffix, reads back
/// as that many bytes (or as too large).
pub proof fn law_memory_round_trip(n: u64)
    ensures
        memory_bytes_spec(decimal(n as nat) + "KiB"@) == scaled_or(n, 1024, UnitError::MemoryValue),
        memory_bytes_spec(decimal(n as nat) + "MiB"@) == scaled_or(n, 1048576, UnitError::MemoryValue),
        memory_bytes_spec(decimal(n as nat) + "GiB"@) == scaled_or(n, 1073741824, UnitError::MemoryValue),
{
    reveal_strlit("KiB");
    reveal_strlit("MiB");
    reveal_strlit("GiB");
    law_parse_decimal(n);
    let d = decimal(n as nat);
    assert("KiB"@ =~= seq!['K', 'i', 'B']);
    assert("MiB"@ =~= seq!['M', 'i', 'B']);
    assert("GiB"@ =~= seq!['G', 'i', 'B']);
    lemma_suffix_split(n, "KiB"@);
    lemma_suffix_split(n, "MiB"@);
    lemma_suffix_split(n, "GiB"@);
    let k = d + "KiB"@;
    let m = d + "MiB"@;
    let g = d + "GiB"@;
    assert(k.subrange(0, k.len() - 3) =~= d);
    assert(m.subrange(0, m.len() - 3) =~= d);
    assert(g.subrange(0, g.len() - 3) =~= d);
    assert(m[m.len() - 3] == 'M');
    assert(!ends_with(m, seq!['K', 'i', 'B']));
    assert(g[g.len() - 3] == 'G');
    assert(!ends_with(g, seq!['K', 'i', 'B']));
    assert(!ends_with(g, seq!['M', 'i', 'B']));
}
} // verus!
