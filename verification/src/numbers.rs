//! Decimal parsing with the semantics of the standard `FromStr` impls for
//! `u64`, `usize`, `i32` and `bool`, on character sequences.

use vstd::prelude::*;

use crate::text::is_text;

verus! {

pub open spec fn is_digit(c: char) -> bool {
    '0' <= c && c <= '9'
}

pub open spec fn digit_val(c: char) -> int {
    c as int - '0' as int
}

pub open spec fn all_digits(s: Seq<char>) -> bool {
    forall|i: int| 0 <= i < s.len() ==> is_digit(#[trigger] s[i])
}

/// The value of a string of decimal digits.
pub open spec fn decimal_value(s: Seq<char>) -> int
    decreases s.len(),
{
    if s.len() == 0 {
        0
    } else {
        decimal_value(s.drop_last()) * 10 + digit_val(s.last())
    }
}

/// The value of `s` as an unsigned number no larger than `max`: an optional '+'
/// and at least one digit.
pub open spec fn spec_parse_unsigned(s: Seq<char>, max: int) -> Option<int> {
    let t = if s.len() > 0 && s[0] == '+' { s.drop_first() } else { s };
    if t.len() == 0 || !all_digits(t) || decimal_value(t) > max {
        None
    } else {
        Some(decimal_value(t))
    }
}

/// `s.parse::<u64>()`.
pub open spec fn spec_parse_u64(s: Seq<char>) -> Option<u64> {
    match spec_parse_unsigned(s, u64::MAX as int) {
        Some(v) => Some(v as u64),
        None => None,
    }
}

/// `s.parse::<usize>()`.
pub open spec fn spec_parse_usize(s: Seq<char>) -> Option<usize> {
    match spec_parse_unsigned(s, usize::MAX as int) {
        Some(v) => Some(v as usize),
        None => None,
    }
}

/// `s.parse::<i32>()`: an optional sign and at least one digit, within range.
pub open spec fn spec_parse_i32(s: Seq<char>) -> Option<i32> {
    let neg = s.len() > 0 && s[0] == '-';
    let t = if s.len() > 0 && (s[0] == '+' || s[0] == '-') { s.drop_first() } else { s };
    if t.len() == 0 || !all_digits(t) {
        None
    } else {
        let v = if neg { -decimal_value(t) } else { decimal_value(t) };
        if i32::MIN <= v <= i32::MAX {
            Some(v as i32)
        } else {
            None
        }
    }
}

/// `s.parse::<bool>()`.
pub open spec fn spec_parse_bool(s: Seq<char>) -> Option<bool> {
    if s == "true"@ {
        Some(true)
    } else if s == "false"@ {
        Some(false)
    } else {
        None
    }
}

proof fn lemma_decimal_monotone(s: Seq<char>, k: int)
    requires
        all_digits(s),
        0 <= k <= s.len(),
    ensures
        decimal_value(s.take(k)) <= decimal_value(s),
        0 <= decimal_value(s.take(k)),
    decreases s.len() - k,
{
    if k < s.len() {
        lemma_decimal_monotone(s, k + 1);
        assert(s.take(k + 1).drop_last() =~= s.take(k));
        assert(all_digits(s.take(k + 1)));
        assert(0 <= digit_val(s[k]));
    } else {
        assert(s.take(k) =~= s);
        lemma_decimal_nonneg(s);
    }
}

proof fn lemma_decimal_nonneg(s: Seq<char>)
    requires
        all_digits(s),
    ensures
        0 <= decimal_value(s),
    decreases s.len(),
{
    if s.len() > 0 {
        assert(all_digits(s.drop_last()));
        lemma_decimal_nonneg(s.drop_last());
    }
}

/// The value of the digits `s[start..]` if they are all digits and at most `max`.
fn parse_digits(s: &[char], start: usize, max: u64) -> (r: Option<u64>)
    requires
        start <= s@.len(),
        max >= 9,
    ensures
        ({
            let t = s@.skip(start as int);
            &&& r matches Some(v) ==> t.len() > 0 && all_digits(t) && v == decimal_value(t) && v <= max
            &&& r is None ==> t.len() == 0 || !all_digits(t) || decimal_value(t) > max
        }),
{
    let ghost t = s@.skip(start as int);
    if start == s.len() {
        return None;
    }
    let mut v: u64 = 0;
    let mut i: usize = start;
    while i < s.len()
        invariant
            start <= i <= s@.len(),
            t == s@.skip(start as int),
            forall|j: int| 0 <= j < i - start ==> is_digit(#[trigger] t[j]),
            v == decimal_value(t.take(i - start)),
            v <= max,
            max >= 9,
        decreases s.len() - i,
    {
        let c = s[i];
        if !('0' <= c && c <= '9') {
            assert(!is_digit(t[i - start]));
            return None;
        }
        let d = (c as u32 - '0' as u32) as u64;
        assert(t.take(i - start + 1).drop_last() =~= t.take(i - start));
        assert(t[i - start] == c);
        if v > (max - d) / 10 {
            proof {
                assert(v * 10 + d > max) by (nonlinear_arith)
                    requires v > (max - d) / 10, d <= max || d > max;
                if all_digits(t) {
                    lemma_decimal_monotone(t, i - start + 1);
                }
            }
            return None;
        }
        assert(v * 10 + d <= max) by (nonlinear_arith)
            requires v <= (max - d) / 10, d <= 9, max >= 0;
        v = v * 10 + d;
        i = i + 1;
    }
    assert(t.take(t.len() as int) =~= t);
    Some(v)
}

pub fn parse_u64(s: &[char]) -> (r: Option<u64>)
    ensures
        r == spec_parse_u64(s@),
{
    let start: usize = if s.len() > 0 && s[0] == '+' { 1 } else { 0 };
    assert(s@.skip(start as int) =~= (if s@.len() > 0 && s@[0] == '+' { s@.drop_first() } else { s@ }));
    parse_digits(s, start, u64::MAX)
}

pub fn parse_usize(s: &[char]) -> (r: Option<usize>)
    ensures
        r == spec_parse_usize(s@),
{
    let start: usize = if s.len() > 0 && s[0] == '+' { 1 } else { 0 };
    assert(s@.skip(start as int) =~= (if s@.len() > 0 && s@[0] == '+' { s@.drop_first() } else { s@ }));
    match parse_digits(s, start, usize::MAX as u64) {
        Some(v) => Some(v as usize),
        None => None,
    }
}

pub fn parse_i32(s: &[char]) -> (r: Option<i32>)
    ensures
        r == spec_parse_i32(s@),
{
    let neg = s.len() > 0 && s[0] == '-';
    let start: usize = if s.len() > 0 && (s[0] == '+' || s[0] == '-') { 1 } else { 0 };
    assert(s@.skip(start as int) =~= (if s@.len() > 0 && (s@[0] == '+' || s@[0] == '-') { s@.drop_first() } else { s@ }));
    match parse_digits(s, start, 0x8000_0000) {
        Some(m) => {
            if neg {
                Some((0 - (m as i64)) as i32)
            } else if m <= 0x7FFF_FFFF {
                Some(m as i32)
            } else {
                None
            }
        },
        None => None,
    }
}

pub fn parse_bool(s: &[char]) -> (r: Option<bool>)
    ensures
        r == spec_parse_bool(s@),
{
    if is_text(s, "true") {
        Some(true)
    } else if is_text(s, "false") {
        Some(false)
    } else {
        None
    }
}


/// The character of a decimal digit.
pub open spec fn digit_char(d: int) -> char {
    if d == 0 {
        '0'
    } else if d == 1 {
        '1'
    } else if d == 2 {
        '2'
    } else if d == 3 {
        '3'
    } else if d == 4 {
        '4'
    } else if d == 5 {
        '5'
    } else if d == 6 {
        '6'
    } else if d == 7 {
        '7'
    } else if d == 8 {
        '8'
    } else {
        '9'
    }
}

/// The decimal digits of `n` without leading zeros (`n.to_string()`).
pub open spec fn spec_decimal(n: nat) -> Seq<char>
    decreases n,
{
    if n < 10 {
        seq![digit_char(n as int)]
    } else {
        spec_decimal(n / 10).push(digit_char((n % 10) as int))
    }
}

/// `v.to_string()` for a signed integer.
pub open spec fn spec_signed_decimal(v: int) -> Seq<char> {
    if v < 0 {
        seq!['-'] + spec_decimal((-v) as nat)
    } else {
        spec_decimal(v as nat)
    }
}

/// Decimal digits read back give the number they were written from.
pub proof fn lemma_decimal_round_trip(n: nat)
    ensures
        spec_decimal(n).len() > 0,
        all_digits(spec_decimal(n)),
        decimal_value(spec_decimal(n)) == n,
        spec_decimal(n)[0] != '+' && spec_decimal(n)[0] != '-',
    decreases n,
{
    let d = (n % 10) as int;
    assert(digit_val(digit_char(d)) == d && is_digit(digit_char(d)));
    if n < 10 {
        assert(spec_decimal(n).drop_last() =~= Seq::<char>::empty());
        assert(decimal_value(Seq::<char>::empty()) == 0);
        assert(is_digit(spec_decimal(n)[0]));
        assert(decimal_value(spec_decimal(n)) == decimal_value(spec_decimal(n).drop_last()) * 10 + digit_val(
            spec_decimal(n).last(),
        ));
    } else {
        lemma_decimal_round_trip(n / 10);
        let s = spec_decimal(n);
        assert(s.drop_last() =~= spec_decimal(n / 10));
        assert(n == (n / 10) * 10 + d);
        assert(s.last() == digit_char(d));
        assert(decimal_value(s) == decimal_value(s.drop_last()) * 10 + digit_val(s.last()));
        assert forall|i: int| 0 <= i < s.len() implies is_digit(#[trigger] s[i]) by {
            if i < s.len() - 1 {
                assert(s[i] == spec_decimal(n / 10)[i]);
            }
        }
    }
}

fn digit_char_of(d: u64) -> (c: char)
    requires
        d < 10,
    ensures
        c == digit_char(d as int),
{
    match d {
        0 => '0',
        1 => '1',
        2 => '2',
        3 => '3',
        4 => '4',
        5 => '5',
        6 => '6',
        7 => '7',
        8 => '8',
        _ => '9',
    }
}

/// Appends the decimal digits of `n`.
pub fn push_decimal(out: &mut Vec<char>, n: u64)
    ensures
        final(out)@ == old(out)@ + spec_decimal(n as nat),
    decreases n,
{
    if n >= 10 {
        push_decimal(out, n / 10);
    }
    out.push(digit_char_of(n % 10));
    assert(out@ =~= old(out)@ + spec_decimal(n as nat));
}

/// Appends `v` in decimal with a leading '-' when negative.
pub fn push_signed_decimal(out: &mut Vec<char>, v: i64)
    ensures
        final(out)@ == old(out)@ + spec_signed_decimal(v as int),
{
    if v < 0 {
        out.push('-');
        let m: u64 = if v == i64::MIN { 0x8000_0000_0000_0000u64 } else { (-v) as u64 };
        push_decimal(out, m);
        assert(out@ =~= old(out)@ + spec_signed_decimal(v as int));
    } else {
        push_decimal(out, v as u64);
    }
}

} // verus!
