//! Decimal numbers in text.

use vstd::prelude::*;

verus! {

/// Whether `c` is one of the ten decimal digits.
pub open spec fn is_digit(c: char) -> bool {
    '0' <= c <= '9'
}

/// Whether `s` holds nothing but decimal digits.
pub open spec fn all_digits(s: Seq<char>) -> bool {
    forall|i: int| 0 <= i < s.len() ==> is_digit(#[trigger] s[i])
}

/// The number that the decimal digits `s` stand for.
pub open spec fn digits_value(s: Seq<char>) -> nat
    decreases s.len(),
{
    if s.len() == 0 {
        0
    } else {
        (digits_value(s.drop_last()) * 10 + (s.last() as int - '0' as int)) as nat
    }
}

/// `s` without a plus sign in front.
pub open spec fn without_plus(s: Seq<char>) -> Seq<char> {
    if s.len() > 0 && s[0] == '+' {
        s.skip(1)
    } else {
        s
    }
}

/// The 32-bit number that `s` spells: an optional plus sign and at least one
/// decimal digit, nothing else, and a value that fits.
pub open spec fn spelled_u32(s: Seq<char>) -> Option<u32> {
    let digits = without_plus(s);
    if digits.len() > 0 && all_digits(digits) && digits_value(digits) <= u32::MAX {
        Some(digits_value(digits) as u32)
    } else {
        None
    }
}

/// The digit for `d`, which is less than ten.
pub open spec fn digit_char(d: nat) -> char {
    ('0' as int + d) as char
}

/// The decimal digits of `n`, without leading zeros.
pub open spec fn decimal(n: nat) -> Seq<char>
    decreases n,
{
    if n < 10 {
        seq![digit_char(n)]
    } else {
        decimal(n / 10).push(digit_char(n % 10))
    }
}

/// `n` in decimal, with a minus sign in front where it is negative.
pub open spec fn signed_decimal(n: int) -> Seq<char> {
    if n < 0 {
        seq!['-'] + decimal((-n) as nat)
    } else {
        decimal(n as nat)
    }
}

/// Reads an unsigned 32-bit number.
pub fn parse_u32(s: &[char]) -> (n: Option<u32>)
    ensures
        n == spelled_u32(s@),
{
    let start: usize = if s.len() > 0 && s[0] == '+' {
        1
    } else {
        0
    };
    let ghost digits = without_plus(s@);
    assert(digits == s@.skip(start as int));
    if start == s.len() {
        return None;
    }
    let mut value: u64 = 0;
    let mut fits: bool = true;
    assert(digits.take(0) == Seq::<char>::empty());
    for i in start..s.len()
        invariant
            start <= s@.len(),
            digits == without_plus(s@),
            digits == s@.skip(start as int),
            all_digits(digits.take(i - start)),
            fits ==> value == digits_value(digits.take(i - start)) && value <= u32::MAX,
            !fits ==> digits_value(digits.take(i - start)) > u32::MAX,
    {
        let c: char = s[i];
        let ghost prefix = digits.take(i - start);
        let ghost longer = digits.take(i + 1 - start);
        assert(longer.drop_last() == prefix);
        assert(longer.last() == c);
        if c < '0' || c > '9' {
            assert(!is_digit(digits[i - start]));
            return None;
        }
        assert(longer == prefix.push(c));
        if fits {
            value = value * 10 + (c as u64 - '0' as u64);
            if value > u32::MAX as u64 {
                fits = false;
            }
        }
    }
    assert(digits.take(digits.len() as int) == digits);
    if fits {
        Some(value as u32)
    } else {
        None
    }
}

/// The character for one decimal digit.
fn digit(d: u64) -> (c: char)
    requires
        d < 10,
    ensures
        c == digit_char(d as nat),
{
    (48 + d as u8) as char
}

/// Writes `n` in decimal at the end of `out`.
fn push_decimal(out: &mut String, n: u64)
    ensures
        final(out)@ == old(out)@ + decimal(n as nat),
    decreases n,
{
    if n >= 10 {
        push_decimal(out, n / 10);
    }
    out.push(digit(n % 10));
}

/// Writes `n` in decimal at the end of `out`.
pub fn push_i32(out: &mut String, n: i32)
    ensures
        final(out)@ == old(out)@ + signed_decimal(n as int),
{
    let wide: i64 = n as i64;
    if wide < 0 {
        out.push('-');
        push_decimal(out, (-wide) as u64);
    } else {
        push_decimal(out, wide as u64);
    }
}

} // verus!
