//! What decimal numbers in text stand for.

use crate::number::{
    all_digits, decimal, digit_char, digits_value, is_digit, signed_decimal, spelled_u32,
    without_plus,
};
use vstd::prelude::*;

verus! {

/// Whether `s` holds nothing but zeros.
pub open spec fn all_zeros(s: Seq<char>) -> bool {
    forall|i: int| 0 <= i < s.len() ==> #[trigger] s[i] == '0'
}

/// The digits are the ten decimal ones, and each stands for its place among them.
pub proof fn law_digits_are_the_ten(c: char, d: nat)
    ensures
        is_digit(c) <==> "0123456789"@.contains(c),
        d < 10 ==> digit_char(d) == "0123456789"@[d as int],
{
    reveal_strlit("0123456789");
    let digits = "0123456789"@;
    if is_digit(c) {
        let k = c as int - '0' as int;
        assert(digits[k] == c);
    }
}

/// Digits are read from left to right, in tens.
pub proof fn law_digits_are_read_in_tens(s: Seq<char>, d: nat)
    requires
        d < 10,
    ensures
        digits_value(Seq::<char>::empty()) == 0,
        digits_value(s.push("0123456789"@[d as int])) == 10 * digits_value(s) + d,
{
    reveal_strlit("0123456789");
    law_digits_are_the_ten('0', d);
    let longer = s.push("0123456789"@[d as int]);
    assert(longer.drop_last() == s);
}

/// A number is written in decimal digits that stand for it, without leading zeros.
pub proof fn law_decimal_stands_for_its_number(n: nat)
    ensures
        decimal(n).len() > 0,
        all_digits(decimal(n)),
        digits_value(decimal(n)) == n,
        n == 0 ==> decimal(n) == seq!['0'],
        n > 0 ==> decimal(n)[0] != '0',
    decreases n,
{
    if n < 10 {
        let s = decimal(n);
        assert(s.drop_last() == Seq::<char>::empty());
        assert(digits_value(s.drop_last()) == 0);
        assert(s.last() as int - '0' as int == n);
    } else {
        law_decimal_stands_for_its_number(n / 10);
        let front = decimal(n / 10);
        let s = decimal(n);
        assert(s.drop_last() == front);
        assert(is_digit(s.last()));
        assert forall|i: int| 0 <= i < s.len() implies is_digit(#[trigger] s[i]) by {
            if i < front.len() {
                assert(s[i] == front[i]);
            }
        }
        assert(s[0] == front[0]);
    }
}

/// A signed number is written as its magnitude, behind a minus sign exactly where
/// it is negative.
pub proof fn law_signed_decimal_stands_for_its_number(n: int)
    ensures
        n >= 0 ==> signed_decimal(n) == decimal(n as nat),
        n < 0 ==> signed_decimal(n) == seq!['-'] + decimal((-n) as nat),
        n >= 0 ==> digits_value(signed_decimal(n)) == n,
        n < 0 ==> digits_value(signed_decimal(n).skip(1)) == -n,
{
    if n >= 0 {
        law_decimal_stands_for_its_number(n as nat);
    } else {
        law_decimal_stands_for_its_number((-n) as nat);
        assert(signed_decimal(n).skip(1) == decimal((-n) as nat));
    }
}

proof fn lemma_zeros(zeros: Seq<char>, s: Seq<char>)
    requires
        all_zeros(zeros),
    ensures
        digits_value(zeros + s) == digits_value(s),
    decreases s.len(), zeros.len(),
{
    if s.len() > 0 {
        lemma_zeros(zeros, s.drop_last());
        assert((zeros + s).drop_last() == zeros + s.drop_last());
    } else if zeros.len() > 0 {
        let less = zeros.drop_last();
        assert forall|i: int| 0 <= i < less.len() implies #[trigger] less[i] == '0' by {
            assert(less[i] == zeros[i]);
        }
        lemma_zeros(less, s);
        assert(less + s == less);
        assert(zeros + s == zeros);
        assert(zeros.last() == zeros[zeros.len() - 1]);
    } else {
        assert(zeros + s == s);
    }
}

/// Digits are the decimal digits of what they stand for, behind zeros.
proof fn lemma_canonical(s: Seq<char>) -> (zeros: Seq<char>)
    requires
        s.len() > 0,
        all_digits(s),
    ensures
        all_zeros(zeros),
        s == zeros + decimal(digits_value(s)),
    decreases s.len(),
{
    let front = s.drop_last();
    let last = s[s.len() - 1];
    assert(is_digit(last));
    let d = (last as int - '0' as int) as nat;
    assert(digit_char(d) == last);
    let v = digits_value(s);
    assert(v == digits_value(front) * 10 + d);
    if front.len() == 0 {
        assert(digits_value(front) == 0);
        assert(s == seq![last]);
        assert(Seq::<char>::empty() + decimal(v) == s);
        Seq::empty()
    } else {
        assert forall|i: int| 0 <= i < front.len() implies is_digit(#[trigger] front[i]) by {
            assert(front[i] == s[i]);
        }
        let zeros = lemma_canonical(front);
        let f = digits_value(front);
        assert(s == front.push(last));
        if f == 0 {
            assert(decimal(f) == seq!['0']);
            assert forall|i: int| 0 <= i < front.len() implies #[trigger] front[i] == '0' by {
                if i < zeros.len() {
                    assert(front[i] == zeros[i]);
                }
            }
            assert(s == front + decimal(v));
            front
        } else {
            assert(v / 10 == f && v % 10 == d);
            assert(decimal(v) == decimal(f).push(last));
            assert(s == zeros + decimal(v));
            zeros
        }
    }
}

/// A text spells a number exactly where it is the decimal digits of the number,
/// behind any zeros and one plus sign at most.
pub proof fn law_spelled_number_is_its_decimal(s: Seq<char>, n: u32)
    ensures
        spelled_u32(s) == Some(n) <==> exists|zeros: Seq<char>| #[trigger]
            all_zeros(zeros) && (s == zeros + decimal(n as nat) || s == seq!['+'] + zeros + decimal(
                n as nat,
            )),
{
    if spelled_u32(s) == Some(n) {
        let digits = without_plus(s);
        let zeros = lemma_canonical(digits);
        assert(digits_value(digits) == n);
        if s.len() > 0 && s[0] == '+' {
            assert(s == seq!['+'] + digits);
            assert(s == seq!['+'] + zeros + decimal(n as nat));
        }
        assert(all_zeros(zeros));
    }
    if exists|zeros: Seq<char>| #[trigger]
        all_zeros(zeros) && (s == zeros + decimal(n as nat) || s == seq!['+'] + zeros + decimal(
            n as nat,
        )) {
        let zeros = choose|zeros: Seq<char>| #[trigger]
            all_zeros(zeros) && (s == zeros + decimal(n as nat) || s == seq!['+'] + zeros + decimal(
                n as nat,
            ));
        let own = decimal(n as nat);
        let digits = zeros + own;
        law_decimal_stands_for_its_number(n as nat);
        lemma_zeros(zeros, own);
        assert forall|i: int| 0 <= i < digits.len() implies is_digit(#[trigger] digits[i]) by {
            if i < zeros.len() {
                assert(zeros[i] == '0');
            } else {
                assert(digits[i] == own[i - zeros.len()]);
            }
        }
        assert(is_digit(digits[0]));
        if s == digits {
            assert(without_plus(s) == digits);
        } else {
            assert(s[0] == '+');
            assert(s.skip(1) == digits);
        }
    }
}

} // verus!
