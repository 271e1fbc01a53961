//! Rendering of unsigned integers as text, in decimal, octal and
//! hexadecimal, for level labels and timestamp prefixes.

use vstd::prelude::*;
use crate::text::Text;

verus! {

/// The character for one digit value below sixteen: `0`–`9` then
/// `a`–`f`.
pub open spec fn digit_char(d: int) -> char {
    if d < 10 {
        ((48 + d) as u8) as char
    } else {
        ((87 + d) as u8) as char
    }
}

/// The digits of `n` in the given base, most significant first, with
/// no leading zeros; zero itself has no digits.
pub open spec fn digits(n: nat, base: nat) -> Seq<char>
    decreases n when base >= 2 via digits_decreases
{
    if n == 0 {
        Seq::empty()
    } else {
        digits(n / base, base) + seq![digit_char((n % base) as int)]
    }
}

#[via_fn]
proof fn digits_decreases(n: nat, base: nat) {
    if n != 0 {
        vstd::arithmetic::div_mod::lemma_div_decreases(n as int, base as int);
    }
}

/// The rendering of `n`: its digits, except that zero renders as `0`
/// when `zero_as_digit` is set and as the empty text otherwise.
pub open spec fn number_text(n: nat, base: nat, zero_as_digit: bool) -> Seq<char> {
    if n == 0 && zero_as_digit {
        seq!['0']
    } else {
        digits(n, base)
    }
}

/// The character for one digit value below sixteen.
pub fn digit_char_of(d: u8) -> (c: char)
    requires
        d < 16,
    ensures
        c == digit_char(d as int),
{
    if d < 10 {
        (48 + d) as char
    } else {
        (87 + d) as char
    }
}

/// Renders `n` in the given base by repeatedly splitting off the
/// lowest digit and prefixing it.
pub fn radix_text(n: u128, base: u128, zero_as_digit: bool) -> (t: Text)
    requires
        2 <= base <= 16,
    ensures
        t@ == number_text(n as nat, base as nat, zero_as_digit),
        t@.len() <= 128,
{
    proof {
        vstd::arithmetic::power2::lemma2_to64();
        vstd::arithmetic::power2::lemma_pow2_adds(64, 64);
        assert(n < vstd::arithmetic::power2::pow2(128));
    }
    let mut t = Text::new();
    let mut num = n;
    while num != 0
        invariant
            2 <= base <= 16,
            t@.len() <= 128,
            (num as nat) < vstd::arithmetic::power2::pow2((128 - t@.len()) as nat),
            digits(n as nat, base as nat) == digits(num as nat, base as nat) + t@,
        decreases num,
    {
        let d = (num % base) as u8;
        proof {
            lemma_digit_step(num as nat, base as nat, t@);
        }
        t.insert(0, digit_char_of(d));
        num = num / base;
    }
    proof {
        assert(digits(n as nat, base as nat) =~= t@);
    }
    if zero_as_digit && t.is_empty() {
        proof {
            if n != 0 {
                assert(digits(n as nat, base as nat).len() > 0);
            }
        }
        t.insert(0, '0');
        proof {
            assert(t@ =~= seq!['0']);
        }
    }
    t
}

/// One loop step of `radix_text`: splitting off the lowest digit keeps
/// the accumulated text a suffix of the full rendering, and the
/// remaining value under an ever-smaller power of two.
proof fn lemma_digit_step(num: nat, base: nat, acc: Seq<char>)
    requires
        2 <= base <= 16,
        num > 0,
        acc.len() <= 128,
        num < vstd::arithmetic::power2::pow2((128 - acc.len()) as nat),
    ensures
        acc.len() < 128,
        num / base < vstd::arithmetic::power2::pow2((128 - (acc.len() + 1)) as nat),
        digits(num, base) + acc =~= digits(num / base, base) + (seq![
            digit_char((num % base) as int),
        ] + acc),
{
    if acc.len() == 128 {
        assert(vstd::arithmetic::power2::pow2(0) == 1) by {
            vstd::arithmetic::power2::lemma2_to64();
        }
        assert(false);
    }
    let k = (128 - (acc.len() + 1)) as nat;
    vstd::arithmetic::power2::lemma_pow2_adds(1, k);
    vstd::arithmetic::power2::lemma2_to64();
    assert(vstd::arithmetic::power2::pow2((128 - acc.len()) as nat) == 2
        * vstd::arithmetic::power2::pow2(k));
    vstd::arithmetic::div_mod::lemma_div_is_ordered_by_denominator(num as int, 2, base as int);
    assert(num / base <= num / 2);
    assert(num / 2 < vstd::arithmetic::power2::pow2(k)) by {
        vstd::arithmetic::div_mod::lemma_div_is_ordered(
            num as int,
            2 * vstd::arithmetic::power2::pow2(k) as int - 1,
            2,
        );
        assert((2 * vstd::arithmetic::power2::pow2(k) as int - 1) / 2
            == vstd::arithmetic::power2::pow2(k) as int - 1) by (nonlinear_arith);
    }
}

/// Conversion to text in decimal, octal and hexadecimal. The abstract
/// value rendered is `text_value`; `zero_as_digit` tells whether the
/// value zero renders as `0` or as the empty text.
pub trait ToText {
    spec fn text_value(&self) -> nat;

    spec fn zero_as_digit(&self) -> bool;

    fn to_text(&self) -> (t: Text)
        ensures
            t@ == number_text(self.text_value(), 10, self.zero_as_digit()),
    ;

    fn to_octal_text(&self) -> (t: Text)
        ensures
            t@ == number_text(self.text_value(), 8, self.zero_as_digit()),
    ;

    fn to_hex_text(&self) -> (t: Text)
        ensures
            t@ == number_text(self.text_value(), 16, self.zero_as_digit()),
    ;
}

/// Renders zero as the empty text, as the narrowest integer always
/// did.
impl ToText for u8 {
    open spec fn text_value(&self) -> nat {
        *self as nat
    }

    open spec fn zero_as_digit(&self) -> bool {
        false
    }

    fn to_text(&self) -> (t: Text) {
        radix_text(*self as u128, 10, false)
    }

    fn to_octal_text(&self) -> (t: Text) {
        radix_text(*self as u128, 8, false)
    }

    fn to_hex_text(&self) -> (t: Text) {
        radix_text(*self as u128, 16, false)
    }
}

impl ToText for u16 {
    open spec fn text_value(&self) -> nat {
        *self as nat
    }

    open spec fn zero_as_digit(&self) -> bool {
        true
    }

    fn to_text(&self) -> (t: Text) {
        radix_text(*self as u128, 10, true)
    }

    fn to_octal_text(&self) -> (t: Text) {
        radix_text(*self as u128, 8, true)
    }

    fn to_hex_text(&self) -> (t: Text) {
        radix_text(*self as u128, 16, true)
    }
}

impl ToText for u32 {
    open spec fn text_value(&self) -> nat {
        *self as nat
    }

    open spec fn zero_as_digit(&self) -> bool {
        true
    }

    fn to_text(&self) -> (t: Text) {
        radix_text(*self as u128, 10, true)
    }

    fn to_octal_text(&self) -> (t: Text) {
        radix_text(*self as u128, 8, true)
    }

    fn to_hex_text(&self) -> (t: Text) {
        radix_text(*self as u128, 16, true)
    }
}

impl ToText for u64 {
    open spec fn text_value(&self) -> nat {
        *self as nat
    }

    open spec fn zero_as_digit(&self) -> bool {
        true
    }

    fn to_text(&self) -> (t: Text) {
        radix_text(*self as u128, 10, true)
    }

    fn to_octal_text(&self) -> (t: Text) {
        radix_text(*self as u128, 8, true)
    }

    fn to_hex_text(&self) -> (t: Text) {
        radix_text(*self as u128, 16, true)
    }
}

impl ToText for u128 {
    open spec fn text_value(&self) -> nat {
        *self as nat
    }

    open spec fn zero_as_digit(&self) -> bool {
        true
    }

    fn to_text(&self) -> (t: Text) {
        radix_text(*self, 10, true)
    }

    fn to_octal_text(&self) -> (t: Text) {
        radix_text(*self, 8, true)
    }

    fn to_hex_text(&self) -> (t: Text) {
        radix_text(*self, 16, true)
    }
}

impl ToText for usize {
    open spec fn text_value(&self) -> nat {
        *self as nat
    }

    open spec fn zero_as_digit(&self) -> bool {
        true
    }

    fn to_text(&self) -> (t: Text) {
        radix_text(*self as u128, 10, true)
    }

    fn to_octal_text(&self) -> (t: Text) {
        radix_text(*self as u128, 8, true)
    }

    fn to_hex_text(&self) -> (t: Text) {
        radix_text(*self as u128, 16, true)
    }
}

} // verus!
