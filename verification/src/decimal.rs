//! Decimal digits: the number that a run of digits spells, and the digits
//! that spell a number.

use vstd::prelude::*;
use vstd::string::StringExecFns;

verus! {

/// ASCII code of the digit `0`.
pub const ZERO: u8 = 48;

/// ASCII code of the digit `9`.
pub const NINE: u8 = 57;

/// Whether `b` is an ASCII decimal digit.
pub open spec fn is_digit(b: u8) -> bool {
    ZERO <= b && b <= NINE
}

/// The number that the digit `b` stands for.
pub open spec fn digit_value(b: u8) -> nat {
    (b - ZERO) as nat
}

/// Whether every byte of `s` is a decimal digit.
pub open spec fn all_digits(s: Seq<u8>) -> bool {
    forall|i: int| 0 <= i < s.len() ==> is_digit(#[trigger] s[i])
}

/// The number that the decimal digits `s` spell; `0` for no digits.
pub open spec fn digits_value(s: Seq<u8>) -> nat
    decreases s.len(),
{
    if s.len() == 0 {
        0
    } else {
        digits_value(s.drop_last()) * 10 + digit_value(s.last())
    }
}

/// Ten to the power `n`.
pub open spec fn pow10(n: nat) -> nat
    decreases n,
{
    if n == 0 {
        1
    } else {
        10 * pow10((n - 1) as nat)
    }
}

/// Length of the longest prefix of `s` that holds digits only.
pub open spec fn digit_run(s: Seq<u8>) -> nat
    decreases s.len(),
{
    if s.len() == 0 || !is_digit(s[0]) {
        0
    } else {
        1 + digit_run(s.skip(1))
    }
}

/// The character of the decimal digit `d`.
pub open spec fn digit_char(d: int) -> char {
    ((ZERO + d) as u8) as char
}

/// The decimal digits of `n`, without leading zeros.
pub open spec fn decimal_text(n: nat) -> Seq<char>
    decreases n,
{
    if n < 10 {
        seq![digit_char(n as int)]
    } else {
        decimal_text(n / 10).push(digit_char((n % 10) as int))
    }
}

/// The powers of ten up to the sixth.
pub proof fn lemma_pow10_values()
    ensures
        pow10(0) == 1,
        pow10(1) == 10,
        pow10(2) == 100,
        pow10(3) == 1_000,
        pow10(4) == 10_000,
        pow10(5) == 100_000,
        pow10(6) == 1_000_000,
{
    reveal_with_fuel(pow10, 7);
}

/// A prefix of digits that ends at the end of `s` or at a byte that is no
/// digit is the digit run of `s`.
pub proof fn lemma_digit_run(s: Seq<u8>, n: int)
    requires
        0 <= n <= s.len(),
        forall|k: int| 0 <= k < n ==> is_digit(#[trigger] s[k]),
        n == s.len() || !is_digit(s[n]),
    ensures
        digit_run(s) == n,
    decreases n,
{
    if n > 0 {
        let rest = s.skip(1);
        assert forall|k: int| 0 <= k < n - 1 implies is_digit(#[trigger] rest[k]) by {
            assert(rest[k] == s[k + 1]);
        }
        lemma_digit_run(rest, n - 1);
    }
}

/// Appending one digit multiplies the value by ten and adds the digit.
pub proof fn lemma_digits_value_push(s: Seq<u8>, n: int)
    requires
        0 <= n < s.len(),
    ensures
        digits_value(s.take(n + 1)) == digits_value(s.take(n)) * 10 + digit_value(s[n]),
{
    assert(s.take(n + 1).drop_last() =~= s.take(n));
}

/// The bytes of a text whose characters are all ASCII.
pub open spec fn ascii_bytes(text: Seq<char>) -> Seq<u8> {
    Seq::new(text.len(), |i: int| text[i] as u8)
}

/// One digit spells its own value.
pub proof fn lemma_digits_value_single(d: u8)
    ensures
        digits_value(seq![d]) == digit_value(d),
{
    assert(seq![d].drop_last() =~= Seq::<u8>::empty());
    assert(digits_value(Seq::<u8>::empty()) == 0);
}

/// The digits `a` followed by the digits `b` spell the number of `a`, moved
/// left by the length of `b`, plus the number of `b`.
pub proof fn lemma_digits_value_concat(a: Seq<u8>, b: Seq<u8>)
    ensures
        digits_value(a + b) == digits_value(a) * pow10(b.len()) + digits_value(b),
    decreases b.len(),
{
    if b.len() == 0 {
        assert(a + b =~= a);
        assert(pow10(0) == 1);
        assert(digits_value(b) == 0);
    } else {
        let front = b.drop_last();
        assert((a + b).drop_last() =~= a + front);
        assert((a + b).last() == b.last());
        lemma_digits_value_concat(a, front);
        let high = digits_value(a);
        let scale = pow10(front.len());
        assert(pow10(b.len()) == 10 * scale);
        assert(digits_value(a + b) == (high * scale + digits_value(front)) * 10 + digit_value(
            b.last(),
        ));
        assert(digits_value(b) == digits_value(front) * 10 + digit_value(b.last()));
        assert(high * (10 * scale) == (high * scale) * 10) by (nonlinear_arith);
    }
}

/// The decimal text of a number is digits only and spells the number.
pub proof fn lemma_decimal_text_reads_back(n: nat)
    ensures
        ascii_bytes(decimal_text(n)).len() >= 1,
        all_digits(ascii_bytes(decimal_text(n))),
        digits_value(ascii_bytes(decimal_text(n))) == n,
    decreases n,
{
    let bytes = ascii_bytes(decimal_text(n));
    if n < 10 {
        assert(bytes =~= seq![(ZERO + n) as u8]);
        lemma_digits_value_single((ZERO + n) as u8);
    } else {
        lemma_decimal_text_reads_back(n / 10);
        let front = ascii_bytes(decimal_text(n / 10));
        assert(bytes =~= front.push((ZERO + n % 10) as u8));
        assert(bytes.drop_last() =~= front);
    }
}

/// Ten to any power is positive.
pub proof fn lemma_pow10_positive(n: nat)
    ensures
        pow10(n) > 0,
    decreases n,
{
    if n > 0 {
        lemma_pow10_positive((n - 1) as nat);
    }
}

/// Ten to a sum is the product of the powers.
pub proof fn lemma_pow10_sum(a: nat, b: nat)
    ensures
        pow10(a + b) == pow10(a) * pow10(b),
    decreases a,
{
    if a == 0 {
        assert(pow10(0) == 1);
        assert(pow10(a + b) == pow10(b));
    } else {
        lemma_pow10_sum((a - 1) as nat, b);
        let low = pow10((a - 1) as nat);
        assert(pow10(a) == 10 * low);
        assert(pow10(a + b) == 10 * pow10((a - 1 + b) as nat));
        assert(10 * (low * pow10(b)) == (10 * low) * pow10(b)) by (nonlinear_arith);
    }
}

/// Whether `b` is an ASCII decimal digit.
pub(crate) fn is_digit_byte(b: u8) -> (r: bool)
    ensures
        r == is_digit(b),
{
    b >= ZERO && b <= NINE
}

/// The one-character text of the decimal digit `d`.
pub(crate) fn digit_text(d: u8) -> (text: &'static str)
    requires
        d < 10,
    ensures
        text@ == seq![digit_char(d as int)],
{
    proof {
        reveal_strlit("0");
        reveal_strlit("1");
        reveal_strlit("2");
        reveal_strlit("3");
        reveal_strlit("4");
        reveal_strlit("5");
        reveal_strlit("6");
        reveal_strlit("7");
        reveal_strlit("8");
        reveal_strlit("9");
    }
    let text = match d {
        0 => "0",
        1 => "1",
        2 => "2",
        3 => "3",
        4 => "4",
        5 => "5",
        6 => "6",
        7 => "7",
        8 => "8",
        _ => "9",
    };
    assert(text@ =~= seq![digit_char(d as int)]);
    text
}

/// Appends the decimal digits of `n` to `text`.
pub fn append_decimal(text: &mut String, n: u64)
    ensures
        final(text)@ == old(text)@ + decimal_text(n as nat),
    decreases n,
{
    if n < 10 {
        text.append(digit_text(n as u8));
    } else {
        append_decimal(text, n / 10);
        text.append(digit_text((n % 10) as u8));
        assert(text@ =~= old(text)@ + decimal_text(n as nat));
    }
}

} // verus!
