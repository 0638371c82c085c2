//! Angles in fixed-point degrees, and their decimal text.
//!
//! An angle is a whole number of millionths of a degree. It is read from
//! decimal notation: an optional sign, digits with an optional point among
//! them, and an optional power of ten behind `e`. What lies beyond the sixth
//! decimal place of the value is dropped. It is written as plain decimal
//! digits, with a point only where decimal places follow.

use crate::decimal::{
    all_digits, append_decimal, ascii_bytes, decimal_text, digit_char, digit_run, digit_text,
    digits_value, is_digit, is_digit_byte, lemma_decimal_text_reads_back, lemma_digit_run,
    lemma_digits_value_concat, lemma_digits_value_push, lemma_digits_value_single,
    lemma_pow10_positive, lemma_pow10_sum, lemma_pow10_values, pow10, ZERO,
};
use vstd::prelude::*;
use vstd::slice::slice_subrange;
use vstd::string::StringExecFns;

verus! {

/// Number of angle units in one degree.
pub const UNITS_PER_DEGREE: i64 = 1_000_000;

/// Number of decimal places that an angle keeps.
pub const FRACTION_DIGITS: usize = 6;

/// ASCII code of the decimal point.
pub const POINT: u8 = 46;

/// ASCII code of the minus sign.
pub const MINUS: u8 = 45;

/// ASCII code of the plus sign.
pub const PLUS: u8 = 43;

/// ASCII code of `e`, which starts an exponent.
pub const LOWER_E: u8 = 101;

/// ASCII code of `E`, which starts an exponent as well.
pub const UPPER_E: u8 = 69;

/// Bound beyond which the size of an exponent no longer matters: it is
/// larger than the length of any text plus the digits of the largest angle.
pub const EXPONENT_CAP: i128 = 1_180_591_620_717_411_303_424;

/// An angle, held as a whole number of millionths of a degree.
#[derive(Clone, Copy, Debug, PartialEq, Eq, Structural)]
pub struct Angle {
    pub microdegrees: i64,
}

/// The number that the first `keep` digits of `digits` spell, where zeros
/// stand in for the digits that `digits` is too short for. No digit kept is
/// the number zero.
pub open spec fn scaled_value(digits: Seq<u8>, keep: int) -> nat {
    if keep <= 0 {
        0
    } else if keep <= digits.len() {
        digits_value(digits.take(keep))
    } else {
        digits_value(digits) * pow10((keep - digits.len()) as nat)
    }
}

/// The power of ten that the tail of a number asks for: zero for no tail,
/// else `e` or `E`, an optional sign and at least one digit. `None` for any
/// other tail.
pub open spec fn exponent(rest: Seq<u8>) -> Option<int> {
    if rest.len() == 0 {
        Some(0)
    } else if rest[0] == LOWER_E || rest[0] == UPPER_E {
        let signed = rest.len() > 1 && (rest[1] == MINUS || rest[1] == PLUS);
        let digits = if signed {
            rest.skip(2)
        } else {
            rest.skip(1)
        };
        if digits.len() > 0 && all_digits(digits) {
            if signed && rest[1] == MINUS {
                Some(-(digits_value(digits) as int))
            } else {
                Some(digits_value(digits) as int)
            }
        } else {
            None
        }
    } else {
        None
    }
}

/// The digits of a decimal number without its point: the digits before the
/// point end at `run`, the decimal places, if there are any, end at
/// `places_end`.
pub open spec fn spelled(body: Seq<u8>, run: int, places_end: int) -> Seq<u8> {
    if places_end > run {
        body.take(run) + body.subrange(run + 1, places_end)
    } else {
        body.take(run)
    }
}

/// The angle units that an unsigned decimal number stands for: digits with
/// at most one point among them and at least one digit in all, then an
/// optional exponent. The value is cut off after the sixth decimal place.
/// `None` where `body` is no such number.
pub open spec fn magnitude_units(body: Seq<u8>) -> Option<nat> {
    let run = digit_run(body) as int;
    let pointed = run < body.len() && body[run] == POINT;
    let places_end = if pointed {
        run + 1 + digit_run(body.skip(run + 1))
    } else {
        run
    };
    let digits = spelled(body, run, places_end);
    if digits.len() == 0 {
        None
    } else {
        match exponent(body.skip(places_end)) {
            Some(e) => Some(scaled_value(digits, run + FRACTION_DIGITS + e)),
            None => None,
        }
    }
}

/// The number `m` where it is at most `i64::MAX`, else `None`.
pub open spec fn fitting(m: nat) -> Option<u64> {
    if m > i64::MAX {
        None
    } else {
        Some(m as u64)
    }
}

/// The units of a magnitude that fits an angle, `None` for one that does
/// not and for no magnitude at all.
pub open spec fn bounded(magnitude: Option<nat>) -> Option<u64> {
    match magnitude {
        Some(m) => fitting(m),
        None => None,
    }
}

/// An exponent with its size cut down to [`EXPONENT_CAP`].
pub open spec fn capped(e: int) -> int {
    if e > EXPONENT_CAP {
        EXPONENT_CAP as int
    } else if e < -EXPONENT_CAP {
        -EXPONENT_CAP
    } else {
        e
    }
}

/// The angle units that a token stands for: an optional `+` or `-`, then an
/// unsigned decimal number of at most `i64::MAX` units. `None` for every other
/// token.
pub open spec fn token_units(token: Seq<u8>) -> Option<int> {
    let signed = token.len() > 0 && (token[0] == MINUS || token[0] == PLUS);
    let body = if signed {
        token.skip(1)
    } else {
        token
    };
    match magnitude_units(body) {
        Some(m) => if m > i64::MAX {
            None
        } else if signed && token[0] == MINUS {
            Some(-(m as int))
        } else {
            Some(m as int)
        },
        None => None,
    }
}

/// The decimal places of `fraction` out of `width` places, without trailing
/// zeros.
pub open spec fn fraction_text(fraction: nat, width: nat) -> Seq<char>
    decreases width,
{
    if width == 0 || fraction == 0 {
        Seq::empty()
    } else {
        let scale = pow10((width - 1) as nat);
        seq![digit_char((fraction / scale) as int)] + fraction_text(
            fraction % scale,
            (width - 1) as nat,
        )
    }
}

/// The text of an angle of `units` millionths of a degree: a `-` for a
/// negative angle, the whole degrees, and the decimal places that are not
/// zero, after a point.
pub open spec fn angle_text(units: int) -> Seq<char> {
    let magnitude = if units < 0 {
        -units
    } else {
        units
    };
    let whole = (magnitude / (UNITS_PER_DEGREE as int)) as nat;
    let fraction = (magnitude % (UNITS_PER_DEGREE as int)) as nat;
    let sign = if units < 0 {
        seq!['-']
    } else {
        Seq::<char>::empty()
    };
    let places = if fraction > 0 {
        seq!['.'] + fraction_text(fraction, FRACTION_DIGITS as nat)
    } else {
        Seq::<char>::empty()
    };
    sign + decimal_text(whole) + places
}

/// The decimal places that are written for a fraction are digits only, and
/// padded with zeros to the full width they spell the fraction.
pub proof fn lemma_fraction_text_reads_back(fraction: nat, width: nat)
    requires
        0 < fraction < pow10(width),
    ensures
        1 <= ascii_bytes(fraction_text(fraction, width)).len() <= width,
        all_digits(ascii_bytes(fraction_text(fraction, width))),
        digits_value(ascii_bytes(fraction_text(fraction, width))) * pow10(
            (width - ascii_bytes(fraction_text(fraction, width)).len()) as nat,
        ) == fraction,
    decreases width,
{
    let bytes = ascii_bytes(fraction_text(fraction, width));
    assert(width > 0) by {
        reveal_with_fuel(pow10, 1);
    }
    let scale = pow10((width - 1) as nat);
    assert(pow10(width) == 10 * scale);
    lemma_pow10_positive((width - 1) as nat);
    let digit = fraction / scale;
    let rest = fraction % scale;
    assert(digit < 10 && fraction == digit * scale + rest && rest < scale) by (nonlinear_arith)
        requires
            fraction < 10 * scale,
            scale > 0,
            digit == fraction / scale,
            rest == fraction % scale,
    ;
    let first = seq![(ZERO + digit) as u8];
    lemma_digits_value_single((ZERO + digit) as u8);
    assert(digits_value(first) == digit);
    if rest == 0 {
        assert(fraction_text(rest, (width - 1) as nat) =~= Seq::<char>::empty());
        assert(bytes =~= first);
    } else {
        lemma_fraction_text_reads_back(rest, (width - 1) as nat);
        let tail = ascii_bytes(fraction_text(rest, (width - 1) as nat));
        assert(bytes =~= first + tail);
        lemma_digits_value_concat(first, tail);
        let pad = pow10((width - 1 - tail.len()) as nat);
        lemma_pow10_sum(tail.len(), (width - 1 - tail.len()) as nat);
        assert((digit * pow10(tail.len()) + digits_value(tail)) * pad == digit * (pow10(
            tail.len(),
        ) * pad) + digits_value(tail) * pad) by (nonlinear_arith);
    }
}

/// A larger power of ten is not smaller.
pub proof fn lemma_pow10_grows(a: nat, b: nat)
    requires
        a <= b,
    ensures
        pow10(a) <= pow10(b),
    decreases b,
{
    if a < b {
        lemma_pow10_grows(a, (b - 1) as nat);
    }
}

/// Ten to the nineteenth is beyond any angle.
pub proof fn lemma_pow10_nineteen()
    ensures
        pow10(19) == 10_000_000_000_000_000_000,
{
    reveal_with_fuel(pow10, 20);
}

/// A number with zeros appended: it stays zero if it is zero, never gets
/// smaller, and is beyond any angle once nineteen zeros are appended to a
/// number that is not zero.
pub proof fn lemma_padded_value(value: nat, pad: nat, far: nat)
    requires
        pad <= far,
    ensures
        value == 0 ==> value * pow10(far) == 0,
        value * pow10(far) >= value,
        value >= 1 && pad >= 19 ==> value * pow10(far) > i64::MAX,
{
    lemma_pow10_positive(far);
    assert(value * pow10(far) >= value) by (nonlinear_arith)
        requires
            pow10(far) >= 1,
    ;
    if value == 0 {
        assert(value * pow10(far) == 0) by (nonlinear_arith)
            requires
                value == 0,
        ;
    }
    if value >= 1 && pad >= 19 {
        lemma_pow10_grows(19, far);
        lemma_pow10_nineteen();
        assert(value * pow10(far) >= pow10(19)) by (nonlinear_arith)
            requires
                value >= 1,
                pow10(far) >= pow10(19),
        ;
    }
}

/// The text of whole degrees reads back as the same number of degrees.
proof fn lemma_whole_reads_back(whole: nat)
    ensures
        magnitude_units(ascii_bytes(decimal_text(whole))) == Some(whole * 1_000_000),
        is_digit(ascii_bytes(decimal_text(whole))[0]),
{
    let body = ascii_bytes(decimal_text(whole));
    let run = body.len() as int;
    lemma_decimal_text_reads_back(whole);
    lemma_pow10_values();
    lemma_digit_run(body, run);
    assert(body.take(run) =~= body);
    assert(body.skip(run) =~= Seq::<u8>::empty());
    assert(spelled(body, run, run) == body);
    assert(exponent(body.skip(run)) == Some(0int));
    assert(scaled_value(body, run + 6) == whole * 1_000_000);
}

/// The text of degrees with decimal places reads back as the same number of
/// units.
proof fn lemma_places_read_back(whole: nat, fraction: nat)
    requires
        0 < fraction < 1_000_000,
    ensures
        magnitude_units(
            ascii_bytes(decimal_text(whole)) + seq![POINT] + ascii_bytes(
                fraction_text(fraction, 6),
            ),
        ) == Some(whole * 1_000_000 + fraction),
        is_digit(ascii_bytes(decimal_text(whole))[0]),
{
    let digits = ascii_bytes(decimal_text(whole));
    let written = ascii_bytes(fraction_text(fraction, 6));
    let body = digits + seq![POINT] + written;
    let run = digits.len() as int;
    let places_end = run + 1 + written.len();
    let all = digits + written;
    lemma_decimal_text_reads_back(whole);
    lemma_pow10_values();
    lemma_fraction_text_reads_back(fraction, 6);
    assert forall|k: int| 0 <= k < run implies is_digit(#[trigger] body[k]) by {
        assert(body[k] == digits[k]);
    }
    assert(body[run] == POINT);
    lemma_digit_run(body, run);
    assert(body.take(run) =~= digits);
    let tail = body.skip(run + 1);
    assert(tail =~= written);
    lemma_digit_run(tail, written.len() as int);
    assert(body.subrange(run + 1, places_end) =~= written);
    assert(spelled(body, run, places_end) == all);
    assert(body.skip(places_end) =~= Seq::<u8>::empty());
    assert(exponent(body.skip(places_end)) == Some(0int));
    lemma_places_scale(whole, digits, written, fraction);
}

/// The digits of the whole degrees followed by the decimal places that are
/// written spell, with six places kept, the units of the whole degrees plus
/// the fraction.
proof fn lemma_places_scale(whole: nat, digits: Seq<u8>, written: Seq<u8>, fraction: nat)
    requires
        digits_value(digits) == whole,
        1 <= written.len() <= 6,
        digits_value(written) * pow10((6 - written.len()) as nat) == fraction,
    ensures
        scaled_value(digits + written, digits.len() as int + 6) == whole * 1_000_000 + fraction,
{
    let all = digits + written;
    let pad = pow10((6 - written.len()) as nat);
    let shift = pow10(written.len());
    lemma_pow10_values();
    lemma_digits_value_concat(digits, written);
    lemma_pow10_sum(written.len(), (6 - written.len()) as nat);
    assert(shift * pad == 1_000_000);
    assert((whole * shift + digits_value(written)) * pad == whole * (shift * pad) + digits_value(
        written,
    ) * pad) by (nonlinear_arith);
    assert(digits_value(all) * pad == whole * 1_000_000 + fraction);
    if written.len() == 6 {
        assert(all.take(digits.len() as int + 6) =~= all);
        assert(pad == 1);
        assert(digits_value(all) * 1 == digits_value(all));
    }
}

/// The text of an angle reads back as the same angle.
pub proof fn lemma_text_reads_back(units: int)
    requires
        -i64::MAX <= units <= i64::MAX,
    ensures
        token_units(ascii_bytes(angle_text(units))) == Some(units),
{
    let magnitude = if units < 0 {
        -units
    } else {
        units
    };
    let whole = (magnitude / 1_000_000) as nat;
    let fraction = (magnitude % 1_000_000) as nat;
    let token = ascii_bytes(angle_text(units));
    let body = if fraction > 0 {
        ascii_bytes(decimal_text(whole)) + seq![POINT] + ascii_bytes(fraction_text(fraction, 6))
    } else {
        ascii_bytes(decimal_text(whole))
    };
    if fraction > 0 {
        lemma_places_read_back(whole, fraction);
    } else {
        lemma_whole_reads_back(whole);
    }
    lemma_decimal_text_reads_back(whole);
    assert(is_digit(body[0]));
    assert(magnitude_units(body) == Some(magnitude as nat));
    if units < 0 {
        assert(token =~= seq![MINUS] + body);
        assert(token.skip(1) =~= body);
    } else {
        assert(token =~= body);
    }
}

/// Finds the end of the digits that start at `from`.
fn scan_digits(body: &[u8], from: usize) -> (to: usize)
    requires
        from <= body@.len(),
    ensures
        from <= to <= body@.len(),
        to - from == digit_run(body@.skip(from as int)),
        forall|k: int| from <= k < to ==> is_digit(#[trigger] body@[k]),
{
    let n = body.len();
    let mut to: usize = from;
    while to < n && is_digit_byte(body[to])
        invariant
            from <= to <= n,
            n == body@.len(),
            forall|k: int| from <= k < to ==> is_digit(#[trigger] body@[k]),
        decreases n - to,
    {
        to = to + 1;
    }
    proof {
        let tail = body@.skip(from as int);
        assert forall|k: int| 0 <= k < to - from implies is_digit(#[trigger] tail[k]) by {
            assert(tail[k] == body@[from + k]);
        }
        lemma_digit_run(tail, to - from);
    }
    to
}

/// Reads the digits from `from` up to `to` onto the number `prior`: the
/// result is the number that the digits of `prior` followed by these digits
/// spell, or `None` where that number is beyond `i64::MAX`.
fn accumulate(body: &[u8], from: usize, to: usize, start: Option<u64>, Ghost(prior): Ghost<nat>) -> (r:
    Option<u64>)
    requires
        from <= to <= body@.len(),
        forall|k: int| from <= k < to ==> is_digit(#[trigger] body@[k]),
        start == fitting(prior),
    ensures
        r == fitting(
            prior * pow10((to - from) as nat) + digits_value(
                body@.subrange(from as int, to as int),
            ),
        ),
{
    let mut value = start;
    let mut at: usize = from;
    let ghost segment = body@.subrange(from as int, to as int);
    proof {
        assert(segment.take(0) =~= Seq::<u8>::empty());
        assert(digits_value(segment.take(0)) == 0);
        assert(pow10(0) == 1);
        assert(prior * pow10(0) == prior) by (nonlinear_arith)
            requires
                pow10(0) == 1,
        ;
    }
    while at < to
        invariant
            from <= at <= to <= body@.len(),
            segment == body@.subrange(from as int, to as int),
            forall|k: int| from <= k < to ==> is_digit(#[trigger] body@[k]),
            value == fitting(
                prior * pow10((at - from) as nat) + digits_value(segment.take(at - from)),
            ),
        decreases to - at,
    {
        proof {
            let scale = pow10((at - from) as nat);
            lemma_digits_value_push(segment, at - from);
            assert(segment[at - from] == body@[at as int]);
            assert(pow10((at + 1 - from) as nat) == 10 * scale);
            assert(prior * (10 * scale) == (prior * scale) * 10) by (nonlinear_arith);
        }
        value = match value {
            Some(v) => {
                let wide: u128 = v as u128 * 10 + (body[at] - ZERO) as u128;
                if wide > 9_223_372_036_854_775_807 {
                    None
                } else {
                    Some(wide as u64)
                }
            },
            None => None,
        };
        at = at + 1;
    }
    assert(segment.take(to - from) =~= segment);
    value
}

/// Appends `pad` zeros to the number `value`: the result is `value` times
/// ten to the `pad`, or `None` where that is beyond `i64::MAX`.
fn scale_up(value: u64, pad: usize) -> (r: Option<u64>)
    requires
        value <= i64::MAX,
    ensures
        r == fitting((value * pow10(pad as nat)) as nat),
{
    let mut scaled = Some(value);
    let mut done: usize = 0;
    proof {
        assert(pow10(0) == 1);
        assert(value * 1 == value);
    }
    while done < pad
        invariant
            done <= pad,
            scaled == fitting((value * pow10(done as nat)) as nat),
        decreases pad - done,
    {
        proof {
            let scale = pow10(done as nat);
            assert(pow10((done + 1) as nat) == 10 * scale);
            assert(value * (10 * scale) == (value * scale) * 10) by (nonlinear_arith);
        }
        scaled = match scaled {
            Some(v) => {
                let wide: u128 = v as u128 * 10;
                if wide > 9_223_372_036_854_775_807 {
                    None
                } else {
                    Some(wide as u64)
                }
            },
            None => None,
        };
        done = done + 1;
    }
    scaled
}

/// Reads the exponent that starts at `from`. Returns it with its size cut
/// down to [`EXPONENT_CAP`], or `None` where the tail is no exponent.
fn read_exponent(body: &[u8], from: usize) -> (r: Option<i128>)
    requires
        from <= body@.len(),
    ensures
        match r {
            Some(e) => exponent(body@.skip(from as int)) matches Some(exact) && e == capped(exact),
            None => exponent(body@.skip(from as int)) is None,
        },
{
    let n = body.len();
    let ghost rest = body@.skip(from as int);
    if from == n {
        return Some(0);
    }
    assert(rest[0] == body@[from as int]);
    if body[from] != LOWER_E && body[from] != UPPER_E {
        return None;
    }
    let signed = from + 1 < n && (body[from + 1] == MINUS || body[from + 1] == PLUS);
    let first: usize = if signed {
        from + 2
    } else {
        from + 1
    };
    let ghost digits = body@.skip(first as int);
    proof {
        if from + 1 < n {
            assert(rest[1] == body@[from + 1]);
        }
        assert(digits =~= if signed {
            rest.skip(2)
        } else {
            rest.skip(1)
        });
    }
    if first == n {
        return None;
    }
    let mut size: u128 = 0;
    let mut at: usize = first;
    assert(digits.take(0) =~= Seq::<u8>::empty());
    while at < n
        invariant
            first <= at <= n,
            first < n,
            n == body@.len(),
            rest == body@.skip(from as int),
            rest.len() > 0,
            rest[0] == LOWER_E || rest[0] == UPPER_E,
            signed == (rest.len() > 1 && (rest[1] == MINUS || rest[1] == PLUS)),
            digits == body@.skip(first as int),
            digits == if signed {
                rest.skip(2)
            } else {
                rest.skip(1)
            },
            forall|k: int| 0 <= k < at - first ==> is_digit(#[trigger] digits[k]),
            size <= EXPONENT_CAP,
            size == if digits_value(digits.take(at - first)) > EXPONENT_CAP {
                EXPONENT_CAP as nat
            } else {
                digits_value(digits.take(at - first))
            },
        decreases n - at,
    {
        assert(digits[at - first] == body@[at as int]);
        if !is_digit_byte(body[at]) {
            assert(!is_digit(digits[at - first]));
            return None;
        }
        proof {
            lemma_digits_value_push(digits, at - first);
        }
        let wide: u128 = size * 10 + (body[at] - ZERO) as u128;
        size = if wide > 1_180_591_620_717_411_303_424 {
            1_180_591_620_717_411_303_424
        } else {
            wide
        };
        at = at + 1;
    }
    assert(digits.take(n - first) =~= digits);
    assert(all_digits(digits));
    if signed && body[from + 1] == MINUS {
        Some(-(size as i128))
    } else {
        Some(size as i128)
    }
}

/// Reads the number that the first `taken` digits of a decimal number
/// spell, the point left out: the digits before the point end at `run`, the
/// decimal places end at `places_end`.
fn read_digits(body: &[u8], run: usize, places_end: usize, taken: usize) -> (r: Option<u64>)
    requires
        run <= places_end <= body@.len(),
        forall|k: int| 0 <= k < run ==> is_digit(#[trigger] body@[k]),
        forall|k: int| run < k < places_end ==> is_digit(#[trigger] body@[k]),
        taken <= spelled(body@, run as int, places_end as int).len(),
    ensures
        r == fitting(digits_value(spelled(body@, run as int, places_end as int).take(taken as int))),
{
    let ghost whole = body@.take(run as int);
    let ghost digits = spelled(body@, run as int, places_end as int);
    let from_whole: usize = if taken < run {
        taken
    } else {
        run
    };
    let from_places: usize = taken - from_whole;
    proof {
        assert(pow10(0) == 1);
        assert(body@.subrange(0, from_whole as int) =~= whole.take(from_whole as int));
        assert(digits_value(Seq::<u8>::empty()) == 0);
    }
    let high = accumulate(body, 0, from_whole, Some(0), Ghost(0));
    if from_places > 0 {
        let low = accumulate(
            body,
            run + 1,
            run + 1 + from_places,
            high,
            Ghost(digits_value(whole)),
        );
        proof {
            let kept = body@.subrange(run + 1, run + 1 + from_places);
            assert(whole.take(from_whole as int) =~= whole);
            assert(digits.take(taken as int) =~= whole + kept);
            lemma_digits_value_concat(whole, kept);
        }
        low
    } else {
        assert(digits.take(taken as int) =~= whole.take(from_whole as int));
        high
    }
}

/// Reads an unsigned decimal number. Returns its angle units where `body` is
/// such a number of at most `i64::MAX` units.
fn parse_magnitude(body: &[u8]) -> (r: Option<u64>)
    ensures
        r == bounded(magnitude_units(body@)),
{
    let n = body.len();
    assert(body@.skip(0) =~= body@);
    let run = scan_digits(body, 0);
    let pointed = run < n && body[run] == POINT;
    let places_end = if pointed {
        scan_digits(body, run + 1)
    } else {
        run
    };
    let length: usize = if pointed {
        places_end - 1
    } else {
        run
    };
    if length == 0 {
        return None;
    }
    let exact = match read_exponent(body, places_end) {
        Some(e) => e,
        None => {
            return None;
        },
    };
    let ghost digits = spelled(body@, run as int, places_end as int);
    let ghost power = exponent(body@.skip(places_end as int)).unwrap();
    let ghost wanted = run + 6 + power;
    assert(magnitude_units(body@) == Some(scaled_value(digits, wanted)));
    let keep: i128 = run as i128 + 6 + exact;
    if keep <= 0 {
        assert(wanted <= 0);
        return Some(0);
    }
    if keep <= length as i128 {
        assert(wanted == keep);
        return read_digits(body, run, places_end, keep as usize);
    }
    let pad: i128 = keep - length as i128;
    assert(wanted - length >= pad);
    assert(pad < 19 ==> wanted - length == pad);
    let number = read_digits(body, run, places_end, length);
    proof {
        assert(digits.take(length as int) =~= digits);
        assert(scaled_value(digits, wanted) == digits_value(digits) * pow10(
            (wanted - length) as nat,
        ));
        lemma_padded_value(digits_value(digits), pad as nat, (wanted - length) as nat);
    }
    match number {
        None => None,
        Some(value) => {
            if value == 0 {
                Some(0)
            } else if pad >= 19 {
                None
            } else {
                scale_up(value, pad as usize)
            }
        },
    }
}

/// Ten to the power `n`, for the powers that an angle's decimal places need.
fn power_of_ten(n: usize) -> (p: u64)
    requires
        n <= FRACTION_DIGITS,
    ensures
        p == pow10(n as nat),
{
    proof {
        lemma_pow10_values();
    }
    match n {
        0 => 1,
        1 => 10,
        2 => 100,
        3 => 1_000,
        4 => 10_000,
        5 => 100_000,
        _ => 1_000_000,
    }
}

/// Appends the decimal places of `fraction` out of `width` places to `text`,
/// stopping before the trailing zeros.
fn append_fraction(text: &mut String, fraction: u64, width: usize)
    requires
        width <= FRACTION_DIGITS,
        fraction < pow10(width as nat),
    ensures
        final(text)@ == old(text)@ + fraction_text(fraction as nat, width as nat),
    decreases width,
{
    if width == 0 || fraction == 0 {
        assert(text@ =~= old(text)@ + fraction_text(fraction as nat, width as nat));
    } else {
        let scale = power_of_ten(width - 1);
        proof {
            assert(pow10(width as nat) == 10 * pow10((width - 1) as nat));
            assert(fraction / scale < 10) by (nonlinear_arith)
                requires
                    fraction < 10 * scale,
                    scale > 0,
            ;
            assert(fraction % scale < scale) by (nonlinear_arith)
                requires
                    scale > 0,
            ;
        }
        text.append(digit_text((fraction / scale) as u8));
        append_fraction(text, fraction % scale, width - 1);
        assert(text@ =~= old(text)@ + fraction_text(fraction as nat, width as nat));
    }
}

impl Angle {
    /// The angle of `degrees` whole degrees.
    pub fn from_degrees(degrees: i32) -> (angle: Angle)
        ensures
            angle.microdegrees == degrees * UNITS_PER_DEGREE,
    {
        let wide: i64 = degrees as i64;
        Angle { microdegrees: wide * UNITS_PER_DEGREE }
    }

    /// The decimal text of the angle: `90` for ninety degrees, `-0.5` for half
    /// a degree below zero.
    pub fn to_text(&self) -> (text: String)
        ensures
            text@ == angle_text(self.microdegrees as int),
    {
        let negative = self.microdegrees < 0;
        let wide: i128 = self.microdegrees as i128;
        let magnitude: u64 = if negative {
            (-wide) as u64
        } else {
            wide as u64
        };
        let whole: u64 = magnitude / 1_000_000;
        let fraction: u64 = magnitude % 1_000_000;
        let mut text = String::new();
        if negative {
            proof {
                reveal_strlit("-");
            }
            text.append("-");
        }
        append_decimal(&mut text, whole);
        if fraction > 0 {
            proof {
                reveal_strlit(".");
                lemma_pow10_values();
            }
            text.append(".");
            append_fraction(&mut text, fraction, FRACTION_DIGITS);
        }
        assert(text@ =~= angle_text(self.microdegrees as int));
        text
    }

    /// Reads an angle from one token of decimal text, such as `90`, `-12.5`,
    /// `.25` or `1.8e2`.
    ///
    /// Returns `None` where the token is not a decimal number, or where the
    /// number lies beyond `i64::MAX` millionths of a degree.
    pub fn parse(token: &[u8]) -> (r: Option<Angle>)
        ensures
            match r {
                Some(angle) => token_units(token@) == Some(angle.microdegrees as int),
                None => token_units(token@) is None,
            },
    {
        let n = token.len();
        let signed = n > 0 && (token[0] == MINUS || token[0] == PLUS);
        let body = if signed {
            slice_subrange(token, 1, n)
        } else {
            token
        };
        assert(body@ =~= if signed {
            token@.skip(1)
        } else {
            token@
        });
        match parse_magnitude(body) {
            Some(m) => {
                let units: i64 = m as i64;
                if signed && token[0] == MINUS {
                    Some(Angle { microdegrees: -units })
                } else {
                    Some(Angle { microdegrees: units })
                }
            },
            None => None,
        }
    }
}

} // verus!
