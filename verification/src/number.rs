//! Numeric literals: digits with at most one decimal point among them, and
//! after them, optionally, an exponent.

use crate::value::{
    lemma_pow10_monotonic, lemma_pow10_positive, pow10, power_of_ten, Decimal, Value, ValueView,
    MAX_SCALE,
};
use vstd::prelude::*;
use vstd::string::StrSliceExecFns;

verus! {

/// The largest exponent, in either direction, that a literal may carry.
pub const MAX_EXPONENT: i64 = 1000;

/// Whether `c` is one of `0` to `9`.
pub open spec fn is_digit(c: char) -> bool {
    '0' <= c <= '9'
}

/// Whether `c` starts an exponent: `e` or `E`.
pub open spec fn is_mark(c: char) -> bool {
    c == 'e' || c == 'E'
}

/// Whether `c` is a sign: `+` or `-`.
pub open spec fn is_sign(c: char) -> bool {
    c == '+' || c == '-'
}

/// Whether every character of `s` is a digit.
pub open spec fn all_digits(s: Seq<char>) -> bool {
    forall|i: int| 0 <= i < s.len() ==> is_digit(#[trigger] s[i])
}

/// The number that a sequence of digits writes.
pub open spec fn digits_value(s: Seq<char>) -> nat
    decreases s.len(),
{
    if s.len() == 0 {
        0
    } else {
        (digits_value(s.drop_last()) * 10 + (s.last() as int - '0' as int)) as nat
    }
}

/// The position of the first `.` at or after `from`.
pub open spec fn point_position(text: Seq<char>, from: int) -> Option<int>
    decreases text.len() - from,
{
    if from < 0 || from >= text.len() {
        None
    } else if text[from] == '.' {
        Some(from)
    } else {
        point_position(text, from + 1)
    }
}

/// The position of the first `e` or `E` at or after `from`.
pub open spec fn mark_position(text: Seq<char>, from: int) -> Option<int>
    decreases text.len() - from,
{
    if from < 0 || from >= text.len() {
        None
    } else if is_mark(text[from]) {
        Some(from)
    } else {
        mark_position(text, from + 1)
    }
}

/// What digits with at most one `.` among them write, as
/// `(mantissa, scale)`: the number that all the digits write, and the number
/// of digits after the point. There must be a digit, and nothing but digits
/// and the point.
pub open spec fn plain_parts(text: Seq<char>) -> Option<(nat, nat)> {
    match point_position(text, 0) {
        None => if text.len() > 0 && all_digits(text) {
            Some((digits_value(text), 0nat))
        } else {
            None
        },
        Some(p) => {
            let whole = text.take(p);
            let fraction = text.skip(p + 1);
            if all_digits(whole) && all_digits(fraction) && whole.len() + fraction.len() > 0 {
                Some((digits_value(whole + fraction), fraction.len()))
            } else {
                None
            }
        },
    }
}

/// What an exponent writes: digits, after a sign or without one. There must
/// be a digit.
pub open spec fn exponent_value(text: Seq<char>) -> Option<int> {
    if text.len() > 0 && is_sign(text[0]) {
        let digits = text.skip(1);
        if digits.len() > 0 && all_digits(digits) {
            Some(
                if text[0] == '-' {
                    -(digits_value(digits) as int)
                } else {
                    digits_value(digits) as int
                },
            )
        } else {
            None
        }
    } else if text.len() > 0 && all_digits(text) {
        Some(digits_value(text) as int)
    } else {
        None
    }
}

/// The value of a literal without an exponent: digits alone write an
/// integer, digits with a `.` among them a float whose scale is the number
/// of digits after the point.
pub open spec fn plain_number(text: Seq<char>) -> Option<ValueView> {
    match plain_parts(text) {
        Some(parts) => if parts.0 <= i64::MAX && parts.1 <= MAX_SCALE {
            Some(
                if point_position(text, 0) is None {
                    ValueView::Integer(parts.0 as int)
                } else {
                    ValueView::Float { mantissa: parts.0 as int, scale: parts.1 }
                },
            )
        } else {
            None
        },
        None => None,
    }
}

/// The value of `mantissa / 10^scale * 10^exponent`: a float at scale 0 where
/// the exponent makes up for the scale, and at the scale that is left where
/// it does not.
pub open spec fn shifted_number(mantissa: nat, scale: nat, exponent: int) -> Option<ValueView> {
    if mantissa > i64::MAX || exponent < -MAX_EXPONENT || exponent > MAX_EXPONENT {
        None
    } else if exponent >= scale {
        let shifted = mantissa * pow10((exponent - scale) as nat);
        if shifted <= i64::MAX {
            Some(ValueView::Float { mantissa: shifted, scale: 0 })
        } else {
            None
        }
    } else if scale - exponent <= MAX_SCALE {
        Some(ValueView::Float { mantissa: mantissa as int, scale: (scale - exponent) as nat })
    } else {
        None
    }
}

/// The value that a numeric literal writes.
///
/// Without an exponent see [`plain_number`]. With one, the text before the
/// first `e` or `E` gives mantissa and scale (see [`plain_parts`]), the text
/// after it the exponent (see [`exponent_value`]), and the value is a float
/// (see [`shifted_number`]).
///
/// There is no value where the text is of another form, where the mantissa
/// is beyond `i64::MAX`, where more than 18 digits stay after the point, or
/// where the exponent is beyond [`MAX_EXPONENT`] in either direction.
pub open spec fn number_of(text: Seq<char>) -> Option<ValueView> {
    match mark_position(text, 0) {
        None => plain_number(text),
        Some(p) => match (plain_parts(text.take(p)), exponent_value(text.skip(p + 1))) {
            (Some(parts), Some(exponent)) => shifted_number(parts.0, parts.1, exponent),
            _ => None,
        },
    }
}

/// What [`point_position`] finds is the first `.`, and where it finds none
/// there is none.
pub proof fn lemma_point_position(text: Seq<char>, from: int)
    requires
        0 <= from,
    ensures
        match point_position(text, from) {
            Some(p) => from <= p < text.len() && text[p] == '.' && forall|j: int|
                from <= j < p ==> text[j] != '.',
            None => forall|j: int| from <= j < text.len() ==> text[j] != '.',
        },
    decreases text.len() - from,
{
    if from < text.len() && text[from] != '.' {
        lemma_point_position(text, from + 1);
    }
}

/// What [`mark_position`] finds is the first `e` or `E`, and where it finds
/// none there is none.
pub proof fn lemma_mark_position(text: Seq<char>, from: int)
    requires
        0 <= from,
    ensures
        match mark_position(text, from) {
            Some(p) => from <= p < text.len() && is_mark(text[p]) && forall|j: int|
                from <= j < p ==> !is_mark(text[j]),
            None => forall|j: int| from <= j < text.len() ==> !is_mark(text[j]),
        },
    decreases text.len() - from,
{
    if from < text.len() && !is_mark(text[from]) {
        lemma_mark_position(text, from + 1);
    }
}

/// Digits appended to digits do not write a smaller number.
pub proof fn lemma_digits_value_grows(s: Seq<char>, t: Seq<char>)
    requires
        all_digits(s),
        all_digits(t),
    ensures
        digits_value(s) <= digits_value(s + t),
    decreases t.len(),
{
    if t.len() > 0 {
        assert((s + t).drop_last() =~= s + t.drop_last());
        lemma_digits_value_grows(s, t.drop_last());
    }
}

/// A text with a character that is neither a digit nor a `.` is no plain
/// number.
pub proof fn lemma_not_plain(text: Seq<char>, b: int)
    requires
        0 <= b < text.len(),
        !is_digit(text[b]),
        text[b] != '.',
    ensures
        plain_parts(text) is None,
{
    lemma_point_position(text, 0);
    match point_position(text, 0) {
        None => {},
        Some(p) => {
            if b < p {
                assert(text.take(p)[b] == text[b]);
            } else {
                assert(text.skip(p + 1)[b - p - 1] == text[b]);
            }
        },
    }
}

/// A text with a character that is no digit, other than a sign in front, is
/// no exponent.
pub proof fn lemma_not_exponent(text: Seq<char>, b: int)
    requires
        0 <= b < text.len(),
        !is_digit(text[b]),
        b > 0 || !is_sign(text[0]),
    ensures
        exponent_value(text) is None,
{
    if b > 0 {
        assert(text.skip(1)[b - 1] == text[b]);
    }
}

/// Digits that already write too large a number make the mantissa too
/// large, whatever follows them.
proof fn lemma_plain_tail(text: Seq<char>, point: Option<usize>, i: int, digits: Seq<char>)
    requires
        0 <= i <= text.len(),
        all_digits(digits),
        digits_value(digits) > i64::MAX,
        match point {
            None => digits == text.take(i) && forall|j: int| 0 <= j < i ==> text[j] != '.',
            Some(p) => p < i && text[p as int] == '.' && digits == text.take(p as int)
                + text.subrange(p + 1, i) && forall|j: int| 0 <= j < p ==> text[j] != '.',
        },
    ensures
        plain_parts(text) matches Some(parts) ==> parts.0 > i64::MAX,
{
    lemma_point_position(text, 0);
    match point_position(text, 0) {
        None => {
            if all_digits(text) {
                assert(text =~= text.take(i) + text.skip(i));
                assert(all_digits(text.skip(i))) by {
                }
                lemma_digits_value_grows(text.take(i), text.skip(i));
            }
        },
        Some(q) => {
            let whole = text.take(q);
            let fraction = text.skip(q + 1);
            if all_digits(whole) && all_digits(fraction) {
                match point {
                    None => {
                        // the digits read so far are a prefix of `whole`
                        assert(whole =~= text.take(i) + text.subrange(i, q));
                        assert(all_digits(text.subrange(i, q))) by {
                            assert forall|j: int|
                                0 <= j < text.subrange(i, q).len() implies is_digit(
                                #[trigger] text.subrange(i, q)[j],
                            ) by {
                                assert(text.subrange(i, q)[j] == whole[i + j]);
                            }
                        }
                        lemma_digits_value_grows(text.take(i), text.subrange(i, q));
                        lemma_digits_value_grows(whole, fraction);
                    },
                    Some(p) => {
                        let rest = text.skip(i);
                        assert(whole + fraction =~= digits + rest);
                        assert(all_digits(rest)) by {
                            assert forall|j: int| 0 <= j < rest.len() implies is_digit(
                                #[trigger] rest[j],
                            ) by {
                                assert(rest[j] == fraction[i - q - 1 + j]);
                            }
                        }
                        lemma_digits_value_grows(digits, rest);
                    },
                }
            }
        },
    }
}

/// Reads digits with at most one `.` among them: the mantissa, the scale,
/// and whether there is a point. `None` where the text is of another form or
/// the mantissa is beyond `i64::MAX`.
fn parse_plain(text: &str) -> (r: Option<(i64, usize, bool)>)
    requires
        text.is_ascii(),
    ensures
        match r {
            Some((mantissa, scale, point)) => mantissa >= 0 && plain_parts(text@) == Some(
                (mantissa as nat, scale as nat),
            ) && point == (point_position(text@, 0) is Some),
            None => plain_parts(text@) matches Some(parts) ==> parts.0 > i64::MAX,
        },
{
    let n = text.unicode_len();
    let mut mantissa: i64 = 0;
    let mut point: Option<usize> = None;
    let mut i: usize = 0;
    let ghost mut digits: Seq<char> = Seq::empty();
    while i < n
        invariant
            i <= n,
            n == text@.len(),
            text.is_ascii(),
            0 <= mantissa,
            mantissa == digits_value(digits),
            all_digits(digits),
            match point {
                None => digits == text@.take(i as int) && forall|j: int|
                    0 <= j < i ==> text@[j] != '.',
                Some(p) => p < i && text@[p as int] == '.' && digits == text@.take(p as int)
                    + text@.subrange(p + 1, i as int) && forall|j: int|
                    0 <= j < p ==> text@[j] != '.',
            },
        decreases n - i,
    {
        let b = text.get_ascii(i);
        let ghost c = text@[i as int];
        proof {
            vstd::utf8::is_ascii_chars_nat_bound(text@);
            lemma_point_position(text@, 0);
        }
        if b == 46 {
            match point {
                Some(p) => {
                    proof {
                        assert(text@.skip(p + 1)[i - p - 1] == c);
                    }
                    return None;
                },
                None => {
                    point = Some(i);
                },
            }
        } else if b >= 48 && b <= 57 {
            let next: i128 = (mantissa as i128) * 10 + ((b - 48) as i128);
            let ghost longer = digits.push(c);
            proof {
                assert(longer.drop_last() =~= digits);
                match point {
                    None => {
                        assert(longer =~= text@.take(i + 1));
                    },
                    Some(p) => {
                        assert(longer =~= text@.take(p as int) + text@.subrange(p + 1, i + 1));
                    },
                }
            }
            if next > 0x7fff_ffff_ffff_ffff {
                proof {
                    lemma_plain_tail(text@, point, i + 1, longer);
                }
                return None;
            }
            mantissa = next as i64;
            proof {
                digits = longer;
            }
        } else {
            proof {
                lemma_not_plain(text@, i as int);
            }
            return None;
        }
        i = i + 1;
    }
    proof {
        lemma_point_position(text@, 0);
    }
    match point {
        None => {
            assert(text@.take(n as int) =~= text@);
            if n == 0 {
                None
            } else {
                Some((mantissa, 0, false))
            }
        },
        Some(p) => {
            proof {
                let whole = text@.take(p as int);
                let fraction = text@.skip(p + 1);
                assert forall|j: int| 0 <= j < whole.len() implies is_digit(
                    #[trigger] whole[j],
                ) by {
                    assert(whole[j] == digits[j]);
                }
                assert forall|j: int| 0 <= j < fraction.len() implies is_digit(
                    #[trigger] fraction[j],
                ) by {
                    assert(fraction[j] == digits[p + j]);
                }
            }
            if n == 1 {
                None
            } else {
                Some((mantissa, n - p - 1, true))
            }
        },
    }
}

/// Reads an exponent. `None` where the text is of another form or the
/// exponent is beyond [`MAX_EXPONENT`] in either direction.
fn parse_exponent(text: &str) -> (r: Option<i64>)
    requires
        text.is_ascii(),
    ensures
        match r {
            Some(e) => exponent_value(text@) == Some(e as int) && -MAX_EXPONENT <= e
                <= MAX_EXPONENT,
            None => exponent_value(text@) matches Some(e) ==> e < -MAX_EXPONENT || e
                > MAX_EXPONENT,
        },
{
    let n = text.unicode_len();
    if n == 0 {
        return None;
    }
    proof {
        vstd::utf8::is_ascii_chars_nat_bound(text@);
    }
    let first = text.get_ascii(0);
    let signed = first == 43 || first == 45;
    let start: usize = if signed {
        1
    } else {
        0
    };
    let ghost all = text@.skip(start as int);
    assert(!signed ==> all =~= text@);
    if start == n {
        return None;
    }
    let mut magnitude: i64 = 0;
    let mut i: usize = start;
    while i < n
        invariant
            start <= i <= n,
            n == text@.len(),
            text.is_ascii(),
            all == text@.skip(start as int),
            signed == is_sign(text@[0]),
            start == if signed {
                1usize
            } else {
                0usize
            },
            0 <= magnitude <= MAX_EXPONENT,
            all_digits(all.take(i - start)),
            magnitude == digits_value(all.take(i - start)),
        decreases n - i,
    {
        let b = text.get_ascii(i);
        proof {
            vstd::utf8::is_ascii_chars_nat_bound(text@);
        }
        if !(b >= 48 && b <= 57) {
            proof {
                lemma_not_exponent(text@, i as int);
            }
            return None;
        }
        let next: i64 = magnitude * 10 + ((b - 48) as i64);
        let ghost longer = all.take(i - start + 1);
        proof {
            assert(longer.drop_last() =~= all.take(i - start));
        }
        if next > MAX_EXPONENT {
            proof {
                assert(text@.skip(0) =~= text@);
                if all_digits(all) {
                    let rest = all.skip(i - start + 1);
                    assert(all =~= longer + rest);
                    lemma_digits_value_grows(longer, rest);
                }
            }
            return None;
        }
        magnitude = next;
        i = i + 1;
    }
    assert(all.take(n - start) =~= all);
    Some(
        if first == 45 {
            -magnitude
        } else {
            magnitude
        },
    )
}

/// A mantissa of at least 1 moved up by 19 digits or more is beyond
/// `i64::MAX`.
proof fn lemma_shift_overflows(mantissa: nat, shift: nat)
    requires
        mantissa >= 1,
        shift >= 19,
    ensures
        mantissa * pow10(shift) > i64::MAX,
{
    assert(pow10(19) == 10_000_000_000_000_000_000int) by {
        reveal_with_fuel(pow10, 20);
    }
    lemma_pow10_monotonic(19, shift);
    assert(mantissa * pow10(shift) >= pow10(shift)) by (nonlinear_arith)
        requires
            mantissa >= 1,
            pow10(shift) >= 0,
    ;
}

/// Applies an exponent to a mantissa and a scale.
fn shift_number(mantissa: i64, scale: usize, exponent: i64) -> (r: Option<Value>)
    requires
        mantissa >= 0,
        -MAX_EXPONENT <= exponent <= MAX_EXPONENT,
    ensures
        match r {
            Some(v) => shifted_number(mantissa as nat, scale as nat, exponent as int) == Some(v@),
            None => shifted_number(mantissa as nat, scale as nat, exponent as int) is None,
        },
{
    let shift: i128 = exponent as i128 - scale as i128;
    if shift >= 0 {
        if mantissa == 0 {
            assert(0 * pow10(shift as nat) == 0) by (nonlinear_arith);
            return match Decimal::new(0, 0) {
                Some(d) => Some(Value::Float(d)),
                None => None,
            };
        }
        if shift > MAX_SCALE as i128 {
            proof {
                lemma_shift_overflows(mantissa as nat, shift as nat);
            }
            return None;
        }
        let unit = power_of_ten(shift as u8);
        assert(0 <= mantissa * unit <= 0x8000_0000_0000_0000 * 1_000_000_000_000_000_000)
            by (nonlinear_arith)
            requires
                0 <= mantissa < 0x8000_0000_0000_0000,
                1 <= unit <= 1_000_000_000_000_000_000,
        ;
        let shifted: i128 = (mantissa as i128) * unit;
        if shifted > 0x7fff_ffff_ffff_ffff {
            return None;
        }
        match Decimal::new(shifted as i64, 0) {
            Some(d) => Some(Value::Float(d)),
            None => None,
        }
    } else {
        let left: i128 = -shift;
        if left > MAX_SCALE as i128 {
            return None;
        }
        match Decimal::new(mantissa, left as u8) {
            Some(d) => Some(Value::Float(d)),
            None => None,
        }
    }
}

/// Reads a numeric literal.
pub fn parse_number(text: &str) -> (r: Option<Value>)
    ensures
        match r {
            Some(v) => number_of(text@) == Some(v@),
            None => number_of(text@) is None,
        },
{
    proof {
        lemma_mark_position(text@, 0);
    }
    if !text.is_ascii() {
        proof {
            let bad = choose|i: int|
                0 <= i < text@.len() && !('\0' <= #[trigger] text@[i] <= '\u{7f}');
            match mark_position(text@, 0) {
                None => {
                    lemma_not_plain(text@, bad);
                },
                Some(p) => {
                    if bad < p {
                        lemma_not_plain(text@.take(p), bad);
                    } else {
                        lemma_not_exponent(text@.skip(p + 1), bad - p - 1);
                    }
                },
            }
        }
        return None;
    }
    let n = text.unicode_len();
    let mut p: usize = 0;
    let mut found = false;
    while p < n && !found
        invariant
            p <= n,
            n == text@.len(),
            text.is_ascii(),
            forall|j: int| 0 <= j < p ==> !is_mark(text@[j]),
            found ==> p < n && is_mark(text@[p as int]),
        decreases n - p + if found {
            0int
        } else {
            1int
        },
    {
        let b = text.get_ascii(p);
        proof {
            vstd::utf8::is_ascii_chars_nat_bound(text@);
        }
        if b == 101 || b == 69 {
            found = true;
        } else {
            p = p + 1;
        }
    }
    if !found {
        match parse_plain(text) {
            Some((mantissa, scale, point)) => {
                if !point {
                    Some(Value::Integer(mantissa))
                } else if scale <= MAX_SCALE as usize {
                    match Decimal::new(mantissa, scale as u8) {
                        Some(d) => Some(Value::Float(d)),
                        None => None,
                    }
                } else {
                    None
                }
            },
            None => None,
        }
    } else {
        let base = text.substring_ascii(0, p);
        let tail = text.substring_ascii(p + 1, n);
        match parse_plain(base) {
            Some((mantissa, scale, _)) => match parse_exponent(tail) {
                Some(exponent) => shift_number(mantissa, scale, exponent),
                None => None,
            },
            None => None,
        }
    }
}

} // verus!
