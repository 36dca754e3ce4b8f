//! Text: equality by contents, and numbers and values written out.

use crate::value::{pow10, power_of_ten, Value, ValueView, MAX_SCALE};
use vstd::prelude::*;
use vstd::utf8::{decode_utf8, encode_utf8, encode_utf8_decode_utf8};

verus! {

/// Tells whether two texts hold the same characters.
pub fn text_equal(a: &str, b: &str) -> (r: bool)
    ensures
        r == (a@ == b@),
{
    let x = a.as_bytes();
    let y = b.as_bytes();
    proof {
        encode_utf8_decode_utf8(a@);
        encode_utf8_decode_utf8(b@);
    }
    if x.len() != y.len() {
        return false;
    }
    let mut i: usize = 0;
    while i < x.len()
        invariant
            i <= x@.len(),
            x@.len() == y@.len(),
            x@ == encode_utf8(a@),
            y@ == encode_utf8(b@),
            decode_utf8(encode_utf8(a@)) == a@,
            decode_utf8(encode_utf8(b@)) == b@,
            forall|j: int| 0 <= j < i ==> x@[j] == y@[j],
        decreases x@.len() - i,
    {
        if x[i] != y[i] {
            return false;
        }
        i = i + 1;
    }
    assert(x@ =~= y@);
    true
}

/// The character of the decimal digit `d`.
pub open spec fn digit_char(d: int) -> char {
    if d == 0 {
        '0'
    } else if d == 1 {
        '1'
    } else if d == 2 {
        '2'
    } else if d == 3 {
        '3'
    } else if d == 4 {
        '4'
    } else if d == 5 {
        '5'
    } else if d == 6 {
        '6'
    } else if d == 7 {
        '7'
    } else if d == 8 {
        '8'
    } else {
        '9'
    }
}

/// The decimal digits of `n`, most significant first, without leading zeros.
pub open spec fn natural_text(n: nat) -> Seq<char>
    decreases n,
{
    if n < 10 {
        seq![digit_char(n as int)]
    } else {
        natural_text(n / 10).push(digit_char((n % 10) as int))
    }
}

/// The decimal digits of `i`, after a `-` when it is negative.
pub open spec fn integer_text(i: int) -> Seq<char> {
    if i < 0 {
        seq!['-'] + natural_text((-i) as nat)
    } else {
        natural_text(i as nat)
    }
}

/// The last `scale` decimal digits of `n`, with leading zeros.
pub open spec fn fraction_text(n: nat, scale: nat) -> Seq<char>
    decreases scale,
{
    if scale == 0 {
        Seq::empty()
    } else {
        fraction_text(n / 10, (scale - 1) as nat).push(digit_char((n % 10) as int))
    }
}

/// The text of `mantissa / 10^scale`: the integer part, and after a `.` all
/// `scale` fractional digits where `scale` is positive.
pub open spec fn decimal_text(mantissa: int, scale: nat) -> Seq<char> {
    if scale == 0 {
        integer_text(mantissa)
    } else {
        let magnitude = if mantissa < 0 {
            (-mantissa) as nat
        } else {
            mantissa as nat
        };
        let sign = if mantissa < 0 {
            seq!['-']
        } else {
            Seq::empty()
        };
        sign + natural_text((magnitude as int / pow10(scale)) as nat) + seq!['.'] + fraction_text(
            magnitude,
            scale,
        )
    }
}

/// The digit `d` as a text of one character.
fn digit_text(d: u64) -> (r: &'static str)
    requires
        d < 10,
    ensures
        r@ == seq![digit_char(d as int)],
{
    proof {
        reveal_strlit("0");
        reveal_strlit("1");
        reveal_strlit("2");
        reveal_strlit("3");
        reveal_strlit("4");
        reveal_strlit("5");
        reveal_strlit("6");
        reveal_strlit("7");
        reveal_strlit("8");
        reveal_strlit("9");
    }
    let r = if d == 0 {
        "0"
    } else if d == 1 {
        "1"
    } else if d == 2 {
        "2"
    } else if d == 3 {
        "3"
    } else if d == 4 {
        "4"
    } else if d == 5 {
        "5"
    } else if d == 6 {
        "6"
    } else if d == 7 {
        "7"
    } else if d == 8 {
        "8"
    } else {
        "9"
    };
    r
}

/// Appends the decimal digits of `n` to `out`.
pub fn push_natural(out: &mut String, n: u64)
    ensures
        final(out)@ == old(out)@ + natural_text(n as nat),
    decreases n,
{
    if n >= 10 {
        push_natural(out, n / 10);
    }
    out.append(digit_text(n % 10));
}

/// Appends the last `scale` decimal digits of `n` to `out`.
pub fn push_fraction(out: &mut String, n: u64, scale: u8)
    ensures
        final(out)@ == old(out)@ + fraction_text(n as nat, scale as nat),
    decreases scale,
{
    if scale > 0 {
        push_fraction(out, n / 10, scale - 1);
        out.append(digit_text(n % 10));
    }
}

/// The text of a machine integer.
pub fn integer_to_text(i: i64) -> (r: String)
    ensures
        r@ == integer_text(i as int),
{
    let mut out = String::new();
    if i < 0 {
        proof {
            reveal_strlit("-");
        }
        out.append("-");
        let magnitude: u64 = if i == i64::MIN {
            0x8000_0000_0000_0000
        } else {
            (-i) as u64
        };
        push_natural(&mut out, magnitude);
    } else {
        push_natural(&mut out, i as u64);
    }
    out
}

/// The text of a count.
pub fn count_to_text(n: usize) -> (r: String)
    ensures
        r@ == natural_text(n as nat),
{
    let mut out = String::new();
    push_natural(&mut out, n as u64);
    out
}

/// `String::push` of the standard library: appends one character.
#[verifier::external_body]
fn push_char(out: &mut String, c: char)
    ensures
        final(out)@ == old(out)@.push(c),
{
    out.push(c)
}

/// `s` with each `quote` in it written twice.
pub open spec fn doubled(s: Seq<char>, quote: char) -> Seq<char>
    decreases s.len(),
{
    if s.len() == 0 {
        Seq::empty()
    } else if s.last() == quote {
        doubled(s.drop_last(), quote).push(quote).push(quote)
    } else {
        doubled(s.drop_last(), quote).push(s.last())
    }
}

/// Appends `text` between two `quote`s, with each `quote` inside written
/// twice.
pub fn push_quoted(out: &mut String, text: &str, quote: char)
    ensures
        final(out)@ == old(out)@ + seq![quote] + doubled(text@, quote) + seq![quote],
{
    push_char(out, quote);
    for c in it: text.chars()
        invariant
            it.seq() == text@,
            out@ == old(out)@ + seq![quote] + doubled(text@.take(it.index()), quote),
    {
        let ghost before = text@.take(it.index());
        let ghost after = text@.take(it.index() + 1);
        assert(after.drop_last() =~= before);
        assert(after.last() == c);
        if c == quote {
            push_char(out, quote);
        }
        push_char(out, c);
        assert(out@ =~= old(out)@ + seq![quote] + doubled(after, quote));
    }
    assert(text@.take(text@.len() as int) =~= text@);
    push_char(out, quote);
    assert(out@ =~= old(out)@ + seq![quote] + doubled(text@, quote) + seq![quote]);
}

/// `s` with each single quote written twice.
pub open spec fn doubled_quotes(s: Seq<char>) -> Seq<char>
    decreases s.len(),
{
    if s.len() == 0 {
        Seq::empty()
    } else if s.last() == '\'' {
        doubled_quotes(s.drop_last()).push('\'').push('\'')
    } else {
        doubled_quotes(s.drop_last()).push(s.last())
    }
}

/// `s` as a string literal: between single quotes, with each single quote
/// inside written twice.
pub open spec fn quoted_text(s: Seq<char>) -> Seq<char> {
    seq!['\''] + doubled_quotes(s) + seq!['\'']
}

/// The text of a value: a number in decimal, a text as a string literal, a
/// boolean as `true` or `false`, and `Null` as `NULL`.
pub open spec fn value_text(v: ValueView) -> Seq<char> {
    match v {
        ValueView::Integer(i) => integer_text(i),
        ValueView::Float { mantissa, scale } => decimal_text(mantissa, scale),
        ValueView::Text(s) => quoted_text(s),
        ValueView::Boolean(b) => if b {
            "true"@
        } else {
            "false"@
        },
        ValueView::Null => "NULL"@,
    }
}

/// Writes a text as a string literal.
pub fn quote_text(text: &str) -> (r: String)
    ensures
        r@ == quoted_text(text@),
{
    let mut out = String::new();
    push_char(&mut out, '\'');
    for c in it: text.chars()
        invariant
            it.seq() == text@,
            out@ == seq!['\''] + doubled_quotes(text@.take(it.index())),
    {
        let ghost before = text@.take(it.index());
        let ghost after = text@.take(it.index() + 1);
        assert(after.drop_last() =~= before);
        if c == '\'' {
            push_char(&mut out, '\'');
        }
        push_char(&mut out, c);
    }
    assert(text@.take(text@.len() as int) =~= text@);
    push_char(&mut out, '\'');
    out
}

/// Writes `mantissa / 10^scale` in decimal.
pub fn decimal_to_text(mantissa: i64, scale: u8) -> (r: String)
    requires
        scale <= MAX_SCALE,
    ensures
        r@ == decimal_text(mantissa as int, scale as nat),
{
    if scale == 0 {
        return integer_to_text(mantissa);
    }
    let mut out = String::new();
    let magnitude: u64 = if mantissa == i64::MIN {
        0x8000_0000_0000_0000
    } else if mantissa < 0 {
        (-mantissa) as u64
    } else {
        mantissa as u64
    };
    if mantissa < 0 {
        push_char(&mut out, '-');
    }
    let unit = power_of_ten(scale) as u64;
    push_natural(&mut out, magnitude / unit);
    push_char(&mut out, '.');
    push_fraction(&mut out, magnitude, scale);
    out
}

impl Value {
    /// Writes the value as text.
    pub fn to_text(&self) -> (r: String)
        ensures
            r@ == value_text(self@),
    {
        match self {
            Value::Integer(i) => integer_to_text(*i),
            Value::Float(d) => decimal_to_text(d.mantissa(), d.scale()),
            Value::String(s) => quote_text(s.as_str()),
            Value::Boolean(b) => if *b {
                String::from_str("true")
            } else {
                String::from_str("false")
            },
            Value::Null => String::from_str("NULL"),
        }
    }
}

} // verus!
