//! Scalar values and the typed comparison between them.

use vstd::prelude::*;
use vstd::std_specs::cmp::PartialEqSpecImpl;
use vstd::utf8::encode_utf8;

verus! {

/// The outcome of comparing two values of the same kind.
#[derive(Clone, Copy, Debug, PartialEq, Eq, Structural)]
pub enum ValueOrdering {
    Less,
    Equal,
    Greater,
}

/// The largest number of fractional digits a [`Decimal`] can carry.
pub const MAX_SCALE: u8 = 18;

/// `10^n`.
pub open spec fn pow10(n: nat) -> int
    decreases n,
{
    if n == 0 {
        1
    } else {
        10 * pow10((n - 1) as nat)
    }
}

/// A power of ten is at least 1.
pub proof fn lemma_pow10_positive(n: nat)
    ensures
        pow10(n) >= 1,
    decreases n,
{
    if n > 0 {
        lemma_pow10_positive((n - 1) as nat);
    }
}

/// A larger exponent does not give a smaller power of ten.
pub proof fn lemma_pow10_monotonic(a: nat, b: nat)
    requires
        a <= b,
    ensures
        pow10(a) <= pow10(b),
    decreases b,
{
    if a < b {
        lemma_pow10_monotonic(a, (b - 1) as nat);
        lemma_pow10_positive((b - 1) as nat);
    }
}

/// `10^18`, written out.
pub proof fn lemma_pow10_max()
    ensures
        pow10(18) == 1_000_000_000_000_000_000int,
{
    reveal_with_fuel(pow10, 19);
}

/// Computes `10^n` for `n` up to [`MAX_SCALE`].
pub fn power_of_ten(n: u8) -> (r: i128)
    requires
        n <= MAX_SCALE,
    ensures
        r == pow10(n as nat),
        1 <= r <= 1_000_000_000_000_000_000,
{
    let mut r: i128 = 1;
    let mut i: u8 = 0;
    proof {
        lemma_pow10_max();
    }
    while i < n
        invariant
            i <= n <= MAX_SCALE,
            r == pow10(i as nat),
            pow10(18) == 1_000_000_000_000_000_000int,
        decreases n - i,
    {
        proof {
            lemma_pow10_monotonic((i + 1) as nat, 18);
            lemma_pow10_positive(i as nat);
        }
        r = r * 10;
        i = i + 1;
    }
    proof {
        lemma_pow10_monotonic(n as nat, 18);
        lemma_pow10_positive(n as nat);
    }
    r
}

/// An exact decimal number: `mantissa / 10^scale`, with at most [`MAX_SCALE`]
/// fractional digits.
#[derive(Clone, Copy, Debug)]
pub struct Decimal {
    mantissa: i64,
    scale: u8,
}

impl Decimal {
    #[verifier::type_invariant]
    spec fn scale_in_range(self) -> bool {
        self.scale <= MAX_SCALE
    }

    /// The mantissa, as a number.
    pub closed spec fn spec_mantissa(&self) -> int {
        self.mantissa as int
    }

    /// The scale, as a number.
    pub closed spec fn spec_scale(&self) -> nat {
        self.scale as nat
    }

    /// Builds `mantissa / 10^scale`; `None` when `scale` exceeds [`MAX_SCALE`].
    pub fn new(mantissa: i64, scale: u8) -> (r: Option<Decimal>)
        ensures
            r is Some <==> scale <= MAX_SCALE,
            r matches Some(d) ==> d.spec_mantissa() == mantissa && d.spec_scale() == scale,
    {
        if scale <= MAX_SCALE {
            Some(Decimal { mantissa, scale })
        } else {
            None
        }
    }

    /// The mantissa.
    pub fn mantissa(&self) -> (r: i64)
        ensures
            r == self.spec_mantissa(),
    {
        self.mantissa
    }

    /// The scale: the number of fractional digits.
    pub fn scale(&self) -> (r: u8)
        ensures
            r == self.spec_scale(),
            r <= MAX_SCALE,
    {
        proof {
            use_type_invariant(self);
        }
        self.scale
    }

}

/// A scalar held in a row or written as a literal.
#[derive(Debug)]
pub enum Value {
    Integer(i64),
    Float(Decimal),
    String(String),
    Boolean(bool),
    Null,
}

/// The mathematical content of a [`Value`].
pub ghost enum ValueView {
    Integer(int),
    Float { mantissa: int, scale: nat },
    Text(Seq<char>),
    Boolean(bool),
    Null,
}

impl View for Value {
    type V = ValueView;

    open spec fn view(&self) -> ValueView {
        match self {
            Value::Integer(i) => ValueView::Integer(*i as int),
            Value::Float(d) => ValueView::Float {
                mantissa: d.spec_mantissa(),
                scale: d.spec_scale(),
            },
            Value::String(s) => ValueView::Text(s@),
            Value::Boolean(b) => ValueView::Boolean(*b),
            Value::Null => ValueView::Null,
        }
    }
}

impl Clone for Value {
    fn clone(&self) -> (r: Self)
        ensures
            r == *self,
    {
        match self {
            Value::Integer(i) => Value::Integer(*i),
            Value::Float(d) => Value::Float(*d),
            Value::String(s) => Value::String(s.clone()),
            Value::Boolean(b) => Value::Boolean(*b),
            Value::Null => Value::Null,
        }
    }
}

impl PartialEq for Value {
    fn eq(&self, other: &Value) -> (r: bool) {
        match (self, other) {
            (Value::Integer(a), Value::Integer(b)) => *a == *b,
            (Value::Float(a), Value::Float(b)) => a.mantissa() == b.mantissa() && a.scale()
                == b.scale(),
            (Value::String(a), Value::String(b)) => *a == *b,
            (Value::Boolean(a), Value::Boolean(b)) => *a == *b,
            (Value::Null, Value::Null) => true,
            _ => false,
        }
    }
}

impl PartialEqSpecImpl for Value {
    open spec fn obeys_eq_spec() -> bool {
        true
    }

    open spec fn eq_spec(&self, other: &Value) -> bool {
        self@ == other@
    }
}

/// The kind of a value. Integers and floats are both numbers.
#[derive(Clone, Copy, Debug, PartialEq, Eq, Structural)]
pub enum ValueKind {
    Number,
    Text,
    Boolean,
    Null,
}

impl ValueView {
    /// The kind of the value.
    pub open spec fn kind(self) -> ValueKind {
        match self {
            ValueView::Integer(_) => ValueKind::Number,
            ValueView::Float { .. } => ValueKind::Number,
            ValueView::Text(_) => ValueKind::Text,
            ValueView::Boolean(_) => ValueKind::Boolean,
            ValueView::Null => ValueKind::Null,
        }
    }

    /// The number a numeric value stands for, as `(mantissa, scale)`.
    pub open spec fn numeric(self) -> Option<(int, nat)> {
        match self {
            ValueView::Integer(i) => Some((i, 0nat)),
            ValueView::Float { mantissa, scale } => Some((mantissa, scale)),
            _ => None,
        }
    }
}

/// Orders two numbers, each given as `(mantissa, scale)`: the number
/// `a.0 / 10^a.1` against the number `b.0 / 10^b.1`.
pub open spec fn compare_numbers(a: (int, nat), b: (int, nat)) -> ValueOrdering {
    let left = a.0 * pow10(b.1);
    let right = b.0 * pow10(a.1);
    if left < right {
        ValueOrdering::Less
    } else if left == right {
        ValueOrdering::Equal
    } else {
        ValueOrdering::Greater
    }
}

/// Lexicographic order of `a[i..]` against `b[i..]`.
pub open spec fn compare_bytes_from(a: Seq<u8>, b: Seq<u8>, i: int) -> ValueOrdering
    decreases a.len() - i,
{
    if i < 0 {
        ValueOrdering::Equal
    } else if i >= a.len() {
        if i >= b.len() {
            ValueOrdering::Equal
        } else {
            ValueOrdering::Less
        }
    } else if i >= b.len() {
        ValueOrdering::Greater
    } else if a[i] < b[i] {
        ValueOrdering::Less
    } else if a[i] > b[i] {
        ValueOrdering::Greater
    } else {
        compare_bytes_from(a, b, i + 1)
    }
}

/// Orders two texts lexicographically by the bytes of their UTF-8 encoding.
pub open spec fn compare_text(a: Seq<char>, b: Seq<char>) -> ValueOrdering {
    compare_bytes_from(encode_utf8(a), encode_utf8(b), 0)
}

/// Orders two booleans: `false` before `true`.
pub open spec fn compare_booleans(a: bool, b: bool) -> ValueOrdering {
    if a == b {
        ValueOrdering::Equal
    } else if b {
        ValueOrdering::Less
    } else {
        ValueOrdering::Greater
    }
}

/// The typed comparison: numbers against numbers, texts against texts,
/// booleans against booleans. Every other pair, and every pair with `Null`,
/// has no order.
pub open spec fn compare_views(a: ValueView, b: ValueView) -> Option<ValueOrdering> {
    match (a, b) {
        (ValueView::Text(x), ValueView::Text(y)) => Some(compare_text(x, y)),
        (ValueView::Boolean(x), ValueView::Boolean(y)) => Some(compare_booleans(x, y)),
        _ => match (a.numeric(), b.numeric()) {
            (Some(x), Some(y)) => Some(compare_numbers(x, y)),
            _ => None,
        },
    }
}

/// Two values have an order exactly when they are of the same kind and that
/// kind is not `Null`.
pub proof fn lemma_order_needs_same_kind(a: ValueView, b: ValueView)
    ensures
        compare_views(a, b) is Some <==> a.kind() == b.kind() && a.kind() != ValueKind::Null,
{
}

/// The other way round, an order is the opposite order.
pub open spec fn opposite(o: ValueOrdering) -> ValueOrdering {
    match o {
        ValueOrdering::Less => ValueOrdering::Greater,
        ValueOrdering::Equal => ValueOrdering::Equal,
        ValueOrdering::Greater => ValueOrdering::Less,
    }
}

/// Two byte sequences compared the other way round have the opposite order.
pub proof fn lemma_compare_bytes_flips(a: Seq<u8>, b: Seq<u8>, i: int)
    ensures
        compare_bytes_from(b, a, i) == opposite(compare_bytes_from(a, b, i)),
    decreases a.len() - i,
{
    if 0 <= i < a.len() && i < b.len() && a[i] == b[i] {
        lemma_compare_bytes_flips(a, b, i + 1);
    }
}

/// Two values compared the other way round have the opposite order, or none
/// where they have none. A value that has an order with itself is equal to
/// itself.
pub proof fn lemma_compare_flips(a: ValueView, b: ValueView)
    ensures
        compare_views(b, a) == match compare_views(a, b) {
            Some(o) => Some(opposite(o)),
            None => None,
        },
        compare_views(a, a) is Some ==> compare_views(a, a) == Some(ValueOrdering::Equal),
{
    match (a, b) {
        (ValueView::Text(x), ValueView::Text(y)) => {
            lemma_compare_bytes_flips(encode_utf8(x), encode_utf8(y), 0);
        },
        _ => {},
    }
    match a {
        ValueView::Text(x) => {
            lemma_compare_bytes_same(encode_utf8(x), 0);
        },
        _ => {},
    }
}

/// A byte sequence is equal to itself.
pub proof fn lemma_compare_bytes_same(a: Seq<u8>, i: int)
    ensures
        compare_bytes_from(a, a, i) == ValueOrdering::Equal,
    decreases a.len() - i,
{
    if 0 <= i < a.len() {
        lemma_compare_bytes_same(a, i + 1);
    }
}

/// Orders `am / 10^a_scale` against `bm / 10^b_scale`.
fn compare_scaled(am: i64, a_scale: u8, bm: i64, b_scale: u8) -> (r: ValueOrdering)
    requires
        a_scale <= MAX_SCALE,
        b_scale <= MAX_SCALE,
    ensures
        r == compare_numbers((am as int, a_scale as nat), (bm as int, b_scale as nat)),
{
    let pa = power_of_ten(a_scale);
    let pb = power_of_ten(b_scale);
    assert(-0x8000_0000_0000_0000 * 1_000_000_000_000_000_000 <= am * pb
        <= 0x8000_0000_0000_0000 * 1_000_000_000_000_000_000) by (nonlinear_arith)
        requires
            -0x8000_0000_0000_0000 <= am < 0x8000_0000_0000_0000,
            1 <= pb <= 1_000_000_000_000_000_000,
    ;
    assert(-0x8000_0000_0000_0000 * 1_000_000_000_000_000_000 <= bm * pa
        <= 0x8000_0000_0000_0000 * 1_000_000_000_000_000_000) by (nonlinear_arith)
        requires
            -0x8000_0000_0000_0000 <= bm < 0x8000_0000_0000_0000,
            1 <= pa <= 1_000_000_000_000_000_000,
    ;
    let left: i128 = (am as i128) * pb;
    let right: i128 = (bm as i128) * pa;
    if left < right {
        ValueOrdering::Less
    } else if left == right {
        ValueOrdering::Equal
    } else {
        ValueOrdering::Greater
    }
}

/// Orders two texts by the bytes of their UTF-8 encoding.
fn compare_strings(a: &str, b: &str) -> (r: ValueOrdering)
    ensures
        r == compare_text(a@, b@),
{
    let x = a.as_bytes();
    let y = b.as_bytes();
    let mut i: usize = 0;
    while i < x.len() && i < y.len()
        invariant
            i <= x@.len(),
            i <= y@.len(),
            x@ == encode_utf8(a@),
            y@ == encode_utf8(b@),
            compare_bytes_from(x@, y@, 0) == compare_bytes_from(x@, y@, i as int),
        decreases x@.len() - i,
    {
        if x[i] < y[i] {
            return ValueOrdering::Less;
        }
        if x[i] > y[i] {
            return ValueOrdering::Greater;
        }
        i = i + 1;
    }
    if i < y.len() {
        ValueOrdering::Less
    } else if i < x.len() {
        ValueOrdering::Greater
    } else {
        ValueOrdering::Equal
    }
}

/// Compares two values under the typed comparison.
pub fn compare_values(a: &Value, b: &Value) -> (r: Option<ValueOrdering>)
    ensures
        r == compare_views(a@, b@),
{
    match (a, b) {
        (Value::String(x), Value::String(y)) => Some(compare_strings(x.as_str(), y.as_str())),
        (Value::Boolean(x), Value::Boolean(y)) => Some(
            if *x == *y {
                ValueOrdering::Equal
            } else if *y {
                ValueOrdering::Less
            } else {
                ValueOrdering::Greater
            },
        ),
        (Value::Integer(x), Value::Integer(y)) => Some(compare_scaled(*x, 0, *y, 0)),
        (Value::Integer(x), Value::Float(y)) => Some(
            compare_scaled(*x, 0, y.mantissa(), y.scale()),
        ),
        (Value::Float(x), Value::Integer(y)) => Some(
            compare_scaled(x.mantissa(), x.scale(), *y, 0),
        ),
        (Value::Float(x), Value::Float(y)) => Some(
            compare_scaled(x.mantissa(), x.scale(), y.mantissa(), y.scale()),
        ),
        _ => None,
    }
}

} // verus!
