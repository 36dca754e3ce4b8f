//! Aggregate functions over a group of rows.

use crate::ast::{AggregateArg, AggregateSpec};
use crate::error::{DbError, ErrorView};
use crate::eval::value_result_view;
use crate::schema::{column_index, columns_view, find_column, ColumnDefinition, ColumnView};
use crate::table::{stored_rows_view, values_view, Row};
use crate::value::{pow10, power_of_ten, Decimal, Value, ValueView, MAX_SCALE};
use vstd::prelude::*;

verus! {

/// The sum of two numbers, each given as `(mantissa, scale)`, at the larger
/// of the two scales.
pub open spec fn add_numbers(a: (int, nat), b: (int, nat)) -> (int, nat) {
    let scale = if a.1 >= b.1 {
        a.1
    } else {
        b.1
    };
    (a.0 * pow10((scale - a.1) as nat) + b.0 * pow10((scale - b.1) as nat), scale)
}

/// Whether a mantissa fits the engine's numbers.
pub open spec fn mantissa_in_range(m: int) -> bool {
    i64::MIN <= m <= i64::MAX
}

/// The running total of the numbers among `values`, taken in order. A value
/// that is not a number adds nothing. `None` from the first value on at which
/// the total leaves the range of the engine's numbers.
pub open spec fn sum_values(values: Seq<ValueView>) -> Option<(int, nat)>
    decreases values.len(),
{
    if values.len() == 0 {
        Some((0int, 0nat))
    } else {
        match sum_values(values.drop_last()) {
            None => None,
            Some(total) => match values.last().numeric() {
                None => Some(total),
                Some(n) => {
                    let next = add_numbers(total, n);
                    if mantissa_in_range(next.0) {
                        Some(next)
                    } else {
                        None
                    }
                },
            },
        }
    }
}

/// The value that stands for a total: an integer at scale 0, a float
/// otherwise, and `Null` where there is no total.
pub open spec fn total_view(total: Option<(int, nat)>) -> ValueView {
    match total {
        None => ValueView::Null,
        Some(n) => if n.1 == 0 {
            ValueView::Integer(n.0)
        } else {
            ValueView::Float { mantissa: n.0, scale: n.1 }
        },
    }
}

/// Adds two numbers, each given as mantissa and scale; `None` when the sum
/// leaves the range of a mantissa.
fn add_scaled(am: i64, a_scale: u8, bm: i64, b_scale: u8) -> (r: Option<(i64, u8)>)
    requires
        a_scale <= MAX_SCALE,
        b_scale <= MAX_SCALE,
    ensures
        ({
            let next = add_numbers((am as int, a_scale as nat), (bm as int, b_scale as nat));
            match r {
                Some(t) => mantissa_in_range(next.0) && t.0 == next.0 && t.1 == next.1 && t.1
                    <= MAX_SCALE,
                None => !mantissa_in_range(next.0),
            }
        }),
{
    let scale = if a_scale >= b_scale {
        a_scale
    } else {
        b_scale
    };
    let pa = power_of_ten(scale - a_scale);
    let pb = power_of_ten(scale - b_scale);
    assert(-0x8000_0000_0000_0000 * 1_000_000_000_000_000_000 <= am * pa
        <= 0x8000_0000_0000_0000 * 1_000_000_000_000_000_000) by (nonlinear_arith)
        requires
            -0x8000_0000_0000_0000 <= am < 0x8000_0000_0000_0000,
            1 <= pa <= 1_000_000_000_000_000_000,
    ;
    assert(-0x8000_0000_0000_0000 * 1_000_000_000_000_000_000 <= bm * pb
        <= 0x8000_0000_0000_0000 * 1_000_000_000_000_000_000) by (nonlinear_arith)
        requires
            -0x8000_0000_0000_0000 <= bm < 0x8000_0000_0000_0000,
            1 <= pb <= 1_000_000_000_000_000_000,
    ;
    let left: i128 = (am as i128) * pa;
    let right: i128 = (bm as i128) * pb;
    let sum: i128 = left + right;
    if sum < -0x8000_0000_0000_0000 || sum > 0x7fff_ffff_ffff_ffff {
        None
    } else {
        Some((sum as i64, scale))
    }
}

/// Sums the numbers among `values`.
pub fn sum_of(values: &Vec<Value>) -> (r: Value)
    ensures
        r@ == total_view(sum_values(values_view(values@))),
{
    let mut mantissa: i64 = 0;
    let mut scale: u8 = 0;
    let mut i: usize = 0;
    while i < values.len()
        invariant
            i <= values.len(),
            scale <= MAX_SCALE,
            sum_values(values_view(values@).take(i as int)) == Some(
                (mantissa as int, scale as nat),
            ),
        decreases values.len() - i,
    {
        let ghost prefix = values_view(values@).take(i + 1);
        assert(prefix.drop_last() =~= values_view(values@).take(i as int));
        let next = match &values[i] {
            Value::Integer(n) => add_scaled(mantissa, scale, *n, 0),
            Value::Float(d) => add_scaled(mantissa, scale, d.mantissa(), d.scale()),
            _ => Some((mantissa, scale)),
        };
        match next {
            Some(t) => {
                mantissa = t.0;
                scale = t.1;
            },
            None => {
                proof {
                    lemma_sum_values_prefix(values_view(values@), i + 1);
                }
                return Value::Null;
            },
        }
        i = i + 1;
    }
    assert(values_view(values@).take(i as int) =~= values_view(values@));
    if scale == 0 {
        Value::Integer(mantissa)
    } else {
        match Decimal::new(mantissa, scale) {
            Some(d) => Value::Float(d),
            None => Value::Null,
        }
    }
}

/// Once a prefix has no total, the whole list has none.
pub proof fn lemma_sum_values_prefix(values: Seq<ValueView>, n: int)
    requires
        0 <= n <= values.len(),
        sum_values(values.take(n)) is None,
    ensures
        sum_values(values) is None,
    decreases values.len(),
{
    if n < values.len() {
        assert(values.drop_last().take(n) =~= values.take(n));
        lemma_sum_values_prefix(values.drop_last(), n);
    } else {
        assert(values.take(n) =~= values);
    }
}

/// Whether `name`, written in capitals, is `SUM`: it is `sum` in any mix of
/// upper and lower case. The long `ſ` counts as an `s`: written large it is
/// an `S`.
pub open spec fn names_sum(name: Seq<char>) -> bool {
    &&& name.len() == 3
    &&& (name[0] == 'S' || name[0] == 's' || name[0] == '\u{17f}')
    &&& (name[1] == 'U' || name[1] == 'u')
    &&& (name[2] == 'M' || name[2] == 'm')
}

/// Decides whether `name`, written in capitals, is `SUM`.
pub fn is_sum(name: &str) -> (r: bool)
    ensures
        r == names_sum(name@),
{
    if name.unicode_len() != 3 {
        return false;
    }
    let a = name.get_char(0);
    let b = name.get_char(1);
    let c = name.get_char(2);
    (a == 'S' || a == 's' || a == '\u{17f}') && (b == 'U' || b == 'u') && (c == 'M' || c == 'm')
}

/// The value of an aggregate's argument on one row. It fails when the
/// argument names a column that `columns` does not have or that `row` is
/// too short for.
pub open spec fn eval_arg(arg: AggregateArg, row: Seq<ValueView>, columns: Seq<ColumnView>)
    -> Result<ValueView, ErrorView> {
    match arg {
        AggregateArg::Column(name) => match column_index(columns, name@) {
            Some(i) => if i < row.len() {
                Ok(row[i])
            } else {
                Err(ErrorView::ColumnNotFound(name@))
            },
            None => Err(ErrorView::ColumnNotFound(name@)),
        },
        AggregateArg::Literal(v) => Ok(v@),
        _ => Ok(ValueView::Null),
    }
}

/// The values of an aggregate's argument on each of `rows`, in order, or the
/// failure on the first row on which it fails.
pub open spec fn eval_arg_on_rows(
    arg: AggregateArg,
    rows: Seq<Seq<ValueView>>,
    columns: Seq<ColumnView>,
) -> Result<Seq<ValueView>, ErrorView>
    decreases rows.len(),
{
    if rows.len() == 0 {
        Ok(Seq::empty())
    } else {
        match eval_arg_on_rows(arg, rows.drop_last(), columns) {
            Err(e) => Err(e),
            Ok(values) => match eval_arg(arg, rows.last(), columns) {
                Err(e) => Err(e),
                Ok(v) => Ok(values.push(v)),
            },
        }
    }
}

/// The value of an aggregate over `rows`. `SUM` of an expression is the total
/// of the expression's values (see [`sum_values`]). A function other than
/// `SUM`, a call without an argument, and a call on an argument that is no
/// expression, is `Null`.
pub open spec fn eval_aggregate(
    aggregate: AggregateSpec,
    rows: Seq<Seq<ValueView>>,
    columns: Seq<ColumnView>,
) -> Result<ValueView, ErrorView> {
    if !names_sum(aggregate.name@) || aggregate.arg is Missing
        || aggregate.arg is NotExpression {
        Ok(ValueView::Null)
    } else {
        match eval_arg_on_rows(aggregate.arg, rows, columns) {
            Err(e) => Err(e),
            Ok(values) => Ok(total_view(sum_values(values))),
        }
    }
}

/// Evaluates the argument of an aggregate on one row.
fn evaluate_arg(arg: &AggregateArg, row: &Row, columns: &Vec<ColumnDefinition>) -> (r: Result<
    Value,
    DbError,
>)
    ensures
        value_result_view(r) == eval_arg(*arg, row@, columns_view(columns@)),
{
    match arg {
        AggregateArg::Column(name) => {
            let values = row.values();
            match find_column(columns, name.as_str()) {
                Some(i) => {
                    if i < values.len() {
                        Ok(values[i].clone())
                    } else {
                        Err(DbError::ColumnNotFound(name.clone()))
                    }
                },
                None => Err(DbError::ColumnNotFound(name.clone())),
            }
        },
        AggregateArg::Literal(v) => Ok(v.clone()),
        _ => Ok(Value::Null),
    }
}

/// Once the argument fails on a prefix of the rows, it fails in the same way
/// on all of them.
pub proof fn lemma_eval_arg_prefix(
    arg: AggregateArg,
    rows: Seq<Seq<ValueView>>,
    n: int,
    columns: Seq<ColumnView>,
)
    requires
        0 <= n <= rows.len(),
        eval_arg_on_rows(arg, rows.take(n), columns) is Err,
    ensures
        eval_arg_on_rows(arg, rows, columns) == eval_arg_on_rows(arg, rows.take(n), columns),
    decreases rows.len(),
{
    if n < rows.len() {
        assert(rows.drop_last().take(n) =~= rows.take(n));
        lemma_eval_arg_prefix(arg, rows.drop_last(), n, columns);
    } else {
        assert(rows.take(n) =~= rows);
    }
}

/// Evaluates an aggregate function over a group of rows.
pub fn evaluate_function(
    aggregate: &AggregateSpec,
    rows: &Vec<Row>,
    columns: &Vec<ColumnDefinition>,
) -> (r: Result<Value, DbError>)
    ensures
        value_result_view(r) == eval_aggregate(
            *aggregate,
            stored_rows_view(rows@),
            columns_view(columns@),
        ),
{
    if !is_sum(aggregate.name.as_str()) {
        return Ok(Value::Null);
    }
    match aggregate.arg {
        AggregateArg::Missing => {
            return Ok(Value::Null);
        },
        AggregateArg::NotExpression => {
            return Ok(Value::Null);
        },
        _ => {},
    }
    let mut values: Vec<Value> = Vec::new();
    let mut i: usize = 0;
    let ghost all = stored_rows_view(rows@);
    assert(values_view(values@) =~= Seq::<ValueView>::empty());
    while i < rows.len()
        invariant
            i <= rows.len(),
            all == stored_rows_view(rows@),
            names_sum(aggregate.name@),
            !(aggregate.arg is Missing),
            !(aggregate.arg is NotExpression),
            eval_arg_on_rows(aggregate.arg, all.take(i as int), columns_view(columns@)) == Ok::<
                Seq<ValueView>,
                ErrorView,
            >(values_view(values@)),
        decreases rows.len() - i,
    {
        assert(all.take(i + 1).drop_last() =~= all.take(i as int));
        match evaluate_arg(&aggregate.arg, &rows[i], columns) {
            Ok(v) => {
                assert(values_view(values@.push(v)) =~= values_view(values@).push(v@));
                values.push(v);
            },
            Err(e) => {
                proof {
                    lemma_eval_arg_prefix(aggregate.arg, all, i + 1, columns_view(columns@));
                }
                return Err(e);
            },
        }
        i = i + 1;
    }
    assert(all.take(i as int) =~= all);
    Ok(sum_of(&values))
}

} // verus!
