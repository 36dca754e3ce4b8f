//! Evaluation of scalar expressions and of conditions against one row.
//!
//! The evaluation is permissive: a scalar expression of a shape that it does
//! not know is `Null`, and a condition of a shape that it does not know is
//! `false`. Neither is an error. A `WHERE` clause with such a condition in it
//! therefore leaves rows out without a word; whoever writes queries has to
//! know which shapes [`eval_condition`] evaluates.

use crate::ast::{Expression, Operator};
use crate::error::{DbError, ErrorView};
use crate::schema::{column_index, columns_view, find_column, ColumnDefinition, ColumnView};
use crate::table::{values_view, Row};
use crate::value::{compare_values, compare_views, Value, ValueOrdering, ValueView};
use vstd::prelude::*;

verus! {

/// The value of a scalar expression on `row`, whose values are laid out as
/// `columns` says. It fails when the expression names a column that
/// `columns` does not have or that `row` is too short for.
pub open spec fn eval_expr(expr: Expression, row: Seq<ValueView>, columns: Seq<ColumnView>)
    -> Result<ValueView, ErrorView> {
    match expr {
        Expression::Identifier(name) => match column_index(columns, name@) {
            Some(i) => if i < row.len() {
                Ok(row[i])
            } else {
                Err(ErrorView::ColumnNotFound(name@))
            },
            None => Err(ErrorView::ColumnNotFound(name@)),
        },
        Expression::Literal(v) => Ok(v@),
        _ => Ok(ValueView::Null),
    }
}

/// The values of a list of scalar expressions on `row`, or the failure of
/// the first of them that fails.
pub open spec fn eval_exprs(list: Seq<Expression>, row: Seq<ValueView>, columns: Seq<ColumnView>)
    -> Result<Seq<ValueView>, ErrorView>
    decreases list.len(),
{
    if list.len() == 0 {
        Ok(Seq::empty())
    } else {
        match eval_exprs(list.drop_last(), row, columns) {
            Err(e) => Err(e),
            Ok(values) => match eval_expr(list.last(), row, columns) {
                Err(e) => Err(e),
                Ok(v) => Ok(values.push(v)),
            },
        }
    }
}

/// Whether `a op b` holds under the typed comparison. A pair without an
/// order satisfies no operator.
pub open spec fn comparison_holds(op: Operator, a: ValueView, b: ValueView) -> bool {
    match compare_views(a, b) {
        None => false,
        Some(o) => match op {
            Operator::Eq => o == ValueOrdering::Equal,
            Operator::NotEq => o != ValueOrdering::Equal,
            Operator::Gt => o == ValueOrdering::Greater,
            Operator::Lt => o == ValueOrdering::Less,
            Operator::GtEq => o != ValueOrdering::Less,
            Operator::LtEq => o != ValueOrdering::Greater,
            _ => false,
        },
    }
}

/// Whether `low <= v <= high` under the typed comparison.
pub open spec fn within(v: ValueView, low: ValueView, high: ValueView) -> bool {
    comparison_holds(Operator::GtEq, v, low) && comparison_holds(
        Operator::LtEq,
        v,
        high,
    )
}

/// The truth of a condition on `row`, or the failure of the first scalar in
/// it that fails (see [`eval_expr`]).
///
/// `AND` and `OR` evaluate both operands. A shape that is not a condition is
/// `false`.
pub open spec fn eval_condition(expr: Expression, row: Seq<ValueView>, columns: Seq<ColumnView>)
    -> Result<bool, ErrorView>
    decreases expr,
{
    match expr {
        Expression::BinaryOp { left, op, right } => match op {
            Operator::And => match eval_condition(*left, row, columns) {
                Err(e) => Err(e),
                Ok(a) => match eval_condition(*right, row, columns) {
                    Err(e) => Err(e),
                    Ok(b) => Ok(a && b),
                },
            },
            Operator::Or => match eval_condition(*left, row, columns) {
                Err(e) => Err(e),
                Ok(a) => match eval_condition(*right, row, columns) {
                    Err(e) => Err(e),
                    Ok(b) => Ok(a || b),
                },
            },
            Operator::Other => Ok(false),
            _ => match eval_expr(*left, row, columns) {
                Err(e) => Err(e),
                Ok(a) => match eval_expr(*right, row, columns) {
                    Err(e) => Err(e),
                    Ok(b) => Ok(comparison_holds(op, a, b)),
                },
            },
        },
        Expression::IsNull(inner) => match eval_expr(*inner, row, columns) {
            Err(e) => Err(e),
            Ok(v) => Ok(v is Null),
        },
        Expression::IsNotNull(inner) => match eval_expr(*inner, row, columns) {
            Err(e) => Err(e),
            Ok(v) => Ok(!(v is Null)),
        },
        Expression::InList { expr, list, negated } => match eval_expr(*expr, row, columns) {
            Err(e) => Err(e),
            Ok(v) => match eval_exprs(list@, row, columns) {
                Err(e) => Err(e),
                Ok(values) => Ok(values.contains(v) != negated),
            },
        },
        Expression::Between { expr, low, high, negated } => match eval_expr(
            *expr,
            row,
            columns,
        ) {
            Err(e) => Err(e),
            Ok(v) => match eval_expr(*low, row, columns) {
                Err(e) => Err(e),
                Ok(l) => match eval_expr(*high, row, columns) {
                    Err(e) => Err(e),
                    Ok(h) => Ok(within(v, l, h) != negated),
                },
            },
        },
        Expression::Nested(inner) => eval_condition(*inner, row, columns),
        _ => Ok(false),
    }
}

/// The contents of what an evaluation returned.
pub open spec fn value_result_view(r: Result<Value, DbError>) -> Result<ValueView, ErrorView> {
    match r {
        Ok(v) => Ok(v@),
        Err(e) => Err(e@),
    }
}

/// The contents of what the evaluation of a list returned.
pub open spec fn values_result_view(r: Result<Vec<Value>, DbError>) -> Result<
    Seq<ValueView>,
    ErrorView,
> {
    match r {
        Ok(values) => Ok(values_view(values@)),
        Err(e) => Err(e@),
    }
}

/// The contents of what the evaluation of a condition returned.
pub open spec fn truth_result_view(r: Result<bool, DbError>) -> Result<bool, ErrorView> {
    match r {
        Ok(b) => Ok(b),
        Err(e) => Err(e@),
    }
}

/// Evaluates a scalar expression on a row.
pub fn evaluate_expr(expr: &Expression, row: &Row, columns: &Vec<ColumnDefinition>) -> (r: Result<
    Value,
    DbError,
>)
    ensures
        value_result_view(r) == eval_expr(*expr, row@, columns_view(columns@)),
{
    match expr {
        Expression::Identifier(name) => {
            let values = row.values();
            match find_column(columns, name.as_str()) {
                Some(i) => {
                    if i < values.len() {
                        Ok(values[i].clone())
                    } else {
                        Err(DbError::ColumnNotFound(name.clone()))
                    }
                },
                None => Err(DbError::ColumnNotFound(name.clone())),
            }
        },
        Expression::Literal(v) => Ok(v.clone()),
        _ => Ok(Value::Null),
    }
}

/// Once a prefix of a list fails, the list fails in the same way.
pub proof fn lemma_eval_exprs_prefix(
    list: Seq<Expression>,
    n: int,
    row: Seq<ValueView>,
    columns: Seq<ColumnView>,
)
    requires
        0 <= n <= list.len(),
        eval_exprs(list.take(n), row, columns) is Err,
    ensures
        eval_exprs(list, row, columns) == eval_exprs(list.take(n), row, columns),
    decreases list.len(),
{
    if n < list.len() {
        assert(list.drop_last().take(n) =~= list.take(n));
        lemma_eval_exprs_prefix(list.drop_last(), n, row, columns);
    } else {
        assert(list.take(n) =~= list);
    }
}

/// A list of expressions has one value per expression.
pub proof fn lemma_eval_exprs_len(
    list: Seq<Expression>,
    row: Seq<ValueView>,
    columns: Seq<ColumnView>,
)
    ensures
        eval_exprs(list, row, columns) matches Ok(values) ==> values.len() == list.len(),
    decreases list.len(),
{
    if list.len() > 0 {
        lemma_eval_exprs_len(list.drop_last(), row, columns);
    }
}

/// The value of a list at a position is the value of the expression at that
/// position.
pub proof fn lemma_eval_exprs_at(
    list: Seq<Expression>,
    row: Seq<ValueView>,
    columns: Seq<ColumnView>,
    k: int,
)
    requires
        0 <= k < list.len(),
        eval_exprs(list, row, columns) is Ok,
    ensures
        eval_exprs(list, row, columns)->Ok_0.len() == list.len(),
        eval_expr(list[k], row, columns) == Ok::<ValueView, ErrorView>(
            eval_exprs(list, row, columns)->Ok_0[k],
        ),
    decreases list.len(),
{
    lemma_eval_exprs_len(list, row, columns);
    if k < list.len() - 1 {
        lemma_eval_exprs_len(list.drop_last(), row, columns);
        lemma_eval_exprs_at(list.drop_last(), row, columns, k);
    }
}

/// Evaluates a list of scalar expressions on a row.
pub fn evaluate_exprs(list: &Vec<Expression>, row: &Row, columns: &Vec<ColumnDefinition>) -> (r:
    Result<Vec<Value>, DbError>)
    ensures
        values_result_view(r) == eval_exprs(list@, row@, columns_view(columns@)),
{
    let mut out: Vec<Value> = Vec::new();
    let mut i: usize = 0;
    assert(values_view(out@) =~= Seq::<ValueView>::empty());
    while i < list.len()
        invariant
            i <= list.len(),
            eval_exprs(list@.take(i as int), row@, columns_view(columns@)) == Ok::<
                Seq<ValueView>,
                ErrorView,
            >(values_view(out@)),
        decreases list.len() - i,
    {
        assert(list@.take(i + 1).drop_last() =~= list@.take(i as int));
        match evaluate_expr(&list[i], row, columns) {
            Ok(v) => {
                assert(values_view(out@.push(v)) =~= values_view(out@).push(v@));
                out.push(v);
            },
            Err(e) => {
                proof {
                    lemma_eval_exprs_prefix(list@, i + 1, row@, columns_view(columns@));
                }
                return Err(e);
            },
        }
        i = i + 1;
    }
    assert(list@.take(i as int) =~= list@);
    Ok(out)
}

/// Tells whether `values` holds a value with the contents of `v`.
pub fn contains_value(values: &Vec<Value>, v: &Value) -> (r: bool)
    ensures
        r == values_view(values@).contains(v@),
{
    let mut i: usize = 0;
    while i < values.len()
        invariant
            i <= values.len(),
            forall|j: int| 0 <= j < i ==> values_view(values@)[j] != v@,
        decreases values.len() - i,
    {
        if values[i] == *v {
            assert(values_view(values@)[i as int] == v@);
            return true;
        }
        i = i + 1;
    }
    false
}

/// Decides `a op b` under the typed comparison.
pub fn compare_with(op: Operator, a: &Value, b: &Value) -> (r: bool)
    ensures
        r == comparison_holds(op, a@, b@),
{
    match compare_values(a, b) {
        None => false,
        Some(o) => match op {
            Operator::Eq => o == ValueOrdering::Equal,
            Operator::NotEq => o != ValueOrdering::Equal,
            Operator::Gt => o == ValueOrdering::Greater,
            Operator::Lt => o == ValueOrdering::Less,
            Operator::GtEq => o != ValueOrdering::Less,
            Operator::LtEq => o != ValueOrdering::Greater,
            _ => false,
        },
    }
}

/// Evaluates a condition on a row.
pub fn evaluate_condition(condition: &Expression, row: &Row, columns: &Vec<ColumnDefinition>) -> (r:
    Result<bool, DbError>)
    ensures
        truth_result_view(r) == eval_condition(*condition, row@, columns_view(columns@)),
    decreases condition,
{
    match condition {
        Expression::BinaryOp { left, op, right } => match op {
            Operator::And => {
                let a = evaluate_condition(left, row, columns)?;
                let b = evaluate_condition(right, row, columns)?;
                Ok(a && b)
            },
            Operator::Or => {
                let a = evaluate_condition(left, row, columns)?;
                let b = evaluate_condition(right, row, columns)?;
                Ok(a || b)
            },
            Operator::Other => Ok(false),
            _ => {
                let a = evaluate_expr(left, row, columns)?;
                let b = evaluate_expr(right, row, columns)?;
                Ok(compare_with(*op, &a, &b))
            },
        },
        Expression::IsNull(inner) => {
            let v = evaluate_expr(inner, row, columns)?;
            Ok(matches!(v, Value::Null))
        },
        Expression::IsNotNull(inner) => {
            let v = evaluate_expr(inner, row, columns)?;
            Ok(!matches!(v, Value::Null))
        },
        Expression::InList { expr, list, negated } => {
            let v = evaluate_expr(expr, row, columns)?;
            let values = evaluate_exprs(list, row, columns)?;
            Ok(contains_value(&values, &v) != *negated)
        },
        Expression::Between { expr, low, high, negated } => {
            let v = evaluate_expr(expr, row, columns)?;
            let l = evaluate_expr(low, row, columns)?;
            let h = evaluate_expr(high, row, columns)?;
            let inside = compare_with(Operator::GtEq, &v, &l) && compare_with(
                Operator::LtEq,
                &v,
                &h,
            );
            Ok(inside != *negated)
        },
        Expression::Nested(inner) => evaluate_condition(inner, row, columns),
        _ => Ok(false),
    }
}

/// The truth of a condition turned round; a failure stays.
pub open spec fn complement(truth: Result<bool, ErrorView>) -> Result<bool, ErrorView> {
    match truth {
        Ok(b) => Ok(!b),
        Err(e) => Err(e),
    }
}

/// `NOT IN` is the complement of `IN`: it holds exactly on the rows on which
/// `IN` does not, and fails exactly where `IN` fails.
pub proof fn lemma_not_in_complements(
    expr: Expression,
    list: Vec<Expression>,
    row: Seq<ValueView>,
    columns: Seq<ColumnView>,
)
    ensures
        eval_condition(
            Expression::InList { expr: Box::new(expr), list, negated: true },
            row,
            columns,
        ) == complement(
            eval_condition(
                Expression::InList { expr: Box::new(expr), list, negated: false },
                row,
                columns,
            ),
        ),
{
}

/// `NOT BETWEEN` is the complement of `BETWEEN`: it holds exactly on the rows
/// on which `BETWEEN` does not, and fails exactly where `BETWEEN` fails.
pub proof fn lemma_not_between_complements(
    expr: Expression,
    low: Expression,
    high: Expression,
    row: Seq<ValueView>,
    columns: Seq<ColumnView>,
)
    ensures
        eval_condition(
            Expression::Between {
                expr: Box::new(expr),
                low: Box::new(low),
                high: Box::new(high),
                negated: true,
            },
            row,
            columns,
        ) == complement(
            eval_condition(
                Expression::Between {
                    expr: Box::new(expr),
                    low: Box::new(low),
                    high: Box::new(high),
                    negated: false,
                },
                row,
                columns,
            ),
        ),
{
}

/// Two values of different kinds, and two values of which one is `Null`,
/// satisfy no operator.
pub proof fn lemma_comparison_needs_same_kind(op: Operator, a: ValueView, b: ValueView)
    requires
        a.kind() != b.kind() || a is Null || b is Null,
    ensures
        !comparison_holds(op, a, b),
{
}

/// A text compared with a boolean satisfies none of `=`, `<>`, `>`, `<`,
/// `>=`, `<=`, whichever side each stands on.
pub proof fn lemma_text_against_boolean(op: Operator, text: Seq<char>, flag: bool)
    ensures
        !comparison_holds(op, ValueView::Text(text), ValueView::Boolean(flag)),
        !comparison_holds(op, ValueView::Boolean(flag), ValueView::Text(text)),
{
}

/// A condition that compares a text literal with a boolean literal is false
/// on every row.
pub proof fn lemma_text_against_boolean_condition(
    op: Operator,
    text: Value,
    flag: Value,
    row: Seq<ValueView>,
    columns: Seq<ColumnView>,
)
    requires
        text is String,
        flag is Boolean,
        op != Operator::And,
        op != Operator::Or,
    ensures
        eval_condition(
            Expression::BinaryOp {
                left: Box::new(Expression::Literal(text)),
                op,
                right: Box::new(Expression::Literal(flag)),
            },
            row,
            columns,
        ) == Ok::<bool, ErrorView>(false),
{
}

} // verus!
