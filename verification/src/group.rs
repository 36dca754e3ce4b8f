//! `GROUP BY` and `HAVING`: partition rows by key, compute one row per
//! group, and keep the groups that pass the `HAVING` clause.

use crate::aggregate::{eval_aggregate, evaluate_function};
use crate::ast::{AggregateSpec, Expression, Operator, ProjectionItem};
use crate::error::{DbError, ErrorView};
use crate::eval::{
    compare_with, comparison_holds, eval_expr, eval_exprs, evaluate_exprs, lemma_eval_exprs_at,
    lemma_eval_exprs_len,
    truth_result_view, value_result_view, values_result_view,
};
use crate::result::rows_view;
use crate::schema::{
    column_index, columns_view, lemma_column_index, ColumnDefinition, ColumnView,
};
use crate::select::{aggregate_name, aggregate_title, cell, item_aggregate, Projected};
use crate::table::{clone_values, stored_rows_view, values_view, Row};
use crate::text::text_equal;
use crate::value::{Value, ValueView};
use vstd::prelude::*;

verus! {

/// The value that a plain column has for a whole group: its value in the
/// first row of the group, and `Null` for a group without rows.
///
/// This is a fallback, not a rule of grouping: the column need not be among
/// the `GROUP BY` expressions, and then the other rows of the group may hold
/// other values. For a column that the rows are grouped by, every row of the
/// group holds this value.
pub open spec fn representative_value(group: Seq<Seq<ValueView>>, c: int) -> ValueView {
    if group.len() > 0 {
        cell(group[0], c)
    } else {
        ValueView::Null
    }
}

/// The one row that stands for `group`: a plain column takes its
/// [`representative_value`], an aggregate is computed over all rows of the
/// group. Fails with the failure of the first aggregate that fails.
pub open spec fn aggregate_row(
    projected: Seq<Projected>,
    items: Seq<ProjectionItem>,
    group: Seq<Seq<ValueView>>,
    columns: Seq<ColumnView>,
) -> Result<Seq<ValueView>, ErrorView>
    decreases projected.len(),
{
    if projected.len() == 0 {
        Ok(Seq::empty())
    } else {
        match aggregate_row(projected.drop_last(), items, group, columns) {
            Err(e) => Err(e),
            Ok(done) => match projected.last() {
                Projected::Column(c) => Ok(done.push(representative_value(group, c as int))),
                Projected::Aggregate(k) => match item_aggregate(items, k as int) {
                    None => Ok(done.push(ValueView::Null)),
                    Some(a) => match eval_aggregate(a, group, columns) {
                        Err(e) => Err(e),
                        Ok(v) => Ok(done.push(v)),
                    },
                },
            },
        }
    }
}

/// The group key of each row: the values of the `GROUP BY` expressions on
/// it. Fails with the failure on the first row on which one of them fails.
pub open spec fn row_keys(
    rows: Seq<Seq<ValueView>>,
    group_by: Seq<Expression>,
    columns: Seq<ColumnView>,
) -> Result<Seq<Seq<ValueView>>, ErrorView>
    decreases rows.len(),
{
    if rows.len() == 0 {
        Ok(Seq::empty())
    } else {
        match row_keys(rows.drop_last(), group_by, columns) {
            Err(e) => Err(e),
            Ok(keys) => match eval_exprs(group_by, rows.last(), columns) {
                Err(e) => Err(e),
                Ok(key) => Ok(keys.push(key)),
            },
        }
    }
}

/// The keys that occur in `keys`, each once, in the order of their first
/// occurrence.
pub open spec fn distinct_keys(keys: Seq<Seq<ValueView>>) -> Seq<Seq<ValueView>>
    decreases keys.len(),
{
    if keys.len() == 0 {
        Seq::empty()
    } else {
        let before = distinct_keys(keys.drop_last());
        if before.contains(keys.last()) {
            before
        } else {
            before.push(keys.last())
        }
    }
}

/// The rows whose key is `key`, in order. `keys` holds the key of each row.
pub open spec fn members(
    rows: Seq<Seq<ValueView>>,
    keys: Seq<Seq<ValueView>>,
    key: Seq<ValueView>,
) -> Seq<Seq<ValueView>>
    decreases keys.len(),
{
    if keys.len() == 0 || rows.len() == 0 {
        Seq::empty()
    } else {
        let before = members(rows.drop_last(), keys.drop_last(), key);
        if keys.last() == key {
            before.push(rows.last())
        } else {
            before
        }
    }
}

/// The first position from `from` on at which the projection holds an
/// aggregate with the function and argument of `wanted`.
pub open spec fn aggregate_position(
    projected: Seq<Projected>,
    items: Seq<ProjectionItem>,
    wanted: AggregateSpec,
    from: int,
) -> Option<int>
    decreases projected.len() - from,
{
    if from < 0 || from >= projected.len() {
        None
    } else if holds_aggregate(projected[from], items, wanted) {
        Some(from)
    } else {
        aggregate_position(projected, items, wanted, from + 1)
    }
}

/// Whether `p` is an aggregate with the function and argument of `wanted`.
pub open spec fn holds_aggregate(p: Projected, items: Seq<ProjectionItem>, wanted: AggregateSpec)
    -> bool {
    match p {
        Projected::Aggregate(k) => match item_aggregate(items, k as int) {
            Some(a) => a.same_as(&wanted),
            None => false,
        },
        _ => false,
    }
}

/// The first position from `from` on at which the projection holds the
/// column called `name`.
pub open spec fn column_position(
    projected: Seq<Projected>,
    columns: Seq<ColumnView>,
    name: Seq<char>,
    from: int,
) -> Option<int>
    decreases projected.len() - from,
{
    if from < 0 || from >= projected.len() {
        None
    } else if holds_column(projected[from], columns, name) {
        Some(from)
    } else {
        column_position(projected, columns, name, from + 1)
    }
}

/// Whether `p` is the column called `name`.
pub open spec fn holds_column(p: Projected, columns: Seq<ColumnView>, name: Seq<char>) -> bool {
    match p {
        Projected::Column(c) => c < columns.len() && columns[c as int].name == name,
        _ => false,
    }
}

/// The value of a scalar of a `HAVING` clause on the row of a group: an
/// aggregate or a column is looked up by its position in the projection and
/// fails when the projection does not hold it; a literal is its value; any
/// other expression is `Null`.
pub open spec fn having_value(
    expr: Expression,
    row: Seq<ValueView>,
    projected: Seq<Projected>,
    items: Seq<ProjectionItem>,
    columns: Seq<ColumnView>,
) -> Result<ValueView, ErrorView> {
    match expr {
        Expression::Function(a) => match aggregate_position(projected, items, a, 0) {
            Some(p) => Ok(cell(row, p)),
            None => Err(ErrorView::ColumnNotFound(aggregate_title(a))),
        },
        Expression::Identifier(name) => match column_position(projected, columns, name@, 0) {
            Some(p) => Ok(cell(row, p)),
            None => Err(ErrorView::ColumnNotFound(name@)),
        },
        Expression::Literal(v) => Ok(v@),
        _ => Ok(ValueView::Null),
    }
}

/// The truth of a `HAVING` clause on the row of a group. `AND` and `OR`
/// evaluate both operands; a comparison compares two scalars (see
/// [`having_value`]); any other operator is `false`; an expression that is
/// not an operation holds when its value is the boolean `true`.
pub open spec fn having_condition(
    expr: Expression,
    row: Seq<ValueView>,
    projected: Seq<Projected>,
    items: Seq<ProjectionItem>,
    columns: Seq<ColumnView>,
) -> Result<bool, ErrorView>
    decreases expr,
{
    match expr {
        Expression::BinaryOp { left, op, right } => match op {
            Operator::And => match having_condition(*left, row, projected, items, columns) {
                Err(e) => Err(e),
                Ok(a) => match having_condition(*right, row, projected, items, columns) {
                    Err(e) => Err(e),
                    Ok(b) => Ok(a && b),
                },
            },
            Operator::Or => match having_condition(*left, row, projected, items, columns) {
                Err(e) => Err(e),
                Ok(a) => match having_condition(*right, row, projected, items, columns) {
                    Err(e) => Err(e),
                    Ok(b) => Ok(a || b),
                },
            },
            Operator::Other => Ok(false),
            _ => match having_value(*left, row, projected, items, columns) {
                Err(e) => Err(e),
                Ok(a) => match having_value(*right, row, projected, items, columns) {
                    Err(e) => Err(e),
                    Ok(b) => Ok(comparison_holds(op, a, b)),
                },
            },
        },
        _ => match having_value(expr, row, projected, items, columns) {
            Err(e) => Err(e),
            Ok(v) => Ok(v == ValueView::Boolean(true)),
        },
    }
}

/// Whether the row of a group passes the `HAVING` clause; a query without
/// one keeps every group.
pub open spec fn passes(
    having: Option<Expression>,
    row: Seq<ValueView>,
    projected: Seq<Projected>,
    items: Seq<ProjectionItem>,
    columns: Seq<ColumnView>,
) -> Result<bool, ErrorView> {
    match having {
        None => Ok(true),
        Some(condition) => having_condition(condition, row, projected, items, columns),
    }
}

/// The rows of the groups with the keys `group_keys`, in that order, without
/// the groups that the `HAVING` clause drops. Fails with the failure of the
/// first group whose row or whose `HAVING` clause fails.
pub open spec fn emit_groups(
    group_keys: Seq<Seq<ValueView>>,
    rows: Seq<Seq<ValueView>>,
    keys: Seq<Seq<ValueView>>,
    projected: Seq<Projected>,
    items: Seq<ProjectionItem>,
    having: Option<Expression>,
    columns: Seq<ColumnView>,
) -> Result<Seq<Seq<ValueView>>, ErrorView>
    decreases group_keys.len(),
{
    if group_keys.len() == 0 {
        Ok(Seq::empty())
    } else {
        match emit_groups(group_keys.drop_last(), rows, keys, projected, items, having, columns) {
            Err(e) => Err(e),
            Ok(out) => match aggregate_row(
                projected,
                items,
                members(rows, keys, group_keys.last()),
                columns,
            ) {
                Err(e) => Err(e),
                Ok(row) => match passes(having, row, projected, items, columns) {
                    Err(e) => Err(e),
                    Ok(true) => Ok(out.push(row)),
                    Ok(false) => Ok(out),
                },
            },
        }
    }
}

/// The result rows of a grouped query: one row per distinct key, in the order
/// in which the keys first occur among `rows`, without the groups that the
/// `HAVING` clause drops.
pub open spec fn grouped_rows(
    projected: Seq<Projected>,
    items: Seq<ProjectionItem>,
    rows: Seq<Seq<ValueView>>,
    group_by: Seq<Expression>,
    having: Option<Expression>,
    columns: Seq<ColumnView>,
) -> Result<Seq<Seq<ValueView>>, ErrorView> {
    match row_keys(rows, group_by, columns) {
        Err(e) => Err(e),
        Ok(keys) => emit_groups(distinct_keys(keys), rows, keys, projected, items, having, columns),
    }
}

/// Copies the value of a row at column `c`.
pub fn cell_of(row: &Row, c: usize) -> (r: Value)
    ensures
        r@ == cell(row@, c as int),
{
    let values = row.values();
    if c < values.len() {
        values[c].clone()
    } else {
        Value::Null
    }
}

/// Copies the value that column `c` has for a whole group (see
/// [`representative_value`]).
pub fn representative_of(group: &Vec<Row>, c: usize) -> (r: Value)
    ensures
        r@ == representative_value(stored_rows_view(group@), c as int),
{
    if group.len() > 0 {
        cell_of(&group[0], c)
    } else {
        Value::Null
    }
}

/// Once a prefix of the projection fails on a group, the projection fails in
/// the same way.
pub proof fn lemma_aggregate_row_prefix(
    projected: Seq<Projected>,
    n: int,
    items: Seq<ProjectionItem>,
    group: Seq<Seq<ValueView>>,
    columns: Seq<ColumnView>,
)
    requires
        0 <= n <= projected.len(),
        aggregate_row(projected.take(n), items, group, columns) is Err,
    ensures
        aggregate_row(projected, items, group, columns) == aggregate_row(
            projected.take(n),
            items,
            group,
            columns,
        ),
    decreases projected.len(),
{
    if n < projected.len() {
        assert(projected.drop_last().take(n) =~= projected.take(n));
        lemma_aggregate_row_prefix(projected.drop_last(), n, items, group, columns);
    } else {
        assert(projected.take(n) =~= projected);
    }
}

/// Computes the one row that stands for a group.
pub fn compute_aggregate_row(
    projected: &Vec<Projected>,
    items: &Vec<ProjectionItem>,
    group: &Vec<Row>,
    columns: &Vec<ColumnDefinition>,
) -> (r: Result<Vec<Value>, DbError>)
    ensures
        values_result_view(r) == aggregate_row(
            projected@,
            items@,
            stored_rows_view(group@),
            columns_view(columns@),
        ),
{
    let mut out: Vec<Value> = Vec::new();
    let mut p: usize = 0;
    assert(values_view(out@) =~= Seq::<ValueView>::empty());
    while p < projected.len()
        invariant
            p <= projected.len(),
            aggregate_row(
                projected@.take(p as int),
                items@,
                stored_rows_view(group@),
                columns_view(columns@),
            ) == Ok::<Seq<ValueView>, ErrorView>(values_view(out@)),
        decreases projected.len() - p,
    {
        assert(projected@.take(p + 1).drop_last() =~= projected@.take(p as int));
        let v = match projected[p] {
            Projected::Column(c) => representative_of(group, c),
            Projected::Aggregate(k) => {
                if k < items.len() {
                    match &items[k] {
                        ProjectionItem::Aggregate(a) => match evaluate_function(a, group, columns) {
                            Ok(v) => v,
                            Err(e) => {
                                proof {
                                    lemma_aggregate_row_prefix(
                                        projected@,
                                        p + 1,
                                        items@,
                                        stored_rows_view(group@),
                                        columns_view(columns@),
                                    );
                                }
                                return Err(e);
                            },
                        },
                        _ => Value::Null,
                    }
                } else {
                    Value::Null
                }
            },
        };
        assert(values_view(out@.push(v)) =~= values_view(out@).push(v@));
        out.push(v);
        p = p + 1;
    }
    assert(projected@.take(p as int) =~= projected@);
    Ok(out)
}

/// Looks up a scalar of a `HAVING` clause on the row of a group.
pub fn evaluate_having_expr(
    expr: &Expression,
    row: &Vec<Value>,
    projected: &Vec<Projected>,
    items: &Vec<ProjectionItem>,
    columns: &Vec<ColumnDefinition>,
) -> (r: Result<Value, DbError>)
    ensures
        value_result_view(r) == having_value(
            *expr,
            values_view(row@),
            projected@,
            items@,
            columns_view(columns@),
        ),
{
    match expr {
        Expression::Function(wanted) => {
            let mut p: usize = 0;
            while p < projected.len()
                invariant
                    p <= projected.len(),
                    *expr == Expression::Function(*wanted),
                    aggregate_position(projected@, items@, *wanted, 0) == aggregate_position(
                        projected@,
                        items@,
                        *wanted,
                        p as int,
                    ),
                decreases projected.len() - p,
            {
                let found = match projected[p] {
                    Projected::Aggregate(k) => {
                        if k < items.len() {
                            match &items[k] {
                                ProjectionItem::Aggregate(a) => a.is_same(wanted),
                                _ => false,
                            }
                        } else {
                            false
                        }
                    },
                    _ => false,
                };
                if found {
                    return Ok(
                        if p < row.len() {
                            row[p].clone()
                        } else {
                            Value::Null
                        },
                    );
                }
                p = p + 1;
            }
            Err(DbError::ColumnNotFound(aggregate_name(wanted)))
        },
        Expression::Identifier(name) => {
            let mut p: usize = 0;
            while p < projected.len()
                invariant
                    p <= projected.len(),
                    *expr == Expression::Identifier(*name),
                    column_position(projected@, columns_view(columns@), name@, 0)
                        == column_position(projected@, columns_view(columns@), name@, p as int),
                decreases projected.len() - p,
            {
                let found = match projected[p] {
                    Projected::Column(c) => c < columns.len() && text_equal(
                        columns[c].name.as_str(),
                        name.as_str(),
                    ),
                    _ => false,
                };
                if found {
                    return Ok(
                        if p < row.len() {
                            row[p].clone()
                        } else {
                            Value::Null
                        },
                    );
                }
                p = p + 1;
            }
            Err(DbError::ColumnNotFound(name.clone()))
        },
        Expression::Literal(v) => Ok(v.clone()),
        _ => Ok(Value::Null),
    }
}

/// Evaluates a `HAVING` clause on the row of a group.
pub fn evaluate_having_condition(
    condition: &Expression,
    row: &Vec<Value>,
    projected: &Vec<Projected>,
    items: &Vec<ProjectionItem>,
    columns: &Vec<ColumnDefinition>,
) -> (r: Result<bool, DbError>)
    ensures
        truth_result_view(r) == having_condition(
            *condition,
            values_view(row@),
            projected@,
            items@,
            columns_view(columns@),
        ),
    decreases condition,
{
    match condition {
        Expression::BinaryOp { left, op, right } => match op {
            Operator::And => {
                let a = evaluate_having_condition(left, row, projected, items, columns)?;
                let b = evaluate_having_condition(right, row, projected, items, columns)?;
                Ok(a && b)
            },
            Operator::Or => {
                let a = evaluate_having_condition(left, row, projected, items, columns)?;
                let b = evaluate_having_condition(right, row, projected, items, columns)?;
                Ok(a || b)
            },
            Operator::Other => Ok(false),
            _ => {
                let a = evaluate_having_expr(left, row, projected, items, columns)?;
                let b = evaluate_having_expr(right, row, projected, items, columns)?;
                Ok(compare_with(*op, &a, &b))
            },
        },
        _ => {
            let v = evaluate_having_expr(condition, row, projected, items, columns)?;
            Ok(
                match v {
                    Value::Boolean(b) => b,
                    _ => false,
                },
            )
        },
    }
}

/// Tells whether two lists of values have the same contents.
pub fn same_values(a: &Vec<Value>, b: &Vec<Value>) -> (r: bool)
    ensures
        r == (values_view(a@) == values_view(b@)),
{
    if a.len() != b.len() {
        assert(values_view(a@).len() != values_view(b@).len());
        return false;
    }
    let mut i: usize = 0;
    while i < a.len()
        invariant
            i <= a.len(),
            a.len() == b.len(),
            forall|j: int| 0 <= j < i ==> a[j]@ == b[j]@,
        decreases a.len() - i,
    {
        if !(a[i] == b[i]) {
            assert(values_view(a@)[i as int] != values_view(b@)[i as int]);
            return false;
        }
        i = i + 1;
    }
    assert(values_view(a@) =~= values_view(b@));
    true
}

/// A key is among the distinct keys exactly when it is among the keys.
pub proof fn lemma_distinct_contains(keys: Seq<Seq<ValueView>>, key: Seq<ValueView>)
    ensures
        distinct_keys(keys).contains(key) <==> keys.contains(key),
    decreases keys.len(),
{
    if keys.len() > 0 {
        let before = keys.drop_last();
        lemma_distinct_contains(before, key);
        lemma_distinct_contains(before, keys.last());
        if keys.contains(key) {
            let i = choose|i: int| 0 <= i < keys.len() && keys[i] == key;
            if i < keys.len() - 1 {
                assert(before[i] == key);
            }
        }
        if before.contains(key) {
            let i = choose|i: int| 0 <= i < before.len() && before[i] == key;
            assert(keys[i] == key);
        }
        let d = distinct_keys(before);
        if !d.contains(keys.last()) {
            assert(d.push(keys.last())[d.len() as int] == keys.last());
            if d.contains(key) {
                let i = choose|i: int| 0 <= i < d.len() && d[i] == key;
                assert(d.push(keys.last())[i] == key);
            }
        }
    }
}

/// No key occurs twice among the distinct keys.
pub proof fn lemma_distinct_no_duplicates(keys: Seq<Seq<ValueView>>)
    ensures
        forall|a: int, b: int|
            0 <= a < b < distinct_keys(keys).len() ==> distinct_keys(keys)[a] != distinct_keys(
                keys,
            )[b],
    decreases keys.len(),
{
    if keys.len() > 0 {
        let before = distinct_keys(keys.drop_last());
        lemma_distinct_no_duplicates(keys.drop_last());
        assert(distinct_keys(keys) == before || (!before.contains(keys.last())
            && distinct_keys(keys) == before.push(keys.last())));
    }
}

/// A key that no row has, has no members.
pub proof fn lemma_members_absent(
    rows: Seq<Seq<ValueView>>,
    keys: Seq<Seq<ValueView>>,
    key: Seq<ValueView>,
)
    requires
        !keys.contains(key),
    ensures
        members(rows, keys, key) == Seq::<Seq<ValueView>>::empty(),
    decreases keys.len(),
{
    if keys.len() > 0 && rows.len() > 0 {
        lemma_members_absent(rows.drop_last(), keys.drop_last(), key);
    }
}

/// Where the rows are grouped by a column, every row of a group holds the
/// same value in that column: the value that the key of the group has for it.
/// So the representative value of such a column is the value of all rows.
pub proof fn lemma_grouped_column(
    rows: Seq<Seq<ValueView>>,
    group_by: Seq<Expression>,
    columns: Seq<ColumnView>,
    key: Seq<ValueView>,
    k: int,
    c: int,
)
    requires
        row_keys(rows, group_by, columns) is Ok,
        0 <= k < group_by.len(),
        key.len() == group_by.len(),
        group_by[k] is Identifier,
        column_index(columns, group_by[k]->Identifier_0@) == Some(c),
    ensures
        ({
            let group = members(rows, row_keys(rows, group_by, columns)->Ok_0, key);
            &&& forall|i: int| 0 <= i < group.len() ==> cell(#[trigger] group[i], c) == key[k]
            &&& group.len() > 0 ==> representative_value(group, c) == key[k]
        }),
    decreases rows.len(),
{
    lemma_row_keys_len(rows, group_by, columns);
    if rows.len() > 0 {
        let keys = row_keys(rows, group_by, columns)->Ok_0;
        let before = members(rows.drop_last(), keys.drop_last(), key);
        let group = members(rows, keys, key);
        lemma_grouped_column(rows.drop_last(), group_by, columns, key, k, c);
        assert(keys.drop_last() =~= row_keys(rows.drop_last(), group_by, columns)->Ok_0);
        if keys.last() == key {
            let last_key = eval_exprs(group_by, rows.last(), columns);
            assert(last_key is Ok && keys.last() == last_key->Ok_0);
            lemma_eval_exprs_at(group_by, rows.last(), columns, k);
            assert(eval_expr(group_by[k], rows.last(), columns) == Ok::<ValueView, ErrorView>(
                key[k],
            ));
            lemma_column_index(columns, group_by[k]->Identifier_0@);
            assert(cell(rows.last(), c) == key[k]);
        }
        assert forall|i: int| 0 <= i < group.len() implies cell(#[trigger] group[i], c)
            == key[k] by {
            if i < before.len() {
                assert(group[i] == before[i]);
            }
        }
    }
}

/// The contents of what computing a list of lists of values returned.
pub open spec fn rows_result_view(r: Result<Vec<Vec<Value>>, DbError>) -> Result<
    Seq<Seq<ValueView>>,
    ErrorView,
> {
    match r {
        Ok(rows) => Ok(rows_view(rows@)),
        Err(e) => Err(e@),
    }
}

/// Once the keys fail on a prefix of the rows, they fail in the same way on
/// all of them.
pub proof fn lemma_row_keys_prefix(
    rows: Seq<Seq<ValueView>>,
    n: int,
    group_by: Seq<Expression>,
    columns: Seq<ColumnView>,
)
    requires
        0 <= n <= rows.len(),
        row_keys(rows.take(n), group_by, columns) is Err,
    ensures
        row_keys(rows, group_by, columns) == row_keys(rows.take(n), group_by, columns),
    decreases rows.len(),
{
    if n < rows.len() {
        assert(rows.drop_last().take(n) =~= rows.take(n));
        lemma_row_keys_prefix(rows.drop_last(), n, group_by, columns);
    } else {
        assert(rows.take(n) =~= rows);
    }
}

/// Computes the group key of each row.
pub fn compute_keys(rows: &Vec<Row>, group_by: &Vec<Expression>, columns: &Vec<ColumnDefinition>)
    -> (r: Result<Vec<Vec<Value>>, DbError>)
    ensures
        rows_result_view(r) == row_keys(
            stored_rows_view(rows@),
            group_by@,
            columns_view(columns@),
        ),
{
    let mut keys: Vec<Vec<Value>> = Vec::new();
    let mut i: usize = 0;
    let ghost all = stored_rows_view(rows@);
    assert(rows_view(keys@) =~= Seq::<Seq<ValueView>>::empty());
    while i < rows.len()
        invariant
            i <= rows.len(),
            all == stored_rows_view(rows@),
            row_keys(all.take(i as int), group_by@, columns_view(columns@)) == Ok::<
                Seq<Seq<ValueView>>,
                ErrorView,
            >(rows_view(keys@)),
        decreases rows.len() - i,
    {
        assert(all.take(i + 1).drop_last() =~= all.take(i as int));
        match evaluate_exprs(group_by, &rows[i], columns) {
            Ok(key) => {
                assert(rows_view(keys@.push(key)) =~= rows_view(keys@).push(values_view(key@)));
                keys.push(key);
            },
            Err(e) => {
                proof {
                    lemma_row_keys_prefix(all, i + 1, group_by@, columns_view(columns@));
                }
                return Err(e);
            },
        }
        i = i + 1;
    }
    assert(all.take(i as int) =~= all);
    Ok(keys)
}

/// The position of `key` among `group_keys`.
fn find_key(group_keys: &Vec<Vec<Value>>, key: &Vec<Value>) -> (r: Option<usize>)
    ensures
        match r {
            Some(g) => g < group_keys.len() && rows_view(group_keys@)[g as int] == values_view(
                key@,
            ),
            None => !rows_view(group_keys@).contains(values_view(key@)),
        },
{
    let mut g: usize = 0;
    while g < group_keys.len()
        invariant
            g <= group_keys.len(),
            forall|j: int| 0 <= j < g ==> rows_view(group_keys@)[j] != values_view(key@),
        decreases group_keys.len() - g,
    {
        if same_values(&group_keys[g], key) {
            return Some(g);
        }
        g = g + 1;
    }
    None
}

/// Appends `row` to the group at position `g`.
fn push_member(groups: &mut Vec<Vec<Row>>, g: usize, row: Row)
    requires
        g < old(groups).len(),
    ensures
        final(groups).len() == old(groups).len(),
        final(groups)[g as int]@ == old(groups)[g as int]@.push(row),
        forall|j: int| 0 <= j < old(groups).len() && j != g ==> final(groups)[j] == old(groups)[j],
{
    groups[g].push(row);
}

/// Partitions `rows` by key. Returns the distinct keys, in the order of their
/// first occurrence, and beside each key the rows that have it, in order.
pub fn partition(rows: &Vec<Row>, keys: &Vec<Vec<Value>>) -> (r: (Vec<Vec<Value>>, Vec<Vec<Row>>))
    requires
        keys.len() == rows.len(),
    ensures
        rows_view(r.0@) == distinct_keys(rows_view(keys@)),
        r.1.len() == r.0.len(),
        forall|g: int|
            0 <= g < r.1.len() ==> stored_rows_view(#[trigger] r.1[g]@) == members(
                stored_rows_view(rows@),
                rows_view(keys@),
                rows_view(r.0@)[g],
            ),
{
    let mut group_keys: Vec<Vec<Value>> = Vec::new();
    let mut groups: Vec<Vec<Row>> = Vec::new();
    let mut i: usize = 0;
    let ghost all_rows = stored_rows_view(rows@);
    let ghost all_keys = rows_view(keys@);
    while i < rows.len()
        invariant
            i <= rows.len(),
            keys.len() == rows.len(),
            all_rows == stored_rows_view(rows@),
            all_keys == rows_view(keys@),
            rows_view(group_keys@) == distinct_keys(all_keys.take(i as int)),
            groups.len() == group_keys.len(),
            forall|g: int|
                0 <= g < groups.len() ==> stored_rows_view(#[trigger] groups[g]@) == members(
                    all_rows.take(i as int),
                    all_keys.take(i as int),
                    rows_view(group_keys@)[g],
                ),
        decreases rows.len() - i,
    {
        let ghost rows_before = all_rows.take(i as int);
        let ghost keys_before = all_keys.take(i as int);
        let ghost rows_after = all_rows.take(i + 1);
        let ghost keys_after = all_keys.take(i + 1);
        let ghost key = values_view(keys@[i as int]@);
        proof {
            assert(rows_after.drop_last() =~= rows_before);
            assert(keys_after.drop_last() =~= keys_before);
            lemma_distinct_no_duplicates(keys_before);
            lemma_distinct_contains(keys_before, key);
        }
        let copy = rows[i].clone();
        match find_key(&group_keys, &keys[i]) {
            Some(found) => {
                push_member(&mut groups, found, copy);
                proof {
                }
            },
            None => {
                let mut group: Vec<Row> = Vec::new();
                group.push(copy);
                let own = clone_values(&keys[i]);
                proof {
                    lemma_members_absent(rows_before, keys_before, key);
                }
                group_keys.push(own);
                groups.push(group);
                proof {
                }
            },
        }
        i = i + 1;
    }
    assert(all_rows.take(i as int) =~= all_rows);
    assert(all_keys.take(i as int) =~= all_keys);
    (group_keys, groups)
}

/// Every row that a grouped query emits is the row of one of the groups and
/// passes the `HAVING` clause, and there are no more rows than groups.
pub proof fn lemma_emitted_rows(
    group_keys: Seq<Seq<ValueView>>,
    rows: Seq<Seq<ValueView>>,
    keys: Seq<Seq<ValueView>>,
    projected: Seq<Projected>,
    items: Seq<ProjectionItem>,
    having: Option<Expression>,
    columns: Seq<ColumnView>,
)
    ensures
        emit_groups(group_keys, rows, keys, projected, items, having, columns) matches Ok(out)
            ==> out.len() <= group_keys.len() && forall|i: int|
            0 <= i < out.len() ==> passes(having, #[trigger] out[i], projected, items, columns)
                == Ok::<bool, ErrorView>(true) && exists|g: int|
                0 <= g < group_keys.len() && aggregate_row(
                    projected,
                    items,
                    members(rows, keys, #[trigger] group_keys[g]),
                    columns,
                ) == Ok::<Seq<ValueView>, ErrorView>(out[i]),
    decreases group_keys.len(),
{
    if group_keys.len() > 0 {
        let before = group_keys.drop_last();
        lemma_emitted_rows(before, rows, keys, projected, items, having, columns);
        match emit_groups(group_keys, rows, keys, projected, items, having, columns) {
            Ok(out) => {
                let earlier = emit_groups(
                    before,
                    rows,
                    keys,
                    projected,
                    items,
                    having,
                    columns,
                )->Ok_0;
                assert forall|i: int| 0 <= i < out.len() implies passes(
                    having,
                    #[trigger] out[i],
                    projected,
                    items,
                    columns,
                ) == Ok::<bool, ErrorView>(true) && exists|g: int|
                    0 <= g < group_keys.len() && aggregate_row(
                        projected,
                        items,
                        members(rows, keys, #[trigger] group_keys[g]),
                        columns,
                    ) == Ok::<Seq<ValueView>, ErrorView>(out[i]) by {
                    if i < earlier.len() {
                        assert(out[i] == earlier[i]);
                        let g = choose|g: int|
                            0 <= g < before.len() && aggregate_row(
                                projected,
                                items,
                                members(rows, keys, #[trigger] before[g]),
                                columns,
                            ) == Ok::<Seq<ValueView>, ErrorView>(earlier[i]);
                        assert(group_keys[g] == before[g]);
                    } else {
                        assert(group_keys[group_keys.len() - 1] == group_keys.last());
                    }
                }
            },
            Err(_) => {},
        }
    }
}

/// Without a `HAVING` clause a grouped query emits one row for each group, in
/// the order of the groups: the row of that group.
pub proof fn lemma_every_group_emitted(
    group_keys: Seq<Seq<ValueView>>,
    rows: Seq<Seq<ValueView>>,
    keys: Seq<Seq<ValueView>>,
    projected: Seq<Projected>,
    items: Seq<ProjectionItem>,
    columns: Seq<ColumnView>,
)
    ensures
        emit_groups(group_keys, rows, keys, projected, items, None, columns) matches Ok(out)
            ==> out.len() == group_keys.len() && forall|g: int|
            0 <= g < out.len() ==> aggregate_row(
                projected,
                items,
                members(rows, keys, #[trigger] group_keys[g]),
                columns,
            ) == Ok::<Seq<ValueView>, ErrorView>(out[g]),
    decreases group_keys.len(),
{
    if group_keys.len() > 0 {
        let before = group_keys.drop_last();
        lemma_every_group_emitted(before, rows, keys, projected, items, columns);
        match emit_groups(group_keys, rows, keys, projected, items, None, columns) {
            Ok(out) => {
                assert forall|g: int| 0 <= g < out.len() implies aggregate_row(
                    projected,
                    items,
                    members(rows, keys, #[trigger] group_keys[g]),
                    columns,
                ) == Ok::<Seq<ValueView>, ErrorView>(out[g]) by {
                    if g < before.len() {
                        assert(group_keys[g] == before[g]);
                    }
                }
            },
            Err(_) => {},
        }
    }
}

/// A row is in the group of its own key.
pub proof fn lemma_members_present(
    rows: Seq<Seq<ValueView>>,
    keys: Seq<Seq<ValueView>>,
    i: int,
)
    requires
        rows.len() == keys.len(),
        0 <= i < rows.len(),
    ensures
        members(rows, keys, keys[i]).contains(rows[i]),
    decreases keys.len(),
{
    let group = members(rows, keys, keys[i]);
    if i == keys.len() - 1 {
        let before = members(rows.drop_last(), keys.drop_last(), keys[i]);
        assert(group == before.push(rows.last()));
        assert(group[before.len() as int] == rows[i]);
    } else {
        lemma_members_present(rows.drop_last(), keys.drop_last(), i);
        let before = members(rows.drop_last(), keys.drop_last(), keys[i]);
        let at = choose|at: int| 0 <= at < before.len() && before[at] == rows.drop_last()[i];
        assert(group[at] == rows[i]);
    }
}

/// Once a prefix of the groups fails, the groups fail in the same way.
pub proof fn lemma_emit_groups_prefix(
    group_keys: Seq<Seq<ValueView>>,
    n: int,
    rows: Seq<Seq<ValueView>>,
    keys: Seq<Seq<ValueView>>,
    projected: Seq<Projected>,
    items: Seq<ProjectionItem>,
    having: Option<Expression>,
    columns: Seq<ColumnView>,
)
    requires
        0 <= n <= group_keys.len(),
        emit_groups(group_keys.take(n), rows, keys, projected, items, having, columns) is Err,
    ensures
        emit_groups(group_keys, rows, keys, projected, items, having, columns) == emit_groups(
            group_keys.take(n),
            rows,
            keys,
            projected,
            items,
            having,
            columns,
        ),
    decreases group_keys.len(),
{
    if n < group_keys.len() {
        assert(group_keys.drop_last().take(n) =~= group_keys.take(n));
        lemma_emit_groups_prefix(
            group_keys.drop_last(),
            n,
            rows,
            keys,
            projected,
            items,
            having,
            columns,
        );
    } else {
        assert(group_keys.take(n) =~= group_keys);
    }
}

/// Groups `rows` by the values of the `GROUP BY` expressions and computes one
/// row per group, in the order in which the groups first occur. A group whose
/// row fails the `HAVING` clause is left out.
pub fn group_and_aggregate(
    rows: &Vec<Row>,
    projected: &Vec<Projected>,
    items: &Vec<ProjectionItem>,
    group_by: &Vec<Expression>,
    having: &Option<Expression>,
    columns: &Vec<ColumnDefinition>,
) -> (r: Result<Vec<Vec<Value>>, DbError>)
    ensures
        rows_result_view(r) == grouped_rows(
            projected@,
            items@,
            stored_rows_view(rows@),
            group_by@,
            *having,
            columns_view(columns@),
        ),
{
    let keys = compute_keys(rows, group_by, columns)?;
    proof {
        lemma_row_keys_len(stored_rows_view(rows@), group_by@, columns_view(columns@));
    }
    let (group_keys, groups) = partition(rows, &keys);
    let mut out: Vec<Vec<Value>> = Vec::new();
    let mut g: usize = 0;
    let ghost distinct = rows_view(group_keys@);
    assert(rows_view(out@) =~= Seq::<Seq<ValueView>>::empty());
    while g < groups.len()
        invariant
            g <= groups.len(),
            groups.len() == group_keys.len(),
            distinct == rows_view(group_keys@),
            distinct == distinct_keys(rows_view(keys@)),
            row_keys(stored_rows_view(rows@), group_by@, columns_view(columns@)) == Ok::<
                Seq<Seq<ValueView>>,
                ErrorView,
            >(rows_view(keys@)),
            forall|j: int|
                0 <= j < groups.len() ==> stored_rows_view(#[trigger] groups[j]@) == members(
                    stored_rows_view(rows@),
                    rows_view(keys@),
                    distinct[j],
                ),
            emit_groups(
                distinct.take(g as int),
                stored_rows_view(rows@),
                rows_view(keys@),
                projected@,
                items@,
                *having,
                columns_view(columns@),
            ) == Ok::<Seq<Seq<ValueView>>, ErrorView>(rows_view(out@)),
        decreases groups.len() - g,
    {
        assert(distinct.take(g + 1).drop_last() =~= distinct.take(g as int));
        let row = match compute_aggregate_row(projected, items, &groups[g], columns) {
            Ok(row) => row,
            Err(e) => {
                proof {
                    lemma_emit_groups_prefix(
                        distinct,
                        g + 1,
                        stored_rows_view(rows@),
                        rows_view(keys@),
                        projected@,
                        items@,
                        *having,
                        columns_view(columns@),
                    );
                }
                return Err(e);
            },
        };
        let keep = match having {
            None => true,
            Some(condition) => match evaluate_having_condition(
                condition,
                &row,
                projected,
                items,
                columns,
            ) {
                Ok(b) => b,
                Err(e) => {
                    proof {
                        lemma_emit_groups_prefix(
                            distinct,
                            g + 1,
                            stored_rows_view(rows@),
                            rows_view(keys@),
                            projected@,
                            items@,
                            *having,
                            columns_view(columns@),
                        );
                    }
                    return Err(e);
                },
            },
        };
        if keep {
            assert(rows_view(out@.push(row)) =~= rows_view(out@).push(values_view(row@)));
            out.push(row);
        }
        g = g + 1;
    }
    assert(distinct.take(g as int) =~= distinct);
    Ok(out)
}

/// There is one key per row, and every key has one value per `GROUP BY`
/// expression.
pub proof fn lemma_row_keys_len(
    rows: Seq<Seq<ValueView>>,
    group_by: Seq<Expression>,
    columns: Seq<ColumnView>,
)
    ensures
        row_keys(rows, group_by, columns) matches Ok(keys) ==> keys.len() == rows.len()
            && forall|i: int| 0 <= i < keys.len() ==> (#[trigger] keys[i]).len() == group_by.len(),
    decreases rows.len(),
{
    if rows.len() > 0 {
        lemma_row_keys_len(rows.drop_last(), group_by, columns);
        lemma_eval_exprs_len(group_by, rows.last(), columns);
    }
}

} // verus!
