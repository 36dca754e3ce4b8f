//! The `SELECT` pipeline over one table: projection, filter, grouping,
//! `HAVING`, `OFFSET` and `LIMIT`.

use crate::ast::{AggregateArg, AggregateSpec, Expression, ProjectionItem, SelectQuery};
use crate::error::{Construct, DbError, ErrorView};
use crate::eval::{eval_condition, evaluate_condition};
use crate::group::{
    aggregate_row, cell_of, compute_aggregate_row, distinct_keys, emit_groups,
    group_and_aggregate, grouped_rows, members, row_keys, rows_result_view,
};
use crate::result::{
    outcome_view, rows_view, texts_view, QueryResult, ResultView, SelectResult,
};
use crate::schema::{
    column_index, columns_view, find_column, lemma_column_index, ColumnDefinition, ColumnView,
};
use crate::table::{
    inserted_message, lemma_insert_fitting, lemma_insert_keeps_well_formed, tuple_values,
    row_fits, stored_rows_view, tuple_rows, values_view, Row, Table, TableView,
};
use crate::value::{Value, ValueView};
use vstd::prelude::*;

verus! {

/// One resolved column of a projection.
#[derive(Debug, Clone, Copy, PartialEq, Eq, Structural)]
pub enum Projected {
    /// The table's column at this position.
    Column(usize),
    /// The aggregate at this position of the projection list.
    Aggregate(usize),
}

/// Whether the projection list holds a `*`.
pub open spec fn has_wildcard(items: Seq<ProjectionItem>) -> bool {
    exists|k: int| 0 <= k < items.len() && #[trigger] items[k] is Wildcard
}

/// The first `n` columns of a table.
pub open spec fn all_columns(n: nat) -> Seq<Projected> {
    Seq::new(n, |i: int| Projected::Column(i as usize))
}

/// The first `upto` items of a projection list, resolved in order against
/// `columns`, or the failure of the first item that cannot be resolved: a
/// column that the table lacks, or an item that is neither a column nor an
/// aggregate.
pub open spec fn resolve_items(items: Seq<ProjectionItem>, columns: Seq<ColumnView>, upto: int)
    -> Result<Seq<Projected>, ErrorView>
    decreases upto,
{
    if upto <= 0 {
        Ok(Seq::empty())
    } else {
        match resolve_items(items, columns, upto - 1) {
            Err(e) => Err(e),
            Ok(done) => match items[upto - 1] {
                ProjectionItem::Column(name) => match column_index(columns, name@) {
                    Some(i) => Ok(done.push(Projected::Column(i as usize))),
                    None => Err(ErrorView::ColumnNotFound(name@)),
                },
                ProjectionItem::Aggregate(_) => Ok(
                    done.push(Projected::Aggregate((upto - 1) as usize)),
                ),
                _ => Err(ErrorView::Unsupported(Construct::SelectItem)),
            },
        }
    }
}

/// The columns a projection list asks for. A list with a `*` in it asks for
/// every column of the table, in declaration order, whatever else it holds.
pub open spec fn resolve_projection(items: Seq<ProjectionItem>, columns: Seq<ColumnView>)
    -> Result<Seq<Projected>, ErrorView> {
    if has_wildcard(items) {
        Ok(all_columns(columns.len()))
    } else {
        resolve_items(items, columns, items.len() as int)
    }
}

/// The aggregate at position `k` of a projection list, if that item is one.
pub open spec fn item_aggregate(items: Seq<ProjectionItem>, k: int) -> Option<AggregateSpec> {
    if 0 <= k < items.len() {
        match items[k] {
            ProjectionItem::Aggregate(a) => Some(a),
            _ => None,
        }
    } else {
        None
    }
}

/// The display name of an aggregate: `LABEL(column)` when it is applied to a
/// column, the bare label otherwise. The label is the last part of the
/// function's name.
pub open spec fn aggregate_title(aggregate: AggregateSpec) -> Seq<char> {
    match aggregate.arg {
        AggregateArg::Column(c) => aggregate.label@ + "("@ + c@ + ")"@,
        _ => aggregate.label@,
    }
}

/// The display name of a projected column.
pub open spec fn title(p: Projected, items: Seq<ProjectionItem>, columns: Seq<ColumnView>) -> Seq<
    char,
> {
    match p {
        Projected::Column(c) => if c < columns.len() {
            columns[c as int].name
        } else {
            Seq::empty()
        },
        Projected::Aggregate(k) => match item_aggregate(items, k as int) {
            Some(a) => aggregate_title(a),
            None => Seq::empty(),
        },
    }
}

/// The display names of the projected columns, in order.
pub open spec fn titles(
    projected: Seq<Projected>,
    items: Seq<ProjectionItem>,
    columns: Seq<ColumnView>,
) -> Seq<Seq<char>> {
    Seq::new(projected.len(), |p: int| title(projected[p], items, columns))
}

/// Whether a row passes the `WHERE` clause; a query without one keeps every row.
pub open spec fn keeps(selection: Option<Expression>, row: Seq<ValueView>, columns: Seq<ColumnView>)
    -> Result<bool, ErrorView> {
    match selection {
        None => Ok(true),
        Some(condition) => eval_condition(condition, row, columns),
    }
}

/// The rows that pass the `WHERE` clause, in order, or the failure on the
/// first row on which the clause fails.
pub open spec fn filter_rows(
    rows: Seq<Seq<ValueView>>,
    selection: Option<Expression>,
    columns: Seq<ColumnView>,
) -> Result<Seq<Seq<ValueView>>, ErrorView>
    decreases rows.len(),
{
    if rows.len() == 0 {
        Ok(Seq::empty())
    } else {
        match filter_rows(rows.drop_last(), selection, columns) {
            Err(e) => Err(e),
            Ok(kept) => match keeps(selection, rows.last(), columns) {
                Err(e) => Err(e),
                Ok(true) => Ok(kept.push(rows.last())),
                Ok(false) => Ok(kept),
            },
        }
    }
}

/// The count an `OFFSET` or `LIMIT` clause gives: a non-negative integer
/// literal. Any other expression is refused as `what`.
pub open spec fn bound(clause: Option<Expression>, what: Construct) -> Result<
    Option<nat>,
    ErrorView,
> {
    match clause {
        None => Ok(None),
        Some(Expression::Literal(Value::Integer(n))) => if n >= 0 {
            Ok(Some(n as nat))
        } else {
            Err(ErrorView::Unsupported(what))
        },
        Some(_) => Err(ErrorView::Unsupported(what)),
    }
}

/// `rows` without its first `offset` rows, cut to at most `limit` rows.
pub open spec fn window<T>(rows: Seq<T>, offset: Option<nat>, limit: Option<nat>) -> Seq<T> {
    let start = match offset {
        Some(n) => if n < rows.len() {
            n
        } else {
            rows.len()
        },
        None => 0,
    };
    let rest = rows.skip(start as int);
    match limit {
        Some(n) => if n < rest.len() {
            rest.take(n as int)
        } else {
            rest
        },
        None => rest,
    }
}

/// The window holds the rows from position `offset` on, in order, as many as
/// there are but at most `limit`.
pub proof fn lemma_window<T>(rows: Seq<T>, offset: nat, limit: nat)
    ensures
        ({
            let cut = window(rows, Some(offset), Some(limit));
            let rest: int = if offset < rows.len() {
                rows.len() - offset
            } else {
                0
            };
            &&& cut.len() == if limit < rest {
                limit as int
            } else {
                rest
            }
            &&& forall|i: int| 0 <= i < cut.len() ==> cut[i] == rows[offset + i]
        }),
{
}

/// The value of a row at column `c`; `Null` past the end of the row.
pub open spec fn cell(row: Seq<ValueView>, c: int) -> ValueView {
    if 0 <= c < row.len() {
        row[c]
    } else {
        ValueView::Null
    }
}

/// Decides [`has_wildcard`].
fn contains_wildcard(items: &Vec<ProjectionItem>) -> (r: bool)
    ensures
        r == has_wildcard(items@),
{
    let mut k: usize = 0;
    while k < items.len()
        invariant
            k <= items.len(),
            forall|j: int| 0 <= j < k ==> !(#[trigger] items@[j] is Wildcard),
        decreases items.len() - k,
    {
        if let ProjectionItem::Wildcard = items[k] {
            return true;
        }
        k = k + 1;
    }
    false
}

/// The contents of what resolving a projection returned.
pub open spec fn projection_result_view(r: Result<Vec<Projected>, DbError>) -> Result<
    Seq<Projected>,
    ErrorView,
> {
    match r {
        Ok(projected) => Ok(projected@),
        Err(e) => Err(e@),
    }
}

/// Once a prefix of a projection list fails to resolve, the list fails in
/// the same way.
pub proof fn lemma_resolve_items_prefix(
    items: Seq<ProjectionItem>,
    columns: Seq<ColumnView>,
    n: int,
    upto: int,
)
    requires
        0 <= n <= upto,
        resolve_items(items, columns, n) is Err,
    ensures
        resolve_items(items, columns, upto) == resolve_items(items, columns, n),
    decreases upto,
{
    if n < upto {
        lemma_resolve_items_prefix(items, columns, n, upto - 1);
    }
}

/// Resolves a projection list against the columns of a table.
pub fn resolve(items: &Vec<ProjectionItem>, columns: &Vec<ColumnDefinition>) -> (r: Result<
    Vec<Projected>,
    DbError,
>)
    ensures
        projection_result_view(r) == resolve_projection(items@, columns_view(columns@)),
        r matches Ok(projected) ==> forall|p: int|
            0 <= p < projected.len() ==> match #[trigger] projected[p] {
                Projected::Column(c) => c < columns.len(),
                Projected::Aggregate(k) => item_aggregate(items@, k as int) is Some,
            },
{
    let mut out: Vec<Projected> = Vec::new();
    if contains_wildcard(items) {
        let mut c: usize = 0;
        while c < columns.len()
            invariant
                c <= columns.len(),
                out@ == all_columns(c as nat),
            decreases columns.len() - c,
        {
            out.push(Projected::Column(c));
            c = c + 1;
        }
        return Ok(out);
    }
    let mut k: usize = 0;
    while k < items.len()
        invariant
            k <= items.len(),
            !has_wildcard(items@),
            resolve_items(items@, columns_view(columns@), k as int) == Ok::<
                Seq<Projected>,
                ErrorView,
            >(out@),
            forall|p: int|
                0 <= p < out.len() ==> match #[trigger] out[p] {
                    Projected::Column(c) => c < columns.len(),
                    Projected::Aggregate(j) => item_aggregate(items@, j as int) is Some,
                },
        decreases items.len() - k,
    {
        match &items[k] {
            ProjectionItem::Column(name) => match find_column(columns, name.as_str()) {
                Some(i) => {
                    proof {
                        lemma_column_index(columns_view(columns@), name@);
                    }
                    out.push(Projected::Column(i));
                },
                None => {
                    proof {
                        lemma_resolve_items_prefix(
                            items@,
                            columns_view(columns@),
                            k + 1,
                            items.len() as int,
                        );
                    }
                    return Err(DbError::ColumnNotFound(name.clone()));
                },
            },
            ProjectionItem::Aggregate(_) => {
                out.push(Projected::Aggregate(k));
            },
            _ => {
                proof {
                    lemma_resolve_items_prefix(
                        items@,
                        columns_view(columns@),
                        k + 1,
                        items.len() as int,
                    );
                }
                return Err(DbError::Unsupported(Construct::SelectItem));
            },
        }
        k = k + 1;
    }
    Ok(out)
}

/// Builds the display name of an aggregate.
pub fn aggregate_name(aggregate: &AggregateSpec) -> (r: String)
    ensures
        r@ == aggregate_title(*aggregate),
{
    let mut out = aggregate.label.clone();
    match &aggregate.arg {
        AggregateArg::Column(c) => {
            out.append("(");
            out.append(c.as_str());
            out.append(")");
        },
        _ => {},
    }
    out
}

/// Builds the display names of the projected columns.
pub fn column_titles(
    projected: &Vec<Projected>,
    items: &Vec<ProjectionItem>,
    columns: &Vec<ColumnDefinition>,
) -> (r: Vec<String>)
    ensures
        texts_view(r@) == titles(projected@, items@, columns_view(columns@)),
{
    let mut out: Vec<String> = Vec::new();
    let mut p: usize = 0;
    while p < projected.len()
        invariant
            p <= projected.len(),
            out.len() == p,
            forall|q: int|
                0 <= q < p ==> out[q]@ == title(projected@[q], items@, columns_view(columns@)),
        decreases projected.len() - p,
    {
        let name = match projected[p] {
            Projected::Column(c) => {
                if c < columns.len() {
                    columns[c].name.clone()
                } else {
                    String::new()
                }
            },
            Projected::Aggregate(k) => {
                if k < items.len() {
                    match &items[k] {
                        ProjectionItem::Aggregate(a) => aggregate_name(a),
                        _ => String::new(),
                    }
                } else {
                    String::new()
                }
            },
        };
        out.push(name);
        p = p + 1;
    }
    out
}

/// The contents of what computing a list of rows returned.
pub open spec fn stored_result_view(r: Result<Vec<Row>, DbError>) -> Result<
    Seq<Seq<ValueView>>,
    ErrorView,
> {
    match r {
        Ok(rows) => Ok(stored_rows_view(rows@)),
        Err(e) => Err(e@),
    }
}

/// Once the `WHERE` clause fails on a prefix of the rows, it fails in the
/// same way on all of them.
pub proof fn lemma_filter_rows_prefix(
    rows: Seq<Seq<ValueView>>,
    n: int,
    selection: Option<Expression>,
    columns: Seq<ColumnView>,
)
    requires
        0 <= n <= rows.len(),
        filter_rows(rows.take(n), selection, columns) is Err,
    ensures
        filter_rows(rows, selection, columns) == filter_rows(rows.take(n), selection, columns),
    decreases rows.len(),
{
    if n < rows.len() {
        assert(rows.drop_last().take(n) =~= rows.take(n));
        lemma_filter_rows_prefix(rows.drop_last(), n, selection, columns);
    } else {
        assert(rows.take(n) =~= rows);
    }
}

/// Copies the rows that pass the `WHERE` clause.
pub fn filter(rows: &Vec<Row>, selection: &Option<Expression>, columns: &Vec<ColumnDefinition>)
    -> (r: Result<Vec<Row>, DbError>)
    ensures
        stored_result_view(r) == filter_rows(
            stored_rows_view(rows@),
            *selection,
            columns_view(columns@),
        ),
{
    let mut out: Vec<Row> = Vec::new();
    let mut i: usize = 0;
    let ghost all = stored_rows_view(rows@);
    assert(stored_rows_view(out@) =~= Seq::<Seq<ValueView>>::empty());
    while i < rows.len()
        invariant
            i <= rows.len(),
            all == stored_rows_view(rows@),
            filter_rows(all.take(i as int), *selection, columns_view(columns@)) == Ok::<
                Seq<Seq<ValueView>>,
                ErrorView,
            >(stored_rows_view(out@)),
        decreases rows.len() - i,
    {
        assert(all.take(i + 1).drop_last() =~= all.take(i as int));
        let keep = match selection {
            None => true,
            Some(condition) => match evaluate_condition(condition, &rows[i], columns) {
                Ok(b) => b,
                Err(e) => {
                    proof {
                        lemma_filter_rows_prefix(all, i + 1, *selection, columns_view(columns@));
                    }
                    return Err(e);
                },
            },
        };
        if keep {
            let copy = rows[i].clone();
            assert(stored_rows_view(out@.push(copy)) =~= stored_rows_view(out@).push(copy@));
            out.push(copy);
        }
        i = i + 1;
    }
    assert(all.take(i as int) =~= all);
    Ok(out)
}

/// Reads the count of an `OFFSET` or `LIMIT` clause.
pub fn read_bound(clause: &Option<Expression>, what: Construct) -> (r: Result<
    Option<u64>,
    DbError,
>)
    ensures
        match r {
            Ok(Some(n)) => bound(*clause, what) == Ok::<Option<nat>, ErrorView>(Some(n as nat)),
            Ok(None) => bound(*clause, what) == Ok::<Option<nat>, ErrorView>(None),
            Err(e) => bound(*clause, what) == Err::<Option<nat>, ErrorView>(e@),
        },
{
    match clause {
        None => Ok(None),
        Some(Expression::Literal(Value::Integer(n))) => {
            if *n >= 0 {
                Ok(Some(*n as u64))
            } else {
                Err(DbError::Unsupported(what))
            }
        },
        Some(_) => Err(DbError::Unsupported(what)),
    }
}

/// Drops the first `offset` rows and cuts the rest to at most `limit` rows.
pub fn apply_window(rows: Vec<Vec<Value>>, offset: Option<u64>, limit: Option<u64>) -> (r: Vec<
    Vec<Value>,
>)
    ensures
        rows_view(r@) == window(
            rows_view(rows@),
            match offset {
                Some(n) => Some(n as nat),
                None => None,
            },
            match limit {
                Some(n) => Some(n as nat),
                None => None,
            },
        ),
{
    let mut rows = rows;
    let start: usize = match offset {
        Some(n) => if n < rows.len() as u64 {
            n as usize
        } else {
            rows.len()
        },
        None => 0,
    };
    let mut rest = rows.split_off(start);
    match limit {
        Some(n) => {
            if n < rest.len() as u64 {
                rest.truncate(n as usize);
            }
        },
        None => {},
    }
    rest
}

/// One result row of a query without `GROUP BY`: a plain column takes its
/// value from `row`, an aggregate the value that `totals` holds for it.
pub open spec fn merge_row(projected: Seq<Projected>, totals: Seq<ValueView>, row: Seq<ValueView>)
    -> Seq<ValueView> {
    Seq::new(
        projected.len(),
        |p: int|
            match projected[p] {
                Projected::Column(c) => cell(row, c as int),
                Projected::Aggregate(_) => cell(totals, p),
            },
    )
}

/// The result rows of a query without `GROUP BY`: one per row, in order. An
/// aggregate is computed once, over all of `rows`, and stands in every
/// result row.
pub open spec fn plain_rows(
    projected: Seq<Projected>,
    items: Seq<ProjectionItem>,
    rows: Seq<Seq<ValueView>>,
    columns: Seq<ColumnView>,
) -> Result<Seq<Seq<ValueView>>, ErrorView> {
    match aggregate_row(projected, items, rows, columns) {
        Err(e) => Err(e),
        Ok(totals) => Ok(Seq::new(rows.len(), |i: int| merge_row(projected, totals, rows[i]))),
    }
}

/// What a `SELECT` over `table` returns. The steps, in order, each ending the
/// query with its failure: resolve the projection, filter the rows by the
/// `WHERE` clause, compute the result rows (grouped where the query has a
/// `GROUP BY`), read `OFFSET` and `LIMIT`, and cut the rows to that window.
pub open spec fn select_from(table: TableView, query: SelectQuery) -> Result<ResultView, ErrorView> {
    match resolve_projection(query.projection@, table.columns) {
        Err(e) => Err(e),
        Ok(projected) => match filter_rows(table.rows, query.selection, table.columns) {
            Err(e) => Err(e),
            Ok(filtered) => match (if query.group_by@.len() > 0 {
                grouped_rows(
                    projected,
                    query.projection@,
                    filtered,
                    query.group_by@,
                    query.having,
                    table.columns,
                )
            } else {
                plain_rows(projected, query.projection@, filtered, table.columns)
            }) {
                Err(e) => Err(e),
                Ok(rows) => match bound(query.offset, Construct::Offset) {
                    Err(e) => Err(e),
                    Ok(offset) => match bound(query.limit, Construct::Limit) {
                        Err(e) => Err(e),
                        Ok(limit) => Ok(
                            ResultView::Rows {
                                columns: titles(projected, query.projection@, table.columns),
                                rows: window(rows, offset, limit),
                            },
                        ),
                    },
                },
            },
        },
    }
}

/// Whether a query is `SELECT *` without any further clause.
pub open spec fn selects_all(query: SelectQuery) -> bool {
    &&& has_wildcard(query.projection@)
    &&& query.selection is None
    &&& query.group_by@.len() == 0
    &&& query.offset is None
    &&& query.limit is None
}

/// Without a `WHERE` clause every row is kept.
pub proof fn lemma_filter_without_condition(rows: Seq<Seq<ValueView>>, columns: Seq<ColumnView>)
    ensures
        filter_rows(rows, None, columns) == Ok::<Seq<Seq<ValueView>>, ErrorView>(rows),
    decreases rows.len(),
{
    if rows.len() > 0 {
        lemma_filter_without_condition(rows.drop_last(), columns);
        assert(rows.drop_last().push(rows.last()) =~= rows);
    } else {
        assert(rows =~= Seq::<Seq<ValueView>>::empty());
    }
}

/// A projection of plain columns alone gives a row for every group.
pub proof fn lemma_aggregate_row_of_columns(
    n: nat,
    items: Seq<ProjectionItem>,
    group: Seq<Seq<ValueView>>,
    columns: Seq<ColumnView>,
)
    ensures
        aggregate_row(all_columns(n), items, group, columns) is Ok,
    decreases n,
{
    if n > 0 {
        assert(all_columns(n).drop_last() =~= all_columns((n - 1) as nat));
        lemma_aggregate_row_of_columns((n - 1) as nat, items, group, columns);
    }
}

/// `SELECT *` without any further clause, over a table whose rows fit its
/// columns, returns the names of all columns in declaration order and all
/// rows in insertion order.
pub proof fn lemma_select_all(table: TableView, query: SelectQuery)
    requires
        selects_all(query),
        table.well_formed(),
        table.columns.len() <= usize::MAX,
    ensures
        select_from(table, query) == Ok::<ResultView, ErrorView>(
            ResultView::Rows {
                columns: Seq::new(table.columns.len(), |c: int| table.columns[c].name),
                rows: table.rows,
            },
        ),
{
    let n = table.columns.len();
    let projected = all_columns(n);
    lemma_filter_without_condition(table.rows, table.columns);
    lemma_aggregate_row_of_columns(n, query.projection@, table.rows, table.columns);
    let totals = aggregate_row(projected, query.projection@, table.rows, table.columns)->Ok_0;
    let rows = Seq::new(table.rows.len(), |i: int| merge_row(projected, totals, table.rows[i]));
    assert(rows =~= table.rows) by {
        assert forall|i: int| 0 <= i < table.rows.len() implies rows[i] == table.rows[i] by {}
    }
    assert(window(rows, None, None) =~= rows);
    assert(titles(projected, query.projection@, table.columns) =~= Seq::new(
        n,
        |c: int| table.columns[c].name,
    ));
}

/// After an `INSERT` of tuples that all fit, `SELECT *` returns the rows that
/// were there followed by the rows of the tuples, in the order of the
/// tuples, and the `INSERT` reports the number of tuples.
pub proof fn lemma_insert_then_select_all(
    table: TableView,
    tuples: Seq<Vec<Expression>>,
    query: SelectQuery,
)
    requires
        selects_all(query),
        table.well_formed(),
        table.columns.len() <= usize::MAX,
        forall|k: int|
            0 <= k < tuples.len() ==> row_fits(
                table.columns,
                #[trigger] tuple_values(tuples[k]@),
            ),
    ensures
        table.insert(tuples).1 == Ok::<ResultView, ErrorView>(
            ResultView::Success(inserted_message(tuples.len())),
        ),
        select_from(table.insert(tuples).0, query) == Ok::<ResultView, ErrorView>(
            ResultView::Rows {
                columns: Seq::new(table.columns.len(), |c: int| table.columns[c].name),
                rows: table.rows + tuple_rows(tuples),
            },
        ),
{
    lemma_insert_fitting(table.columns, table.rows, tuples);
    lemma_insert_keeps_well_formed(table, tuples);
    lemma_select_all(table.insert(tuples).0, query);
}

/// The row of a group has one value per projected column.
pub proof fn lemma_aggregate_row_len(
    projected: Seq<Projected>,
    items: Seq<ProjectionItem>,
    group: Seq<Seq<ValueView>>,
    columns: Seq<ColumnView>,
)
    ensures
        aggregate_row(projected, items, group, columns) matches Ok(row) ==> row.len()
            == projected.len(),
    decreases projected.len(),
{
    if projected.len() > 0 {
        lemma_aggregate_row_len(projected.drop_last(), items, group, columns);
    }
}

/// Every row that a grouped query emits has one value per projected column.
pub proof fn lemma_emit_groups_len(
    group_keys: Seq<Seq<ValueView>>,
    rows: Seq<Seq<ValueView>>,
    keys: Seq<Seq<ValueView>>,
    projected: Seq<Projected>,
    items: Seq<ProjectionItem>,
    having: Option<Expression>,
    columns: Seq<ColumnView>,
)
    ensures
        emit_groups(group_keys, rows, keys, projected, items, having, columns) matches Ok(out)
            ==> forall|i: int| 0 <= i < out.len() ==> (#[trigger] out[i]).len() == projected.len(),
    decreases group_keys.len(),
{
    if group_keys.len() > 0 {
        lemma_emit_groups_len(
            group_keys.drop_last(),
            rows,
            keys,
            projected,
            items,
            having,
            columns,
        );
        lemma_aggregate_row_len(
            projected,
            items,
            members(rows, keys, group_keys.last()),
            columns,
        );
    }
}

/// In the result of a query, every row has one value per column name, and
/// there are as many column names as the projection has columns.
pub proof fn lemma_result_arity(table: TableView, query: SelectQuery)
    ensures
        select_from(table, query) matches Ok(ResultView::Rows { columns, rows }) ==> forall|
            i: int,
        | 0 <= i < rows.len() ==> (#[trigger] rows[i]).len() == columns.len(),
{
    match resolve_projection(query.projection@, table.columns) {
        Err(_) => {},
        Ok(projected) => match filter_rows(table.rows, query.selection, table.columns) {
            Err(_) => {},
            Ok(filtered) => {
                if query.group_by@.len() > 0 {
                    match row_keys(filtered, query.group_by@, table.columns) {
                        Err(_) => {},
                        Ok(keys) => {
                            lemma_emit_groups_len(
                                distinct_keys(keys),
                                filtered,
                                keys,
                                projected,
                                query.projection@,
                                query.having,
                                table.columns,
                            );
                        },
                    }
                }
            },
        },
    }
}

/// Computes the result rows of a query without `GROUP BY`.
pub fn project_rows(
    rows: &Vec<Row>,
    projected: &Vec<Projected>,
    items: &Vec<ProjectionItem>,
    columns: &Vec<ColumnDefinition>,
) -> (r: Result<Vec<Vec<Value>>, DbError>)
    ensures
        rows_result_view(r) == plain_rows(
            projected@,
            items@,
            stored_rows_view(rows@),
            columns_view(columns@),
        ),
{
    let totals = compute_aggregate_row(projected, items, rows, columns)?;
    let mut out: Vec<Vec<Value>> = Vec::new();
    let mut i: usize = 0;
    while i < rows.len()
        invariant
            i <= rows.len(),
            out.len() == i,
            forall|j: int|
                0 <= j < i ==> values_view(#[trigger] out[j]@) == merge_row(
                    projected@,
                    values_view(totals@),
                    rows@[j]@,
                ),
        decreases rows.len() - i,
    {
        let mut line: Vec<Value> = Vec::new();
        let mut p: usize = 0;
        while p < projected.len()
            invariant
                p <= projected.len(),
                i < rows.len(),
                line.len() == p,
                forall|q: int|
                    0 <= q < p ==> (#[trigger] line[q])@ == merge_row(
                        projected@,
                        values_view(totals@),
                        rows@[i as int]@,
                    )[q],
            decreases projected.len() - p,
        {
            let v = match projected[p] {
                Projected::Column(c) => cell_of(&rows[i], c),
                Projected::Aggregate(_) => {
                    if p < totals.len() {
                        totals[p].clone()
                    } else {
                        Value::Null
                    }
                },
            };
            line.push(v);
            p = p + 1;
        }
        out.push(line);
        i = i + 1;
    }
    assert(rows_view(out@) =~= Seq::new(
        stored_rows_view(rows@).len(),
        |i: int| merge_row(projected@, values_view(totals@), stored_rows_view(rows@)[i]),
    ));
    Ok(out)
}

/// Runs a `SELECT` over one table.
pub fn select_rows(table: &Table, query: &SelectQuery) -> (r: Result<QueryResult, DbError>)
    ensures
        outcome_view(r) == select_from(table@, *query),
{
    let columns = table.columns();
    let projected = resolve(&query.projection, columns)?;
    let filtered = filter(table.rows(), &query.selection, columns)?;
    let rows = if query.group_by.len() > 0 {
        group_and_aggregate(
            &filtered,
            &projected,
            &query.projection,
            &query.group_by,
            &query.having,
            columns,
        )?
    } else {
        project_rows(&filtered, &projected, &query.projection, columns)?
    };
    let offset = read_bound(&query.offset, Construct::Offset)?;
    let limit = read_bound(&query.limit, Construct::Limit)?;
    let names = column_titles(&projected, &query.projection, columns);
    let cut = apply_window(rows, offset, limit);
    Ok(QueryResult::Rows(SelectResult { columns: names, rows: cut }))
}

} // verus!
