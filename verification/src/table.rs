//! Rows and tables.

use crate::ast::Expression;
use crate::error::{DbError, ErrorView};
use crate::result::{outcome_view, QueryResult, ResultView};
use crate::schema::{clone_columns, columns_view, ColumnDefinition, ColumnView, DataType};
use crate::text::{count_to_text, natural_text};
use crate::value::{Value, ValueView};
use vstd::prelude::*;

verus! {

/// The contents of a list of values, in order.
pub open spec fn values_view(values: Seq<Value>) -> Seq<ValueView> {
    Seq::new(values.len(), |i: int| values[i]@)
}

/// One row of a table: an ordered list of values.
#[derive(Debug)]
pub struct Row {
    data: Vec<Value>,
}

impl View for Row {
    type V = Seq<ValueView>;

    closed spec fn view(&self) -> Seq<ValueView> {
        values_view(self.data@)
    }
}

impl Row {
    /// A row of these values.
    pub fn new(data: Vec<Value>) -> (r: Row)
        ensures
            r@ == values_view(data@),
    {
        Row { data }
    }

    /// The values of the row, in column order.
    pub fn values(&self) -> (r: &Vec<Value>)
        ensures
            values_view(r@) == self@,
    {
        &self.data
    }
}

/// Copies a list of values.
pub fn clone_values(values: &Vec<Value>) -> (r: Vec<Value>)
    ensures
        values_view(r@) == values_view(values@),
{
    let mut out: Vec<Value> = Vec::new();
    let mut i: usize = 0;
    while i < values.len()
        invariant
            i <= values.len(),
            out.len() == i,
            forall|j: int| 0 <= j < i ==> out[j]@ == values[j]@,
        decreases values.len() - i,
    {
        out.push(values[i].clone());
        i = i + 1;
    }
    out
}

impl Clone for Row {
    fn clone(&self) -> (r: Self)
        ensures
            r@ == self@,
    {
        Row { data: clone_values(&self.data) }
    }
}

/// Whether a column of type `data_type` takes the value `v`: a number fits an
/// integer or a float column, a text a text column, a boolean a boolean
/// column, and `Null` every column.
pub open spec fn type_accepts(data_type: DataType, v: ValueView) -> bool {
    match v {
        ValueView::Null => true,
        ValueView::Integer(_) => data_type is Integer || data_type is Float,
        ValueView::Float { .. } => data_type is Integer || data_type is Float,
        ValueView::Text(_) => data_type is String,
        ValueView::Boolean(_) => data_type is Boolean,
    }
}

/// Decides whether a column of type `data_type` takes `value`.
pub fn type_match(value: &Value, data_type: &DataType) -> (r: bool)
    ensures
        r == type_accepts(*data_type, value@),
{
    match value {
        Value::Null => true,
        Value::Integer(_) => matches!(data_type, DataType::Integer | DataType::Float),
        Value::Float(_) => matches!(data_type, DataType::Integer | DataType::Float),
        Value::String(_) => matches!(data_type, DataType::String(_)),
        Value::Boolean(_) => matches!(data_type, DataType::Boolean),
    }
}

/// Whether `values` has one value for each of `columns`, each of a fitting type.
pub open spec fn row_fits(columns: Seq<ColumnView>, values: Seq<ValueView>) -> bool {
    &&& values.len() == columns.len()
    &&& forall|j: int|
        0 <= j < columns.len() ==> type_accepts(#[trigger] columns[j].data_type, values[j])
}

/// The first position from `from` on at which a value does not fit its column.
pub open spec fn first_misfit(columns: Seq<ColumnView>, values: Seq<ValueView>, from: int)
    -> Option<int>
    decreases columns.len() - from,
{
    if from < 0 || from >= columns.len() || from >= values.len() {
        None
    } else if !type_accepts(columns[from].data_type, values[from]) {
        Some(from)
    } else {
        first_misfit(columns, values, from + 1)
    }
}

/// Why `values` cannot be a row under `columns`, if it cannot: it has another
/// length, or else the first of its values that does not fit has the wrong type.
pub open spec fn row_fault(columns: Seq<ColumnView>, values: Seq<ValueView>) -> Option<
    ErrorView,
> {
    if values.len() != columns.len() {
        Some(ErrorView::ArityMismatch { expected: columns.len(), found: values.len() })
    } else {
        match first_misfit(columns, values, 0) {
            Some(j) => Some(ErrorView::TypeMismatch(columns[j].name)),
            None => None,
        }
    }
}

/// What [`first_misfit`] finds is the first value that does not fit, and
/// where it finds none every value fits.
pub proof fn lemma_first_misfit(columns: Seq<ColumnView>, values: Seq<ValueView>, from: int)
    requires
        0 <= from,
        values.len() == columns.len(),
    ensures
        match first_misfit(columns, values, from) {
            Some(j) => from <= j < columns.len() && !type_accepts(
                columns[j].data_type,
                values[j],
            ),
            None => forall|j: int|
                from <= j < columns.len() ==> type_accepts(
                    #[trigger] columns[j].data_type,
                    values[j],
                ),
        },
    decreases columns.len() - from,
{
    if from < columns.len() && type_accepts(columns[from].data_type, values[from]) {
        lemma_first_misfit(columns, values, from + 1);
    }
}

/// A list of values is a row exactly when it has no fault.
pub proof fn lemma_row_fault(columns: Seq<ColumnView>, values: Seq<ValueView>)
    ensures
        row_fault(columns, values) is None <==> row_fits(columns, values),
{
    if values.len() == columns.len() {
        lemma_first_misfit(columns, values, 0);
    }
}

/// The value that an expression of a tuple gives: a literal gives its value,
/// every other expression `Null`.
pub open spec fn tuple_value(e: Expression) -> ValueView {
    match e {
        Expression::Literal(v) => v@,
        _ => ValueView::Null,
    }
}

/// The values of a tuple: one for each of its expressions, in order (see
/// [`tuple_value`]).
pub open spec fn tuple_values(tuple: Seq<Expression>) -> Seq<ValueView> {
    Seq::new(tuple.len(), |i: int| tuple_value(tuple[i]))
}

/// Appends the rows that `tuples` give to `rows`, tuple by tuple, up to the
/// first tuple with a fault. Returns the rows and that fault, if there is one.
/// The rows before the faulty tuple stay.
pub open spec fn insert_rows(
    columns: Seq<ColumnView>,
    rows: Seq<Seq<ValueView>>,
    tuples: Seq<Vec<Expression>>,
) -> (Seq<Seq<ValueView>>, Option<ErrorView>)
    decreases tuples.len(),
{
    if tuples.len() == 0 {
        (rows, None)
    } else {
        let values = tuple_values(tuples[0]@);
        match row_fault(columns, values) {
            Some(e) => (rows, Some(e)),
            None => insert_rows(columns, rows.push(values), tuples.drop_first()),
        }
    }
}

/// The message of an `INSERT` that took `n` tuples.
pub open spec fn inserted_message(n: nat) -> Seq<char> {
    "Inserted "@ + natural_text(n) + " row(s)"@
}

/// The contents of a [`Table`].
pub ghost struct TableView {
    pub name: Seq<char>,
    pub columns: Seq<ColumnView>,
    pub rows: Seq<Seq<ValueView>>,
}

impl TableView {
    /// Every row has one value per column, each of a fitting type.
    pub open spec fn well_formed(self) -> bool {
        forall|i: int| 0 <= i < self.rows.len() ==> row_fits(self.columns, #[trigger] self.rows[i])
    }

    /// The table after an `INSERT` of `tuples`, and what the statement returns.
    pub open spec fn insert(self, tuples: Seq<Vec<Expression>>) -> (
        TableView,
        Result<ResultView, ErrorView>,
    ) {
        let (rows, fault) = insert_rows(self.columns, self.rows, tuples);
        (
            TableView { name: self.name, columns: self.columns, rows },
            match fault {
                Some(e) => Err(e),
                None => Ok(ResultView::Success(inserted_message(tuples.len()))),
            },
        )
    }
}

/// The rows that a list of tuples gives: the values of each tuple.
pub open spec fn tuple_rows(tuples: Seq<Vec<Expression>>) -> Seq<Seq<ValueView>> {
    Seq::new(tuples.len(), |k: int| tuple_values(tuples[k]@))
}

/// Where every tuple fits the columns, all of them are appended, in order,
/// and there is no fault.
pub proof fn lemma_insert_fitting(
    columns: Seq<ColumnView>,
    rows: Seq<Seq<ValueView>>,
    tuples: Seq<Vec<Expression>>,
)
    requires
        forall|k: int|
            0 <= k < tuples.len() ==> row_fits(columns, #[trigger] tuple_values(tuples[k]@)),
    ensures
        insert_rows(columns, rows, tuples) == (rows + tuple_rows(tuples), None::<ErrorView>),
    decreases tuples.len(),
{
    if tuples.len() > 0 {
        let values = tuple_values(tuples[0]@);
        lemma_row_fault(columns, values);
        let rest = tuples.drop_first();
        lemma_insert_fitting(columns, rows.push(values), rest);
        assert(rows.push(values) + tuple_rows(rest) =~= rows + tuple_rows(tuples));
    }
}

/// A tuple with another number of expressions than the table has columns is
/// an arity fault, whatever its expressions are, and appends no row.
pub proof fn lemma_insert_arity(table: TableView, tuple: Vec<Expression>)
    requires
        tuple@.len() != table.columns.len(),
    ensures
        table.insert(seq![tuple]) == (
            table,
            Err::<ResultView, ErrorView>(
                ErrorView::ArityMismatch {
                    expected: table.columns.len(),
                    found: tuple@.len(),
                },
            ),
        ),
{
}

/// An `INSERT` appends to the rows that were there and keeps them in place,
/// and every row it appends fits the columns.
pub proof fn lemma_insert_rows_grow(
    columns: Seq<ColumnView>,
    rows: Seq<Seq<ValueView>>,
    tuples: Seq<Vec<Expression>>,
)
    ensures
        ({
            let after = insert_rows(columns, rows, tuples).0;
            &&& rows.len() <= after.len() <= rows.len() + tuples.len()
            &&& forall|i: int| 0 <= i < rows.len() ==> after[i] == rows[i]
            &&& forall|i: int| rows.len() <= i < after.len() ==> row_fits(columns, after[i])
            &&& insert_rows(columns, rows, tuples).1 is None ==> after.len() == rows.len()
                + tuples.len()
        }),
    decreases tuples.len(),
{
    if tuples.len() > 0 {
        let values = tuple_values(tuples[0]@);
        lemma_row_fault(columns, values);
        if row_fault(columns, values) is None {
            lemma_insert_rows_grow(columns, rows.push(values), tuples.drop_first());
        }
    }
}

/// An `INSERT` into a table whose rows all fit its columns leaves a table
/// whose rows all fit its columns, whether it succeeds or fails.
pub proof fn lemma_insert_keeps_well_formed(table: TableView, tuples: Seq<Vec<Expression>>)
    requires
        table.well_formed(),
    ensures
        table.insert(tuples).0.well_formed(),
        table.insert(tuples).0.columns == table.columns,
        table.insert(tuples).0.name == table.name,
{
    lemma_insert_rows_grow(table.columns, table.rows, tuples);
}

/// The contents of a list of rows, in order.
pub open spec fn stored_rows_view(rows: Seq<Row>) -> Seq<Seq<ValueView>> {
    Seq::new(rows.len(), |i: int| rows[i]@)
}

/// A table: a name, a fixed list of columns, and rows in insertion order.
#[derive(Debug)]
pub struct Table {
    name: String,
    columns: Vec<ColumnDefinition>,
    rows: Vec<Row>,
}

impl View for Table {
    type V = TableView;

    closed spec fn view(&self) -> TableView {
        TableView {
            name: self.name@,
            columns: columns_view(self.columns@),
            rows: stored_rows_view(self.rows@),
        }
    }
}

/// Evaluates a tuple: one value for each of its expressions.
pub fn evaluate_tuple(tuple: &Vec<Expression>) -> (r: Vec<Value>)
    ensures
        values_view(r@) == tuple_values(tuple@),
{
    let mut out: Vec<Value> = Vec::new();
    let mut i: usize = 0;
    while i < tuple.len()
        invariant
            i <= tuple.len(),
            out.len() == i,
            forall|j: int| 0 <= j < i ==> (#[trigger] out[j])@ == tuple_value(tuple[j]),
        decreases tuple.len() - i,
    {
        let value = match &tuple[i] {
            Expression::Literal(v) => v.clone(),
            _ => Value::Null,
        };
        out.push(value);
        i = i + 1;
    }
    assert(values_view(out@) =~= tuple_values(tuple@));
    out
}

/// Checks a list of values against the columns of a table.
pub fn check_row(columns: &Vec<ColumnDefinition>, values: &Vec<Value>) -> (r: Result<(), DbError>)
    ensures
        match r {
            Ok(_) => row_fault(columns_view(columns@), values_view(values@)) is None,
            Err(e) => row_fault(columns_view(columns@), values_view(values@)) == Some(e@),
        },
{
    if values.len() != columns.len() {
        return Err(DbError::ArityMismatch { expected: columns.len(), found: values.len() });
    }
    let mut j: usize = 0;
    while j < columns.len()
        invariant
            j <= columns.len(),
            values.len() == columns.len(),
            first_misfit(columns_view(columns@), values_view(values@), 0) == first_misfit(
                columns_view(columns@),
                values_view(values@),
                j as int,
            ),
        decreases columns.len() - j,
    {
        if !type_match(&values[j], &columns[j].data_type) {
            return Err(DbError::TypeMismatch(columns[j].name.clone()));
        }
        j = j + 1;
    }
    Ok(())
}

impl Clone for Table {
    /// A table of the same name with copies of the columns and of the rows.
    fn clone(&self) -> (r: Self)
        ensures
            r@ == self@,
    {
        proof {
            use_type_invariant(self);
        }
        let mut rows: Vec<Row> = Vec::new();
        let mut i: usize = 0;
        while i < self.rows.len()
            invariant
                i <= self.rows.len(),
                rows.len() == i,
                forall|j: int| 0 <= j < i ==> (#[trigger] rows[j])@ == self.rows[j]@,
            decreases self.rows.len() - i,
        {
            rows.push(self.rows[i].clone());
            i = i + 1;
        }
        let columns = clone_columns(&self.columns);
        assert(stored_rows_view(rows@) =~= stored_rows_view(self.rows@));
        Table { name: self.name.clone(), columns, rows }
    }
}

impl Table {
    #[verifier::type_invariant]
    spec fn rows_fit(self) -> bool {
        forall|i: int|
            0 <= i < self.rows.len() ==> row_fits(
                columns_view(self.columns@),
                #[trigger] self.rows[i]@,
            )
    }

    /// An empty table without columns.
    pub fn new(table_name: String) -> (r: Table)
        ensures
            r@ == (TableView { name: table_name@, columns: Seq::empty(), rows: Seq::empty() }),
    {
        let r = Table { name: table_name, columns: Vec::new(), rows: Vec::new() };
        assert(columns_view(r.columns@) =~= Seq::<ColumnView>::empty());
        assert(stored_rows_view(r.rows@) =~= Seq::<Seq<ValueView>>::empty());
        r
    }

    /// An empty table with the given columns.
    pub fn with_columns(table_name: String, columns: Vec<ColumnDefinition>) -> (r: Table)
        ensures
            r@ == (TableView {
                name: table_name@,
                columns: columns_view(columns@),
                rows: Seq::empty(),
            }),
    {
        let r = Table { name: table_name, columns, rows: Vec::new() };
        assert(stored_rows_view(r.rows@) =~= Seq::<Seq<ValueView>>::empty());
        r
    }

    /// The name of the table.
    pub fn name(&self) -> (r: &String)
        ensures
            r@ == self@.name,
    {
        &self.name
    }

    /// The columns, in declaration order.
    pub fn columns(&self) -> (r: &Vec<ColumnDefinition>)
        ensures
            columns_view(r@) == self@.columns,
    {
        &self.columns
    }

    /// The rows, in insertion order. Each of them fits the columns.
    pub fn rows(&self) -> (r: &Vec<Row>)
        ensures
            stored_rows_view(r@) == self@.rows,
            self@.well_formed(),
    {
        proof {
            use_type_invariant(self);
        }
        &self.rows
    }

    /// Appends one row per tuple, in order. A tuple has one value for each of
    /// its expressions, a literal its value and every other expression
    /// `Null`, and the values are matched to the columns by position. The
    /// first tuple with a fault ends the statement with that fault; the rows
    /// of the tuples before it stay.
    pub fn insert(&mut self, tuples: &Vec<Vec<Expression>>) -> (r: Result<QueryResult, DbError>)
        ensures
            (final(self)@, outcome_view(r)) == old(self)@.insert(tuples@),
    {
        let mut rows: Vec<Row> = Vec::new();
        proof {
            use_type_invariant(&*self);
        }
        std::mem::swap(&mut self.rows, &mut rows);
        let mut k: usize = 0;
        assert(tuples@.skip(0) =~= tuples@);
        while k < tuples.len()
            invariant
                k <= tuples.len(),
                self.name == old(self).name,
                self.columns == old(self).columns,
                self.rows@.len() == 0,
                forall|i: int|
                    0 <= i < rows.len() ==> row_fits(
                        columns_view(self.columns@),
                        #[trigger] rows[i]@,
                    ),
                insert_rows(
                    columns_view(self.columns@),
                    stored_rows_view(rows@),
                    tuples@.skip(k as int),
                ) == insert_rows(old(self)@.columns, old(self)@.rows, tuples@),
            decreases tuples.len() - k,
        {
            let values = evaluate_tuple(&tuples[k]);
            assert(tuples@.skip(k as int).drop_first() =~= tuples@.skip(k + 1));
            match check_row(&self.columns, &values) {
                Err(e) => {
                    self.rows = rows;
                    return Err(e);
                },
                Ok(_) => {},
            }
            let row = Row::new(values);
            proof {
                lemma_row_fault(columns_view(self.columns@), row@);
                assert(stored_rows_view(rows@.push(row)) =~= stored_rows_view(rows@).push(row@));
            }
            rows.push(row);
            k = k + 1;
        }
        self.rows = rows;
        let mut message = String::from_str("Inserted ");
        let count = count_to_text(tuples.len());
        message.append(count.as_str());
        message.append(" row(s)");
        Ok(QueryResult::Success(message))
    }
}

} // verus!
