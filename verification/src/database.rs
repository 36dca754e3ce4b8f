//! The catalog of tables and the execution of statements against it.

use crate::ast::{Expression, FromClause, InsertSource, SelectQuery, SqlStatement};
use crate::error::{Construct, DbError, ErrorView};
use crate::lower::{parse_statement, states, text_fault, MAX_NESTING};
use crate::result::{outcome_view, QueryResult, ResultView};
use crate::schema::{clone_columns, columns_view, ColumnDefinition, ColumnView};
use crate::select::{select_from, select_rows};
use crate::table::{lemma_insert_keeps_well_formed, Table, TableView};
use crate::text::text_equal;
use vstd::prelude::*;

verus! {

/// The contents of a catalog: its tables, by name.
pub type Catalog = Map<Seq<char>, TableView>;

/// The message of a `CREATE TABLE` that succeeded.
pub open spec fn created_message() -> Seq<char> {
    "Successfully create table"@
}

/// The message of a `DROP TABLE` that succeeded.
pub open spec fn dropped_message() -> Seq<char> {
    "Successfuly deleted table"@
}

/// `CREATE TABLE`: fails when the name is taken, whatever the columns are;
/// otherwise the catalog gains an empty table with these columns.
pub open spec fn create_step(catalog: Catalog, name: Seq<char>, columns: Seq<ColumnView>) -> (
    Catalog,
    Result<ResultView, ErrorView>,
) {
    if catalog.contains_key(name) {
        (catalog, Err(ErrorView::TableExists(name)))
    } else {
        (
            catalog.insert(name, TableView { name, columns, rows: Seq::empty() }),
            Ok(ResultView::Success(created_message())),
        )
    }
}

/// `DROP TABLE`: fails when the table is absent and `if_exists` is not set;
/// otherwise the catalog is left without a table of that name.
pub open spec fn drop_step(catalog: Catalog, name: Seq<char>, if_exists: bool) -> (
    Catalog,
    Result<ResultView, ErrorView>,
) {
    if !catalog.contains_key(name) && !if_exists {
        (catalog, Err(ErrorView::TableNotFound(name)))
    } else {
        (catalog.remove(name), Ok(ResultView::Success(dropped_message())))
    }
}

/// `INSERT`: fails when the table is absent, then when the source is not a
/// `VALUES` list; otherwise the table takes the tuples (see
/// [`TableView::insert`]).
pub open spec fn insert_step(catalog: Catalog, table: Seq<char>, source: InsertSource) -> (
    Catalog,
    Result<ResultView, ErrorView>,
) {
    if !catalog.contains_key(table) {
        (catalog, Err(ErrorView::TableNotFound(table)))
    } else {
        match source {
            InsertSource::Values(tuples) => {
                let (after, outcome) = catalog[table].insert(tuples@);
                (catalog.insert(table, after), outcome)
            },
            InsertSource::Unsupported => (
                catalog,
                Err(ErrorView::Unsupported(Construct::InsertSource)),
            ),
        }
    }
}

/// `SELECT`: fails when the `FROM` clause is not a single bare table, then
/// when the catalog has no such table; otherwise it is the query over that
/// table (see [`select_from`]).
pub open spec fn select_step(catalog: Catalog, query: SelectQuery) -> Result<
    ResultView,
    ErrorView,
> {
    match query.from {
        FromClause::Table(name) => if catalog.contains_key(name@) {
            select_from(catalog[name@], query)
        } else {
            Err(ErrorView::TableNotFound(name@))
        },
        _ => Err(ErrorView::InvalidFrom),
    }
}

/// The catalog after a statement, and what the statement returns.
pub open spec fn step(catalog: Catalog, statement: SqlStatement) -> (
    Catalog,
    Result<ResultView, ErrorView>,
) {
    match statement {
        SqlStatement::CreateTable { name, columns, .. } => create_step(
            catalog,
            name@,
            columns_view(columns@),
        ),
        SqlStatement::DropTable { name, if_exists } => drop_step(catalog, name@, if_exists),
        SqlStatement::Insert { table, source, .. } => insert_step(catalog, table@, source),
        SqlStatement::Select(query) => (catalog, select_step(catalog, query)),
    }
}

/// Creating a table twice under one name fails the second time, whatever the
/// two column lists are, and the second attempt changes nothing.
pub proof fn lemma_create_twice(
    catalog: Catalog,
    name: Seq<char>,
    first: Seq<ColumnView>,
    second: Seq<ColumnView>,
)
    ensures
        ({
            let once = create_step(catalog, name, first).0;
            create_step(once, name, second) == (
                once,
                Err::<ResultView, ErrorView>(ErrorView::TableExists(name)),
            )
        }),
{
}

/// Two `CREATE TABLE` statements with the same table name, one after the
/// other: the second fails.
pub proof fn lemma_create_statement_twice(
    catalog: Catalog,
    first: SqlStatement,
    second: SqlStatement,
)
    requires
        first is CreateTable,
        second is CreateTable,
        first->CreateTable_name@ == second->CreateTable_name@,
    ensures
        step(step(catalog, first).0, second).1 == Err::<ResultView, ErrorView>(
            ErrorView::TableExists(second->CreateTable_name@),
        ),
        step(step(catalog, first).0, second).0 == step(catalog, first).0,
{
    lemma_create_twice(
        catalog,
        first->CreateTable_name@,
        columns_view(first->CreateTable_columns@),
        columns_view(second->CreateTable_columns@),
    );
}

/// Dropping a table that is absent: with `IF EXISTS` it succeeds and changes
/// nothing, without it fails and changes nothing.
pub proof fn lemma_drop_absent(catalog: Catalog, name: Seq<char>)
    requires
        !catalog.contains_key(name),
    ensures
        drop_step(catalog, name, true) == (
            catalog,
            Ok::<ResultView, ErrorView>(ResultView::Success(dropped_message())),
        ),
        drop_step(catalog, name, false) == (
            catalog,
            Err::<ResultView, ErrorView>(ErrorView::TableNotFound(name)),
        ),
{
}

/// After a table was dropped it is absent, so dropping it again without
/// `IF EXISTS` fails.
pub proof fn lemma_drop_twice(catalog: Catalog, name: Seq<char>, if_exists: bool)
    ensures
        ({
            let once = drop_step(catalog, name, if_exists);
            once.1 is Ok ==> drop_step(once.0, name, false) == (
                once.0,
                Err::<ResultView, ErrorView>(ErrorView::TableNotFound(name)),
            )
        }),
{
}

/// A statement that fails leaves the catalog as it was, but for an `INSERT`
/// into an existing table, which keeps the rows before the faulty tuple.
pub proof fn lemma_failure_changes_nothing(catalog: Catalog, statement: SqlStatement)
    requires
        step(catalog, statement).1 is Err,
        !(statement is Insert && catalog.contains_key(statement->Insert_table@)
            && statement->Insert_source is Values),
    ensures
        step(catalog, statement).0 == catalog,
{
}

/// Every table of the catalog holds only rows that fit its columns, and is
/// filed under its own name.
pub open spec fn well_formed(catalog: Catalog) -> bool {
    forall|name: Seq<char>| #[trigger]
        catalog.contains_key(name) ==> catalog[name].well_formed() && catalog[name].name == name
}

/// No statement breaks a catalog: after any statement, successful or not,
/// every row of every table still fits the columns of its table.
pub proof fn lemma_step_keeps_well_formed(catalog: Catalog, statement: SqlStatement)
    requires
        well_formed(catalog),
    ensures
        well_formed(step(catalog, statement).0),
{
    match statement {
        SqlStatement::Insert { table, source, .. } => {
            if catalog.contains_key(table@) {
                match source {
                    InsertSource::Values(tuples) => {
                        lemma_insert_keeps_well_formed(catalog[table@], tuples@);
                    },
                    _ => {},
                }
            }
        },
        _ => {},
    }
}

/// What holds of a catalog and an outcome after the execution of a text.
/// Where the text gives no statement (see [`text_fault`]), the catalog is as
/// before and the outcome is that fault. Where it gives one, catalog and
/// outcome are those of a statement that the text states (see [`states`]),
/// nested at most [`MAX_NESTING`] deep.
pub open spec fn ran(
    sql: Seq<char>,
    before: Catalog,
    after: Catalog,
    outcome: Result<ResultView, ErrorView>,
) -> bool {
    match text_fault(sql) {
        Some(e) => after == before && outcome == Err::<ResultView, ErrorView>(e),
        None => exists|statement: SqlStatement|
            states(statement, sql) && statement.nests_within(MAX_NESTING as nat) && (
                after,
                outcome,
            ) == #[trigger] step(before, statement),
    }
}

/// Whether one of `tables` is called `name`.
pub open spec fn has_name(tables: Seq<Table>, name: Seq<char>) -> bool {
    exists|i: int| 0 <= i < tables.len() && #[trigger] name_at(tables, i) == name
}

/// The name of the table at position `i`.
pub open spec fn name_at(tables: Seq<Table>, i: int) -> Seq<char> {
    tables[i]@.name
}

/// A position at which `tables` holds a table called `name`.
pub open spec fn position(tables: Seq<Table>, name: Seq<char>) -> int {
    choose|i: int| 0 <= i < tables.len() && #[trigger] name_at(tables, i) == name
}

/// No two of `tables` have the same name.
pub open spec fn distinct_names(tables: Seq<Table>) -> bool {
    forall|i: int, j: int|
        0 <= i < j < tables.len() ==> #[trigger] name_at(tables, i) != #[trigger] name_at(
            tables,
            j,
        )
}

/// The tables of a list without repeated names, by name.
pub open spec fn tables_map(tables: Seq<Table>) -> Catalog {
    Map::new(|name: Seq<char>| has_name(tables, name), |name: Seq<char>| tables[position(tables, name)]@)
}

/// In a list without repeated names, each table is found under its name.
pub proof fn lemma_table_at(tables: Seq<Table>, i: int)
    requires
        distinct_names(tables),
        0 <= i < tables.len(),
    ensures
        tables_map(tables).contains_key(name_at(tables, i)),
        tables_map(tables)[name_at(tables, i)] == tables[i]@,
{
    let name = name_at(tables, i);
    assert(has_name(tables, name));
    assert(position(tables, name) == i);
}

/// Replacing a table by one of the same name replaces it in the catalog.
pub proof fn lemma_replace_table(before: Seq<Table>, after: Seq<Table>, i: int)
    requires
        distinct_names(before),
        0 <= i < before.len(),
        after.len() == before.len(),
        after[i]@.name == before[i]@.name,
        forall|j: int| 0 <= j < before.len() && j != i ==> after[j] == before[j],
    ensures
        distinct_names(after),
        sound(before) && after[i]@.well_formed() ==> sound(after),
        tables_map(after) == tables_map(before).insert(name_at(before, i), after[i]@),
{
    assert forall|j: int| 0 <= j < before.len() implies name_at(after, j) == name_at(
        before,
        j,
    ) by {}
    let target = tables_map(before).insert(name_at(before, i), after[i]@);
    assert forall|n: Seq<char>| #[trigger]
        tables_map(after).contains_key(n) <==> target.contains_key(n) by {
        if has_name(before, n) {
            assert(name_at(after, position(before, n)) == n);
        }
        if has_name(after, n) {
            assert(name_at(before, position(after, n)) == n);
        }
    }
    assert forall|n: Seq<char>| #[trigger] tables_map(after).contains_key(n) implies tables_map(
        after,
    )[n] == target[n] by {
        let p = position(after, n);
        lemma_table_at(after, p);
        lemma_table_at(before, p);
        lemma_table_at(before, i);
    }
}

/// Appending a table under a name that is not taken files it in the catalog.
pub proof fn lemma_add_table(before: Seq<Table>, table: Table)
    requires
        distinct_names(before),
        !has_name(before, table@.name),
    ensures
        distinct_names(before.push(table)),
        sound(before) && table@.well_formed() ==> sound(before.push(table)),
        tables_map(before.push(table)) == tables_map(before).insert(table@.name, table@),
{
    let after = before.push(table);
    let target = tables_map(before).insert(table@.name, table@);
    assert(name_at(after, before.len() as int) == table@.name);
    assert forall|i: int, j: int| 0 <= i < j < after.len() implies name_at(after, i) != name_at(
        after,
        j,
    ) by {
        assert(name_at(after, i) == name_at(before, i));
        if j < before.len() {
            assert(name_at(after, j) == name_at(before, j));
        }
    }
    assert forall|n: Seq<char>| #[trigger]
        tables_map(after).contains_key(n) <==> target.contains_key(n) by {
        if has_name(before, n) {
            assert(name_at(after, position(before, n)) == n);
        }
        if has_name(after, n) {
            let p = position(after, n);
            if p < before.len() {
                assert(name_at(before, p) == n);
            }
        }
    }
    assert forall|n: Seq<char>| #[trigger] tables_map(after).contains_key(n) implies tables_map(
        after,
    )[n] == target[n] by {
        let p = position(after, n);
        lemma_table_at(after, p);
        if p < before.len() {
            lemma_table_at(before, p);
        }
    }
    assert(tables_map(after) =~= target);
    assert forall|i: int| 0 <= i < before.len() implies after[i] == before[i] by {}
}

/// Taking a table out of the list takes it out of the catalog.
pub proof fn lemma_remove_table(before: Seq<Table>, i: int)
    requires
        distinct_names(before),
        0 <= i < before.len(),
    ensures
        distinct_names(before.remove(i)),
        sound(before) ==> sound(before.remove(i)),
        tables_map(before.remove(i)) == tables_map(before).remove(name_at(before, i)),
{
    let after = before.remove(i);
    assert forall|j: int| 0 <= j < after.len() implies name_at(after, j) == name_at(
        before,
        if j < i {
            j
        } else {
            j + 1
        },
    ) by {}
    let target = tables_map(before).remove(name_at(before, i));
    assert forall|n: Seq<char>| #[trigger]
        tables_map(after).contains_key(n) <==> target.contains_key(n) by {
        if has_name(after, n) {
            let p = position(after, n);
            let q = if p < i {
                p
            } else {
                p + 1
            };
            assert(name_at(before, q) == n);
        }
        if has_name(before, n) && n != name_at(before, i) {
            let p = position(before, n);
            let q = if p < i {
                p
            } else {
                p - 1
            };
            assert(name_at(after, q) == n);
        }
    }
    assert forall|n: Seq<char>| #[trigger] tables_map(after).contains_key(n) implies tables_map(
        after,
    )[n] == target[n] by {
        let p = position(after, n);
        lemma_table_at(after, p);
        let q = if p < i {
            p
        } else {
            p + 1
        };
        lemma_table_at(before, q);
    }
}

/// No two of `tables` have the same name, and the rows of each fit its columns.
pub open spec fn sound(tables: Seq<Table>) -> bool {
    &&& distinct_names(tables)
    &&& forall|i: int| 0 <= i < tables.len() ==> (#[trigger] tables[i])@.well_formed()
}

/// The catalog of a sound list of tables is well-formed.
pub proof fn lemma_sound_catalog(tables: Seq<Table>)
    requires
        sound(tables),
    ensures
        well_formed(tables_map(tables)),
{
    assert forall|name: Seq<char>| #[trigger]
        tables_map(tables).contains_key(name) implies tables_map(tables)[name].well_formed()
        && tables_map(tables)[name].name == name by {
        let p = position(tables, name);
        assert(name_at(tables, p) == name);
    }
}
/// Two lists of tables with the same contents, table by table, are equally
/// sound and have the same catalog.
pub proof fn lemma_same_tables(one: Seq<Table>, other: Seq<Table>)
    requires
        one.len() == other.len(),
        forall|j: int| 0 <= j < one.len() ==> (#[trigger] other[j])@ == one[j]@,
    ensures
        sound(one) ==> sound(other),
        distinct_names(one) ==> tables_map(other) == tables_map(one),
{
    assert forall|j: int| 0 <= j < one.len() implies name_at(other, j) == name_at(one, j) by {}
    if distinct_names(one) {
        assert forall|n: Seq<char>| #[trigger]
            tables_map(other).contains_key(n) <==> tables_map(one).contains_key(n) by {
            if has_name(one, n) {
                assert(name_at(other, position(one, n)) == n);
            }
            if has_name(other, n) {
                assert(name_at(one, position(other, n)) == n);
            }
        }
        assert forall|n: Seq<char>| #[trigger] tables_map(other).contains_key(n) implies tables_map(
            other,
        )[n] == tables_map(one)[n] by {
            let p = position(other, n);
            assert(name_at(one, p) == n);
            lemma_table_at(other, p);
            lemma_table_at(one, p);
        }
        assert(tables_map(other) =~= tables_map(one));
    }
}

/// A database: a catalog of tables with distinct names.
#[derive(Debug)]
pub struct Database {
    tables: Vec<Table>,
}

impl View for Database {
    type V = Catalog;

    closed spec fn view(&self) -> Catalog {
        tables_map(self.tables@)
    }
}

impl Clone for Database {
    /// A database with copies of all tables.
    fn clone(&self) -> (r: Self)
        ensures
            r@ == self@,
    {
        proof {
            use_type_invariant(self);
        }
        let mut tables: Vec<Table> = Vec::new();
        let mut i: usize = 0;
        while i < self.tables.len()
            invariant
                i <= self.tables.len(),
                tables.len() == i,
                forall|j: int| 0 <= j < i ==> (#[trigger] tables[j])@ == self.tables[j]@,
            decreases self.tables.len() - i,
        {
            tables.push(self.tables[i].clone());
            i = i + 1;
        }
        proof {
            lemma_same_tables(self.tables@, tables@);
        }
        Database { tables }
    }
}

impl Database {
    #[verifier::type_invariant]
    spec fn tables_are_sound(self) -> bool {
        sound(self.tables@)
    }

    /// A database without tables.
    pub fn new() -> (r: Database)
        ensures
            r@ == Map::<Seq<char>, TableView>::empty(),
            well_formed(r@),
    {
        let r = Database { tables: Vec::new() };
        r
    }

    /// The position of the table called `name`.
    fn find_table(&self, name: &str) -> (r: Option<usize>)
        ensures
            match r {
                Some(i) => i < self.tables.len() && name_at(self.tables@, i as int) == name@
                    && self@.contains_key(name@) && self@[name@] == self.tables[i as int]@,
                None => !self@.contains_key(name@),
            },
    {
        let mut i: usize = 0;
        while i < self.tables.len()
            invariant
                i <= self.tables.len(),
                forall|j: int| 0 <= j < i ==> name_at(self.tables@, j) != name@,
            decreases self.tables.len() - i,
        {
            if text_equal(self.tables[i].name().as_str(), name) {
                proof {
                    use_type_invariant(self);
                    lemma_table_at(self.tables@, i as int);
                }
                return Some(i);
            }
            i = i + 1;
        }
        None
    }

    /// Looks a table up by name.
    pub fn get_table(&self, name: &str) -> (r: Result<&Table, DbError>)
        ensures
            match r {
                Ok(table) => self@.contains_key(name@) && table@ == self@[name@]
                    && table@.name == name@ && table@.well_formed(),
                Err(e) => !self@.contains_key(name@) && e@ == ErrorView::TableNotFound(name@),
            },
            well_formed(self@),
    {
        proof {
            use_type_invariant(self);
            lemma_sound_catalog(self.tables@);
        }
        match self.find_table(name) {
            Some(i) => Ok(&self.tables[i]),
            None => Err(DbError::TableNotFound(String::from_str(name))),
        }
    }

    /// Adds an empty table. Fails, and changes nothing, when the name is taken.
    pub fn create_table(&mut self, name: String, columns: &Vec<ColumnDefinition>) -> (r: Result<
        QueryResult,
        DbError,
    >)
        ensures
            (final(self)@, outcome_view(r)) == create_step(
                old(self)@,
                name@,
                columns_view(columns@),
            ),
            well_formed(final(self)@),
    {
        proof {
            use_type_invariant(&*self);
            lemma_sound_catalog(self.tables@);
        }
        match self.find_table(name.as_str()) {
            Some(_) => Err(DbError::TableExists(name)),
            None => {
                let table = Table::with_columns(name, clone_columns(columns));
                let mut tables: Vec<Table> = Vec::new();
                proof {
                    use_type_invariant(&*self);
                }
                std::mem::swap(&mut self.tables, &mut tables);
                let ghost before = tables@;
                tables.push(table);
                proof {
                    lemma_add_table(before, table);
                    lemma_sound_catalog(tables@);
                }
                self.tables = tables;
                Ok(QueryResult::Success(String::from_str("Successfully create table")))
            },
        }
    }

    /// Removes a table with all its rows. Fails, and changes nothing, when
    /// the table is absent and `if_exists` is not set; with `if_exists` set an
    /// absent table is no fault.
    pub fn drop_table(&mut self, name: String, if_exists: bool) -> (r: Result<
        QueryResult,
        DbError,
    >)
        ensures
            (final(self)@, outcome_view(r)) == drop_step(old(self)@, name@, if_exists),
            well_formed(final(self)@),
    {
        proof {
            use_type_invariant(&*self);
            lemma_sound_catalog(self.tables@);
        }
        match self.find_table(name.as_str()) {
            None => {
                if !if_exists {
                    return Err(DbError::TableNotFound(name));
                }
            },
            Some(i) => {
                let mut tables: Vec<Table> = Vec::new();
                proof {
                    use_type_invariant(&*self);
                    lemma_remove_table(self.tables@, i as int);
                }
                std::mem::swap(&mut self.tables, &mut tables);
                let _ = tables.remove(i);
                proof {
                    lemma_sound_catalog(tables@);
                }
                self.tables = tables;
            },
        }
        Ok(QueryResult::Success(String::from_str("Successfuly deleted table")))
    }

    /// Appends rows to a table (see [`Table::insert`]). Fails, and changes
    /// nothing, when the table is absent or the source is not a `VALUES`
    /// list.
    pub fn insert(&mut self, table: &str, source: &InsertSource) -> (r: Result<
        QueryResult,
        DbError,
    >)
        ensures
            (final(self)@, outcome_view(r)) == insert_step(old(self)@, table@, *source),
            well_formed(final(self)@),
    {
        proof {
            use_type_invariant(&*self);
            lemma_sound_catalog(self.tables@);
        }
        let i = match self.find_table(table) {
            Some(i) => i,
            None => {
                return Err(DbError::TableNotFound(String::from_str(table)));
            },
        };
        let tuples = match source {
            InsertSource::Values(tuples) => tuples,
            InsertSource::Unsupported => {
                return Err(DbError::Unsupported(Construct::InsertSource));
            },
        };
        let mut tables: Vec<Table> = Vec::new();
        proof {
            use_type_invariant(&*self);
        }
        std::mem::swap(&mut self.tables, &mut tables);
        let ghost before = tables@;
        let r = insert_at(&mut tables, i, tuples);
        proof {
            lemma_replace_table(before, tables@, i as int);
            lemma_insert_keeps_well_formed(before[i as int]@, tuples@);
            lemma_sound_catalog(tables@);
        }
        self.tables = tables;
        r
    }

    /// Runs a query (see [`select_from`]). Fails when the `FROM` clause is not
    /// a single bare table or names a table that is absent.
    pub fn select(&self, query: &SelectQuery) -> (r: Result<QueryResult, DbError>)
        ensures
            outcome_view(r) == select_step(self@, *query),
    {
        match &query.from {
            FromClause::Table(name) => {
                let table = self.get_table(name.as_str())?;
                select_rows(table, query)
            },
            _ => Err(DbError::InvalidFrom),
        }
    }

    /// Parses `sql` and executes its first statement. Where the text is not
    /// SQL, holds no statement, or holds one that the engine refuses, the
    /// catalog stays as it is.
    ///
    /// Some texts are refused as [`Construct`]s before anything is executed,
    /// whatever else they hold:
    /// - a text with the word `DIV` or `GRANTED` in it, wherever it stands,
    ///   in a string or a name too (see [`crate::guard`]);
    /// - a text heavier than [`crate::guard::MAX_WEIGHT`], that is, roughly,
    ///   with more than 80 words, digits and signs, a `(` counting for three
    ///   (see [`crate::guard`]);
    /// - a text with a numeric literal beyond `i64::MAX`, with more than 18
    ///   fractional digits, or with an exponent beyond 1000 (see
    ///   [`crate::number::number_of`]);
    /// - a text with an expression nested more than [`MAX_NESTING`] levels
    ///   deep, which a text that is light enough cannot hold.
    ///
    /// The weight is bounded for the sake of the parser, which descends
    /// without counting in some places: the bound keeps it within a stack of
    /// 2 MiB. The caller has to provide that much.
    pub fn execute(&mut self, sql: &str) -> (r: Result<QueryResult, DbError>)
        ensures
            ran(sql@, old(self)@, final(self)@, outcome_view(r)),
            well_formed(final(self)@),
    {
        proof {
            use_type_invariant(&*self);
            lemma_sound_catalog(self.tables@);
        }
        match parse_statement(sql) {
            Err(e) => Err(e),
            Ok(statement) => {
                let r = self.execute_statement(&statement);
                r
            },
        }
    }

    /// Executes one statement.
    pub fn execute_statement(&mut self, statement: &SqlStatement) -> (r: Result<
        QueryResult,
        DbError,
    >)
        ensures
            (final(self)@, outcome_view(r)) == step(old(self)@, *statement),
            well_formed(final(self)@),
    {
        proof {
            use_type_invariant(&*self);
            lemma_sound_catalog(self.tables@);
        }
        match statement {
            SqlStatement::CreateTable { name, columns, .. } => self.create_table(
                name.clone(),
                columns,
            ),
            SqlStatement::DropTable { name, if_exists } => self.drop_table(
                name.clone(),
                *if_exists,
            ),
            SqlStatement::Insert { table, source, .. } => self.insert(table.as_str(), source),
            SqlStatement::Select(query) => self.select(query),
        }
    }
}

/// Runs [`Table::insert`] on the table at position `i`.
fn insert_at(tables: &mut Vec<Table>, i: usize, tuples: &Vec<Vec<Expression>>) -> (r: Result<
    QueryResult,
    DbError,
>)
    requires
        i < old(tables).len(),
    ensures
        final(tables).len() == old(tables).len(),
        (final(tables)[i as int]@, outcome_view(r)) == old(tables)[i as int]@.insert(tuples@),
        forall|j: int| 0 <= j < old(tables).len() && j != i ==> final(tables)[j] == old(tables)[j],
{
    tables[i].insert(tuples)
}

} // verus!
