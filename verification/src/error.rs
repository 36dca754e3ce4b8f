//! The errors a statement can end in.

use vstd::prelude::*;

verus! {

/// A statement shape that the engine refuses.
#[derive(Debug, Clone, Copy, PartialEq, Eq, Structural)]
pub enum Construct {
    /// A statement other than `CREATE TABLE`, `DROP TABLE`, `INSERT` or `SELECT`.
    Statement,
    /// An empty input: no statement at all.
    EmptyInput,
    /// A text with the word `DIV` or the word `GRANTED` in it. Such a text is
    /// kept from the parser (see [`crate::guard`]).
    ReservedWord,
    /// A text that is heavier than [`crate::guard::MAX_WEIGHT`]: it has too
    /// many words and signs. Such a text is kept from the parser (see
    /// [`crate::guard`]).
    TextSize,
    /// `DROP` of something other than a table.
    DropTarget,
    /// A query body other than a plain `SELECT`.
    QueryBody,
    /// An `INSERT` whose source is not a `VALUES` list.
    InsertSource,
    /// A projected item that is neither a column, an aggregate nor `*`.
    SelectItem,
    /// A `LIMIT` that is not a non-negative integer literal.
    Limit,
    /// An `OFFSET` that is not a non-negative integer literal.
    Offset,
    /// A numeric literal outside the range of the engine's numbers.
    NumericLiteral,
    /// An expression nested more deeply than the engine accepts.
    Nesting,
}

/// The family an error belongs to.
#[derive(Debug, Clone, Copy, PartialEq, Eq, Structural)]
pub enum ErrorKind {
    Parse,
    Schema,
    Arity,
    Type,
    Unsupported,
}

/// Why a statement failed.
#[derive(Debug, Clone)]
pub enum DbError {
    /// The text is not a statement; carries the parser's message.
    Parse(String),
    /// `CREATE TABLE` of a name that is taken.
    TableExists(String),
    /// A statement names a table that is not in the catalog.
    TableNotFound(String),
    /// A statement names a column that its table does not have.
    ColumnNotFound(String),
    /// The `FROM` clause is not a single bare table.
    InvalidFrom,
    /// A tuple of values has another length than the table has columns.
    ArityMismatch { expected: usize, found: usize },
    /// A value does not fit the declared type of the named column.
    TypeMismatch(String),
    /// The statement uses a construct that the engine refuses.
    Unsupported(Construct),
}

/// What an operation of the engine returns: its result, or why it failed.
pub type DbResult<T> = Result<T, DbError>;

/// The contents of a [`DbError`].
pub ghost enum ErrorView {
    Parse(Seq<char>),
    TableExists(Seq<char>),
    TableNotFound(Seq<char>),
    ColumnNotFound(Seq<char>),
    InvalidFrom,
    ArityMismatch { expected: nat, found: nat },
    TypeMismatch(Seq<char>),
    Unsupported(Construct),
}

impl View for DbError {
    type V = ErrorView;

    open spec fn view(&self) -> ErrorView {
        match self {
            DbError::Parse(m) => ErrorView::Parse(m@),
            DbError::TableExists(n) => ErrorView::TableExists(n@),
            DbError::TableNotFound(n) => ErrorView::TableNotFound(n@),
            DbError::ColumnNotFound(n) => ErrorView::ColumnNotFound(n@),
            DbError::InvalidFrom => ErrorView::InvalidFrom,
            DbError::ArityMismatch { expected, found } => ErrorView::ArityMismatch {
                expected: *expected as nat,
                found: *found as nat,
            },
            DbError::TypeMismatch(n) => ErrorView::TypeMismatch(n@),
            DbError::Unsupported(c) => ErrorView::Unsupported(*c),
        }
    }
}

impl ErrorView {
    /// The family this error belongs to.
    pub open spec fn kind(self) -> ErrorKind {
        match self {
            ErrorView::Parse(_) => ErrorKind::Parse,
            ErrorView::TableExists(_) => ErrorKind::Schema,
            ErrorView::TableNotFound(_) => ErrorKind::Schema,
            ErrorView::ColumnNotFound(_) => ErrorKind::Schema,
            ErrorView::InvalidFrom => ErrorKind::Schema,
            ErrorView::ArityMismatch { .. } => ErrorKind::Arity,
            ErrorView::TypeMismatch(_) => ErrorKind::Type,
            ErrorView::Unsupported(_) => ErrorKind::Unsupported,
        }
    }
}

impl DbError {
    /// The family this error belongs to.
    pub open spec fn spec_kind(&self) -> ErrorKind {
        self@.kind()
    }

    /// The family this error belongs to.
    #[verifier::when_used_as_spec(spec_kind)]
    pub fn kind(&self) -> (r: ErrorKind)
        ensures
            r == self.spec_kind(),
    {
        match self {
            DbError::Parse(_) => ErrorKind::Parse,
            DbError::TableExists(_) => ErrorKind::Schema,
            DbError::TableNotFound(_) => ErrorKind::Schema,
            DbError::ColumnNotFound(_) => ErrorKind::Schema,
            DbError::InvalidFrom => ErrorKind::Schema,
            DbError::ArityMismatch { .. } => ErrorKind::Arity,
            DbError::TypeMismatch(_) => ErrorKind::Type,
            DbError::Unsupported(_) => ErrorKind::Unsupported,
        }
    }
}

} // verus!
