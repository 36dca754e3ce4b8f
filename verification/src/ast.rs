//! The statements and expressions the engine executes.

use crate::schema::{ColumnDefinition, TableConstraint};
use crate::text::text_equal;
use crate::value::Value;
use vstd::prelude::*;

verus! {

/// An operator between two operands.
#[derive(Debug, Clone, Copy, PartialEq, Eq, Structural)]
pub enum Operator {
    Eq,
    NotEq,
    Gt,
    Lt,
    GtEq,
    LtEq,
    And,
    Or,
    /// Any operator the engine does not evaluate.
    Other,
}

/// What an aggregate function is applied to: the first of its arguments.
#[derive(Debug)]
pub enum AggregateArg {
    /// The call has no argument.
    Missing,
    /// A column, by name.
    Column(String),
    /// A literal.
    Literal(Value),
    /// An expression of any other shape; it evaluates to `Null` on every row.
    Unsupported,
    /// An argument that is no expression: `*`, a qualified wildcard, or a
    /// named argument. An aggregate of it is `Null`.
    NotExpression,
}

/// An aggregate function call: the function's name and its argument.
#[derive(Debug)]
pub struct AggregateSpec {
    /// The whole name of the function, by which it is recognised.
    pub name: String,
    /// The last part of the name, under which the aggregate is shown.
    pub label: String,
    pub arg: AggregateArg,
}

impl AggregateArg {
    /// Both arguments read the same column, hold the same literal, or are
    /// both missing, both unsupported or both no expression.
    pub open spec fn same_as(&self, other: &AggregateArg) -> bool {
        match (self, other) {
            (AggregateArg::Missing, AggregateArg::Missing) => true,
            (AggregateArg::Column(a), AggregateArg::Column(b)) => a@ == b@,
            (AggregateArg::Literal(a), AggregateArg::Literal(b)) => a@ == b@,
            (AggregateArg::Unsupported, AggregateArg::Unsupported) => true,
            (AggregateArg::NotExpression, AggregateArg::NotExpression) => true,
            _ => false,
        }
    }

    /// Decides [`AggregateArg::same_as`].
    pub fn is_same(&self, other: &AggregateArg) -> (r: bool)
        ensures
            r == self.same_as(other),
    {
        match (self, other) {
            (AggregateArg::Missing, AggregateArg::Missing) => true,
            (AggregateArg::Column(a), AggregateArg::Column(b)) => text_equal(
                a.as_str(),
                b.as_str(),
            ),
            (AggregateArg::Literal(a), AggregateArg::Literal(b)) => *a == *b,
            (AggregateArg::Unsupported, AggregateArg::Unsupported) => true,
            (AggregateArg::NotExpression, AggregateArg::NotExpression) => true,
            _ => false,
        }
    }
}

impl AggregateSpec {
    /// Both calls name the same function on the same argument.
    pub open spec fn same_as(&self, other: &AggregateSpec) -> bool {
        self.name@ == other.name@ && self.label@ == other.label@ && self.arg.same_as(&other.arg)
    }

    /// Decides [`AggregateSpec::same_as`].
    pub fn is_same(&self, other: &AggregateSpec) -> (r: bool)
        ensures
            r == self.same_as(other),
    {
        text_equal(self.name.as_str(), other.name.as_str()) && text_equal(
            self.label.as_str(),
            other.label.as_str(),
        ) && self.arg.is_same(&other.arg)
    }
}

/// A scalar or boolean expression.
#[derive(Debug)]
pub enum Expression {
    /// A column, by name.
    Identifier(String),
    /// A literal value.
    Literal(Value),
    BinaryOp { left: Box<Expression>, op: Operator, right: Box<Expression> },
    IsNull(Box<Expression>),
    IsNotNull(Box<Expression>),
    InList { expr: Box<Expression>, list: Vec<Expression>, negated: bool },
    Between { expr: Box<Expression>, low: Box<Expression>, high: Box<Expression>, negated: bool },
    /// A parenthesised expression.
    Nested(Box<Expression>),
    /// An aggregate function call.
    Function(AggregateSpec),
    /// Any other expression. As a scalar it is `Null`, as a condition `false`.
    Unsupported,
}

impl Expression {
    /// Whether the expression nests at most `depth` deep. An expression
    /// without operands is one deep.
    pub open spec fn nests_within(self, depth: nat) -> bool
        decreases depth, 0nat,
    {
        depth > 0 && match self {
            Expression::BinaryOp { left, right, .. } => left.nests_within((depth - 1) as nat)
                && right.nests_within((depth - 1) as nat),
            Expression::IsNull(inner) => inner.nests_within((depth - 1) as nat),
            Expression::IsNotNull(inner) => inner.nests_within((depth - 1) as nat),
            Expression::InList { expr, list, .. } => expr.nests_within((depth - 1) as nat)
                && all_nest_within(list@, (depth - 1) as nat),
            Expression::Between { expr, low, high, .. } => expr.nests_within((depth - 1) as nat)
                && low.nests_within((depth - 1) as nat) && high.nests_within(
                (depth - 1) as nat,
            ),
            Expression::Nested(inner) => inner.nests_within((depth - 1) as nat),
            _ => true,
        }
    }
}

/// Whether each of `list` nests at most `depth` deep.
pub open spec fn all_nest_within(list: Seq<Expression>, depth: nat) -> bool
    decreases depth, 1nat,
{
    forall|i: int| 0 <= i < list.len() ==> (#[trigger] list[i]).nests_within(depth)
}

/// Whether a clause, where the query has it, nests at most `depth` deep.
pub open spec fn clause_nests_within(clause: Option<Expression>, depth: nat) -> bool {
    match clause {
        Some(e) => e.nests_within(depth),
        None => true,
    }
}

/// One item of a projection list.
#[derive(Debug)]
pub enum ProjectionItem {
    /// `*`: every column, in declaration order.
    Wildcard,
    /// A column, by name.
    Column(String),
    /// An aggregate function call.
    Aggregate(AggregateSpec),
    /// Any other item.
    Unsupported,
}

/// What a `SELECT` reads from.
#[derive(Debug)]
pub enum FromClause {
    /// No `FROM` clause.
    Missing,
    /// A single bare table.
    Table(String),
    /// Anything else: several tables, a join, a subquery.
    Unsupported,
}

/// A `SELECT` statement.
#[derive(Debug)]
pub struct SelectQuery {
    pub projection: Vec<ProjectionItem>,
    pub from: FromClause,
    pub selection: Option<Expression>,
    pub group_by: Vec<Expression>,
    pub having: Option<Expression>,
    pub offset: Option<Expression>,
    pub limit: Option<Expression>,
}

impl SelectQuery {
    /// Whether every expression of the query nests at most `depth` deep.
    pub open spec fn nests_within(self, depth: nat) -> bool {
        &&& clause_nests_within(self.selection, depth)
        &&& all_nest_within(self.group_by@, depth)
        &&& clause_nests_within(self.having, depth)
        &&& clause_nests_within(self.offset, depth)
        &&& clause_nests_within(self.limit, depth)
    }
}

/// Where the rows of an `INSERT` come from.
#[derive(Debug)]
pub enum InsertSource {
    /// A `VALUES` list: one list of expressions per row.
    Values(Vec<Vec<Expression>>),
    /// Any other source.
    Unsupported,
}

/// A statement.
#[derive(Debug)]
#[allow(inconsistent_fields)]
pub enum SqlStatement {
    CreateTable { name: String, columns: Vec<ColumnDefinition>, constraints: Vec<TableConstraint> },
    DropTable { name: String, if_exists: bool },
    /// `columns` is the explicit column list, if one was written. Values are
    /// matched to the table's columns by position whatever it holds.
    Insert { table: String, columns: Vec<String>, source: InsertSource },
    Select(SelectQuery),
}

impl SqlStatement {
    /// Whether every expression of the statement nests at most `depth` deep.
    pub open spec fn nests_within(self, depth: nat) -> bool {
        match self {
            SqlStatement::Insert { source: InsertSource::Values(tuples), .. } => forall|k: int|
                0 <= k < tuples@.len() ==> all_nest_within((#[trigger] tuples@[k])@, depth),
            SqlStatement::Select(query) => query.nests_within(depth),
            _ => true,
        }
    }
}

} // verus!
