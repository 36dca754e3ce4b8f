//! The syntax tree of the `sqlparser` crate, as far as the engine reads it.
//!
//! The tree's types are opaque to the verifier. Each executable function
//! below calls the parser or hands out one layer of one node; its body is
//! believed, not verified. What a node holds has a name: a function of the
//! node without a body. All that is claimed of an executable function is that
//! it returns what that name stands for, that is, that what it returns
//! depends on the node alone. Of the call of the parser it is claimed as
//! well that it returns at all, on the texts that it is handed.

use crate::ast::Operator;
use crate::guard::{parser_safe, weight, MAX_WEIGHT};
use vstd::prelude::*;

verus! {

/// `sqlparser::ast::Statement`, opaque.
#[verifier::external_type_specification]
#[verifier::external_body]
pub struct ExStatement(sqlparser::ast::Statement);

/// `sqlparser::ast::Query`, opaque.
#[verifier::external_type_specification]
#[verifier::external_body]
pub struct ExQuery(sqlparser::ast::Query);

/// `sqlparser::ast::Select`, opaque.
#[verifier::external_type_specification]
#[verifier::external_body]
pub struct ExSelect(sqlparser::ast::Select);

/// `sqlparser::ast::SelectItem`, opaque.
#[verifier::external_type_specification]
#[verifier::external_body]
pub struct ExSelectItem(sqlparser::ast::SelectItem);

/// `sqlparser::ast::Join`, opaque.
#[verifier::external_type_specification]
#[verifier::external_body]
pub struct ExJoin(sqlparser::ast::Join);

/// `sqlparser::ast::TableWithJoins`, opaque.
#[verifier::external_type_specification]
#[verifier::external_body]
pub struct ExTableWithJoins(sqlparser::ast::TableWithJoins);

/// `sqlparser::ast::Expr`, opaque.
#[verifier::external_type_specification]
#[verifier::external_body]
pub struct ExExpr(sqlparser::ast::Expr);

/// `sqlparser::ast::BinaryOperator`, opaque.
#[verifier::external_type_specification]
#[verifier::external_body]
pub struct ExBinaryOperator(sqlparser::ast::BinaryOperator);

/// `sqlparser::ast::Function`, opaque.
#[verifier::external_type_specification]
#[verifier::external_body]
pub struct ExFunction(sqlparser::ast::Function);

/// `sqlparser::ast::FunctionArg`, opaque.
#[verifier::external_type_specification]
#[verifier::external_body]
pub struct ExFunctionArg(sqlparser::ast::FunctionArg);

/// `sqlparser::ast::ObjectName`, opaque.
#[verifier::external_type_specification]
#[verifier::external_body]
pub struct ExObjectName(sqlparser::ast::ObjectName);

/// `sqlparser::ast::Ident`, opaque.
#[verifier::external_type_specification]
#[verifier::external_body]
pub struct ExIdent(sqlparser::ast::Ident);

/// `sqlparser::ast::ColumnDef`, opaque.
#[verifier::external_type_specification]
#[verifier::external_body]
pub struct ExColumnDef(sqlparser::ast::ColumnDef);

/// `sqlparser::parser::ParserError`, opaque.
#[verifier::external_type_specification]
#[verifier::external_body]
pub struct ExParserError(sqlparser::parser::ParserError);

/// A literal of the syntax tree, by kind.
pub enum LiteralShape<'a> {
    /// A number, as it was written.
    Number(&'a String),
    /// A single-quoted string, without its quotes.
    SingleQuoted(&'a String),
    /// A double-quoted string, without its quotes.
    DoubleQuoted(&'a String),
    Boolean(bool),
    Null,
    /// Any other kind of literal.
    Other,
}

/// The type a column was declared with, by kind.
#[derive(Debug, Clone, Copy)]
pub enum DeclaredType {
    Int,
    BigInt,
    Float,
    Double,
    Decimal,
    Text,
    String,
    /// `VARCHAR`, with its length where one was written.
    Varchar(Option<u64>),
    Boolean,
    Date,
    Timestamp,
    /// Any other type.
    Other,
}

/// An item of a projection list of the syntax tree, by kind.
pub enum ItemShape<'a> {
    /// An unqualified `*`.
    Wildcard,
    /// An expression without an alias.
    Plain(&'a sqlparser::ast::Expr),
    /// An expression with an alias.
    Aliased(&'a sqlparser::ast::Expr),
    /// Any other item.
    Other,
}

/// What is behind an optional reference.
pub open spec fn held<T>(r: Option<&T>) -> Option<T> {
    match r {
        Some(x) => Some(*x),
        None => None,
    }
}

/// What `Parser::parse_sql` with `MySqlDialect` makes of a text.
pub uninterp spec fn parsed(sql: Seq<char>) -> Result<
    Vec<sqlparser::ast::Statement>,
    sqlparser::parser::ParserError,
>;

/// `sqlparser::parser::Parser::parse_sql` with `MySqlDialect`: the
/// statements that `sql` holds, or the parser's error. The result depends on
/// the text alone.
///
/// The parser panics where it fails to read what follows the keyword `DIV`
/// (in `MySqlDialect::parse_infix`) and what follows the keywords
/// `GRANTED BY` (in `Parser::parse_grant` and `Parser::parse_revoke`). The
/// tokenizer makes a keyword of a run of characters that, written large, is
/// the keyword, and that no letter, digit or `_` follows. A text that is
/// [`parser_safe`] holds no such run for either word outside of a string, so
/// neither place is reached: it holds none at all, or only such as stand
/// after an odd number of `'` in a text where nothing but a `'` opens or
/// closes anything, which the tokenizer reads as parts of strings.
///
/// The parser descends one level with a token in places where it does not
/// count its depth (`Parser::parse_prefix` on a sign, `Parser::parse_not`,
/// `Parser::parse_table_factor` on a `(`), and the tree that it returns is
/// dropped level by level. One level takes at least one token, and a text
/// has no more tokens than its [`weight`]. The bound [`MAX_WEIGHT`] is
/// chosen for a thread with a stack of 2 MiB and an unoptimised build of the
/// parser; [`crate::guard`] gives the figures it rests on.
///
/// Claimed, not proved: on a text that holds neither word and is no heavier
/// than the bound, on such a stack, it returns, and returns what [`parsed`]
/// stands for.
#[verifier::external_body]
pub(crate) fn parse_sql(sql: &str) -> (r: Result<
    Vec<sqlparser::ast::Statement>,
    sqlparser::parser::ParserError,
>)
    requires
        parser_safe(sql@),
        weight(sql@) <= MAX_WEIGHT,
    ensures
        r == parsed(sql@),
{
    sqlparser::parser::Parser::parse_sql(&sqlparser::dialect::MySqlDialect {}, sql)
}

/// The message that `ParserError`'s `Display` writes.
pub uninterp spec fn message_of(e: sqlparser::parser::ParserError) -> Seq<char>;

/// `ParserError`'s `Display`: the message of a parser error.
///
/// Claimed, not proved: it returns what [`message_of`] stands for.
#[verifier::external_body]
pub(crate) fn parser_error_message(e: &sqlparser::parser::ParserError) -> (r: String)
    ensures
        r@ == message_of(*e),
{
    e.to_string()
}

/// The name and the columns of a statement that is a `Statement::CreateTable`.
pub uninterp spec fn create_table_of(s: sqlparser::ast::Statement) -> Option<
    (sqlparser::ast::ObjectName, Vec<sqlparser::ast::ColumnDef>),
>;

/// The name and the columns of `Statement::CreateTable`.
///
/// Claimed, not proved: it returns what [`create_table_of`] stands for.
#[verifier::external_body]
pub(crate) fn statement_create_table(s: &sqlparser::ast::Statement) -> (r: Option<
    (&sqlparser::ast::ObjectName, &Vec<sqlparser::ast::ColumnDef>),
>)
    ensures
        match r {
            Some((name, columns)) => create_table_of(*s) == Some((*name, *columns)),
            None => create_table_of(*s) is None,
        },
{
    match s {
        sqlparser::ast::Statement::CreateTable { name, columns, .. } => Some((name, columns)),
        _ => None,
    }
}

/// Of a statement that is a `Statement::Drop`: whether its object type is
/// `ObjectType::Table`, its `if_exists` flag, and its names.
pub uninterp spec fn drop_of(s: sqlparser::ast::Statement) -> Option<
    (bool, bool, Vec<sqlparser::ast::ObjectName>),
>;

/// Of `Statement::Drop`: whether its object type is `ObjectType::Table`, its
/// `if_exists` flag, and its names.
///
/// Claimed, not proved: it returns what [`drop_of`] stands for.
#[verifier::external_body]
pub(crate) fn statement_drop(s: &sqlparser::ast::Statement) -> (r: Option<
    (bool, bool, &Vec<sqlparser::ast::ObjectName>),
>)
    ensures
        match r {
            Some((is_table, if_exists, names)) => drop_of(*s) == Some(
                (is_table, if_exists, *names),
            ),
            None => drop_of(*s) is None,
        },
{
    match s {
        sqlparser::ast::Statement::Drop { object_type, if_exists, names, .. } => Some(
            (matches!(object_type, sqlparser::ast::ObjectType::Table), *if_exists, names),
        ),
        _ => None,
    }
}

/// The table name, the column list and the source of a statement that is a
/// `Statement::Insert`.
pub uninterp spec fn insert_of(s: sqlparser::ast::Statement) -> Option<
    (sqlparser::ast::ObjectName, Vec<sqlparser::ast::Ident>, sqlparser::ast::Query),
>;

/// The table name, the column list and the source of `Statement::Insert`.
///
/// Claimed, not proved: it returns what [`insert_of`] stands for.
#[verifier::external_body]
pub(crate) fn statement_insert(s: &sqlparser::ast::Statement) -> (r: Option<
    (&sqlparser::ast::ObjectName, &Vec<sqlparser::ast::Ident>, &sqlparser::ast::Query),
>)
    ensures
        match r {
            Some((table, columns, source)) => insert_of(*s) == Some(
                (*table, *columns, *source),
            ),
            None => insert_of(*s) is None,
        },
{
    match s {
        sqlparser::ast::Statement::Insert { table_name, columns, source, .. } => Some(
            (table_name, columns, source),
        ),
        _ => None,
    }
}

/// The query of a statement that is a `Statement::Query`.
pub uninterp spec fn query_of(s: sqlparser::ast::Statement) -> Option<sqlparser::ast::Query>;

/// The query of `Statement::Query`.
///
/// Claimed, not proved: it returns what [`query_of`] stands for.
#[verifier::external_body]
pub(crate) fn statement_query(s: &sqlparser::ast::Statement) -> (r: Option<
    &sqlparser::ast::Query,
>)
    ensures
        held(r) == query_of(*s),
{
    match s {
        sqlparser::ast::Statement::Query(query) => Some(query),
        _ => None,
    }
}

/// The select of a query whose body is a `SetExpr::Select`.
pub uninterp spec fn select_of(q: sqlparser::ast::Query) -> Option<sqlparser::ast::Select>;

/// The select of a `Query` whose body is `SetExpr::Select`.
///
/// Claimed, not proved: it returns what [`select_of`] stands for.
#[verifier::external_body]
pub(crate) fn query_select(q: &sqlparser::ast::Query) -> (r: Option<&sqlparser::ast::Select>)
    ensures
        held(r) == select_of(*q),
{
    match q.body.as_ref() {
        sqlparser::ast::SetExpr::Select(select) => Some(select),
        _ => None,
    }
}

/// The rows of a query whose body is a `SetExpr::Values`.
pub uninterp spec fn values_of(q: sqlparser::ast::Query) -> Option<
    Vec<Vec<sqlparser::ast::Expr>>,
>;

/// The rows of a `Query` whose body is `SetExpr::Values`.
///
/// Claimed, not proved: it returns what [`values_of`] stands for.
#[verifier::external_body]
pub(crate) fn query_values(q: &sqlparser::ast::Query) -> (r: Option<
    &Vec<Vec<sqlparser::ast::Expr>>,
>)
    ensures
        held(r) == values_of(*q),
{
    match q.body.as_ref() {
        sqlparser::ast::SetExpr::Values(values) => Some(&values.rows),
        _ => None,
    }
}

/// What the field `limit` of a query holds.
pub uninterp spec fn limit_of(q: sqlparser::ast::Query) -> Option<sqlparser::ast::Expr>;

/// The field `limit` of a `Query`.
///
/// Claimed, not proved: it returns what [`limit_of`] stands for.
#[verifier::external_body]
pub(crate) fn query_limit(q: &sqlparser::ast::Query) -> (r: Option<&sqlparser::ast::Expr>)
    ensures
        held(r) == limit_of(*q),
{
    q.limit.as_ref()
}

/// What the field `value` of the field `offset` of a query holds.
pub uninterp spec fn offset_of(q: sqlparser::ast::Query) -> Option<sqlparser::ast::Expr>;

/// The field `value` of the field `offset` of a `Query`.
///
/// Claimed, not proved: it returns what [`offset_of`] stands for.
#[verifier::external_body]
pub(crate) fn query_offset(q: &sqlparser::ast::Query) -> (r: Option<&sqlparser::ast::Expr>)
    ensures
        held(r) == offset_of(*q),
{
    match &q.offset {
        Some(offset) => Some(&offset.value),
        None => None,
    }
}

/// What the field `projection` of a select holds.
pub uninterp spec fn projection_of(s: sqlparser::ast::Select) -> Vec<sqlparser::ast::SelectItem>;

/// The field `projection` of a `Select`.
///
/// Claimed, not proved: it returns what [`projection_of`] stands for.
#[verifier::external_body]
pub(crate) fn select_projection(s: &sqlparser::ast::Select) -> (r: &Vec<
    sqlparser::ast::SelectItem,
>)
    ensures
        *r == projection_of(*s),
{
    &s.projection
}

/// What the field `from` of a select holds.
pub uninterp spec fn tables_of(s: sqlparser::ast::Select) -> Vec<sqlparser::ast::TableWithJoins>;

/// The field `from` of a `Select`.
///
/// Claimed, not proved: it returns what [`tables_of`] stands for.
#[verifier::external_body]
pub(crate) fn select_tables(s: &sqlparser::ast::Select) -> (r: &Vec<
    sqlparser::ast::TableWithJoins,
>)
    ensures
        *r == tables_of(*s),
{
    &s.from
}

/// What the field `selection` of a select holds.
pub uninterp spec fn selection_of(s: sqlparser::ast::Select) -> Option<sqlparser::ast::Expr>;

/// The field `selection` of a `Select`.
///
/// Claimed, not proved: it returns what [`selection_of`] stands for.
#[verifier::external_body]
pub(crate) fn select_selection(s: &sqlparser::ast::Select) -> (r: Option<
    &sqlparser::ast::Expr,
>)
    ensures
        held(r) == selection_of(*s),
{
    s.selection.as_ref()
}

/// What the field `group_by` of a select holds.
pub uninterp spec fn group_by_of(s: sqlparser::ast::Select) -> Vec<sqlparser::ast::Expr>;

/// The field `group_by` of a `Select`.
///
/// Claimed, not proved: it returns what [`group_by_of`] stands for.
#[verifier::external_body]
pub(crate) fn select_group_by(s: &sqlparser::ast::Select) -> (r: &Vec<sqlparser::ast::Expr>)
    ensures
        *r == group_by_of(*s),
{
    &s.group_by
}

/// What the field `having` of a select holds.
pub uninterp spec fn having_of(s: sqlparser::ast::Select) -> Option<sqlparser::ast::Expr>;

/// The field `having` of a `Select`.
///
/// Claimed, not proved: it returns what [`having_of`] stands for.
#[verifier::external_body]
pub(crate) fn select_having(s: &sqlparser::ast::Select) -> (r: Option<&sqlparser::ast::Expr>)
    ensures
        held(r) == having_of(*s),
{
    s.having.as_ref()
}

/// Of a table with joins: the name of its relation where that is a
/// `TableFactor::Table`, and its joins.
pub uninterp spec fn reference_of(t: sqlparser::ast::TableWithJoins) -> (
    Option<sqlparser::ast::ObjectName>,
    Vec<sqlparser::ast::Join>,
);

/// Of a `TableWithJoins`: the name of its relation where that is
/// `TableFactor::Table`, and the field `joins`.
///
/// Claimed, not proved: it returns what [`reference_of`] stands for.
#[verifier::external_body]
pub(crate) fn table_reference(t: &sqlparser::ast::TableWithJoins) -> (r: (
    Option<&sqlparser::ast::ObjectName>,
    &Vec<sqlparser::ast::Join>,
))
    ensures
        (held(r.0), *r.1) == reference_of(*t),
{
    match &t.relation {
        sqlparser::ast::TableFactor::Table { name, .. } => (Some(name), &t.joins),
        _ => (None, &t.joins),
    }
}

/// The kind of an item of a projection list, with its expression.
pub uninterp spec fn item_of(item: sqlparser::ast::SelectItem) -> ItemShape<'static>;

/// The kind of a `SelectItem`, with its expression.
///
/// Claimed, not proved: it returns what [`item_of`] stands for.
#[verifier::external_body]
pub(crate) fn select_item_shape(item: &sqlparser::ast::SelectItem) -> (r: ItemShape<'_>)
    ensures
        r == item_of(*item),
{
    match item {
        sqlparser::ast::SelectItem::Wildcard(_) => ItemShape::Wildcard,
        sqlparser::ast::SelectItem::UnnamedExpr(e) => ItemShape::Plain(e),
        sqlparser::ast::SelectItem::ExprWithAlias { expr, .. } => ItemShape::Aliased(expr),
        _ => ItemShape::Other,
    }
}

/// The identifier of an expression that is an `Expr::Identifier`.
pub uninterp spec fn identifier_of(e: sqlparser::ast::Expr) -> Option<sqlparser::ast::Ident>;

/// The identifier of `Expr::Identifier`.
///
/// Claimed, not proved: it returns what [`identifier_of`] stands for.
#[verifier::external_body]
pub(crate) fn expr_identifier(e: &sqlparser::ast::Expr) -> (r: Option<&sqlparser::ast::Ident>)
    ensures
        held(r) == identifier_of(*e),
{
    match e {
        sqlparser::ast::Expr::Identifier(ident) => Some(ident),
        _ => None,
    }
}

/// The literal of an expression that is an `Expr::Value`, by the variant of
/// its `Value`.
pub uninterp spec fn literal_of(e: sqlparser::ast::Expr) -> Option<LiteralShape<'static>>;

/// The literal of `Expr::Value`, by the variant of its `Value`.
///
/// Claimed, not proved: it returns what [`literal_of`] stands for.
#[verifier::external_body]
pub(crate) fn expr_literal(e: &sqlparser::ast::Expr) -> (r: Option<LiteralShape<'_>>)
    ensures
        r == literal_of(*e),
{
    match e {
        sqlparser::ast::Expr::Value(v) => Some(
            match v {
                sqlparser::ast::Value::Number(text, _) => LiteralShape::Number(text),
                sqlparser::ast::Value::SingleQuotedString(s) => LiteralShape::SingleQuoted(s),
                sqlparser::ast::Value::DoubleQuotedString(s) => LiteralShape::DoubleQuoted(s),
                sqlparser::ast::Value::Boolean(b) => LiteralShape::Boolean(*b),
                sqlparser::ast::Value::Null => LiteralShape::Null,
                _ => LiteralShape::Other,
            },
        ),
        _ => None,
    }
}

/// The operands and the operator of an expression that is an
/// `Expr::BinaryOp`: left operand, operator, right operand.
pub uninterp spec fn binary_op_of(e: sqlparser::ast::Expr) -> Option<
    (sqlparser::ast::Expr, sqlparser::ast::BinaryOperator, sqlparser::ast::Expr),
>;

/// The operands and the operator of `Expr::BinaryOp`.
///
/// Claimed, not proved: it returns what [`binary_op_of`] stands for.
#[verifier::external_body]
pub(crate) fn expr_binary_op(e: &sqlparser::ast::Expr) -> (r: Option<
    (&sqlparser::ast::Expr, &sqlparser::ast::BinaryOperator, &sqlparser::ast::Expr),
>)
    ensures
        match r {
            Some((left, op, right)) => binary_op_of(*e) == Some((*left, *op, *right)),
            None => binary_op_of(*e) is None,
        },
{
    match e {
        sqlparser::ast::Expr::BinaryOp { left, op, right } => Some((left, op, right)),
        _ => None,
    }
}

/// The engine's operator for a `BinaryOperator`.
pub uninterp spec fn operator_of(op: sqlparser::ast::BinaryOperator) -> Operator;

/// The engine's operator for a `BinaryOperator`, variant by variant.
///
/// Claimed, not proved: it returns what [`operator_of`] stands for.
#[verifier::external_body]
pub(crate) fn operator_kind(op: &sqlparser::ast::BinaryOperator) -> (r: Operator)
    ensures
        r == operator_of(*op),
{
    match op {
        sqlparser::ast::BinaryOperator::Eq => Operator::Eq,
        sqlparser::ast::BinaryOperator::NotEq => Operator::NotEq,
        sqlparser::ast::BinaryOperator::Gt => Operator::Gt,
        sqlparser::ast::BinaryOperator::Lt => Operator::Lt,
        sqlparser::ast::BinaryOperator::GtEq => Operator::GtEq,
        sqlparser::ast::BinaryOperator::LtEq => Operator::LtEq,
        sqlparser::ast::BinaryOperator::And => Operator::And,
        sqlparser::ast::BinaryOperator::Or => Operator::Or,
        _ => Operator::Other,
    }
}

/// The operand of an expression that is an `Expr::IsNull`.
pub uninterp spec fn is_null_of(e: sqlparser::ast::Expr) -> Option<sqlparser::ast::Expr>;

/// The operand of `Expr::IsNull`.
///
/// Claimed, not proved: it returns what [`is_null_of`] stands for.
#[verifier::external_body]
pub(crate) fn expr_is_null(e: &sqlparser::ast::Expr) -> (r: Option<&sqlparser::ast::Expr>)
    ensures
        held(r) == is_null_of(*e),
{
    match e {
        sqlparser::ast::Expr::IsNull(inner) => Some(inner),
        _ => None,
    }
}

/// The operand of an expression that is an `Expr::IsNotNull`.
pub uninterp spec fn is_not_null_of(e: sqlparser::ast::Expr) -> Option<sqlparser::ast::Expr>;

/// The operand of `Expr::IsNotNull`.
///
/// Claimed, not proved: it returns what [`is_not_null_of`] stands for.
#[verifier::external_body]
pub(crate) fn expr_is_not_null(e: &sqlparser::ast::Expr) -> (r: Option<&sqlparser::ast::Expr>)
    ensures
        held(r) == is_not_null_of(*e),
{
    match e {
        sqlparser::ast::Expr::IsNotNull(inner) => Some(inner),
        _ => None,
    }
}

/// The operand, the list and the `negated` flag of an expression that is an
/// `Expr::InList`.
pub uninterp spec fn in_list_of(e: sqlparser::ast::Expr) -> Option<
    (sqlparser::ast::Expr, Vec<sqlparser::ast::Expr>, bool),
>;

/// The operand, the list and the `negated` flag of `Expr::InList`.
///
/// Claimed, not proved: it returns what [`in_list_of`] stands for.
#[verifier::external_body]
pub(crate) fn expr_in_list(e: &sqlparser::ast::Expr) -> (r: Option<
    (&sqlparser::ast::Expr, &Vec<sqlparser::ast::Expr>, bool),
>)
    ensures
        match r {
            Some((expr, list, negated)) => in_list_of(*e) == Some((*expr, *list, negated)),
            None => in_list_of(*e) is None,
        },
{
    match e {
        sqlparser::ast::Expr::InList { expr, list, negated } => Some((expr, list, *negated)),
        _ => None,
    }
}

/// The operand, the lower bound, the upper bound and the `negated` flag of
/// an expression that is an `Expr::Between`.
pub uninterp spec fn between_of(e: sqlparser::ast::Expr) -> Option<
    (sqlparser::ast::Expr, sqlparser::ast::Expr, sqlparser::ast::Expr, bool),
>;

/// The operand, the lower bound, the upper bound and the `negated` flag of
/// `Expr::Between`.
///
/// Claimed, not proved: it returns what [`between_of`] stands for.
#[verifier::external_body]
pub(crate) fn expr_between(e: &sqlparser::ast::Expr) -> (r: Option<
    (&sqlparser::ast::Expr, &sqlparser::ast::Expr, &sqlparser::ast::Expr, bool),
>)
    ensures
        match r {
            Some((expr, low, high, negated)) => between_of(*e) == Some(
                (*expr, *low, *high, negated),
            ),
            None => between_of(*e) is None,
        },
{
    match e {
        sqlparser::ast::Expr::Between { expr, negated, low, high } => Some(
            (expr, low, high, *negated),
        ),
        _ => None,
    }
}

/// The operand of an expression that is an `Expr::Nested`.
pub uninterp spec fn nested_of(e: sqlparser::ast::Expr) -> Option<sqlparser::ast::Expr>;

/// The operand of `Expr::Nested`.
///
/// Claimed, not proved: it returns what [`nested_of`] stands for.
#[verifier::external_body]
pub(crate) fn expr_nested(e: &sqlparser::ast::Expr) -> (r: Option<&sqlparser::ast::Expr>)
    ensures
        held(r) == nested_of(*e),
{
    match e {
        sqlparser::ast::Expr::Nested(inner) => Some(inner),
        _ => None,
    }
}

/// The function of an expression that is an `Expr::Function`.
pub uninterp spec fn function_of(e: sqlparser::ast::Expr) -> Option<sqlparser::ast::Function>;

/// The function of `Expr::Function`.
///
/// Claimed, not proved: it returns what [`function_of`] stands for.
#[verifier::external_body]
pub(crate) fn expr_function(e: &sqlparser::ast::Expr) -> (r: Option<&sqlparser::ast::Function>)
    ensures
        held(r) == function_of(*e),
{
    match e {
        sqlparser::ast::Expr::Function(function) => Some(function),
        _ => None,
    }
}

/// What the fields `name` and `args` of a function hold.
pub uninterp spec fn function_parts_of(f: sqlparser::ast::Function) -> (
    sqlparser::ast::ObjectName,
    Vec<sqlparser::ast::FunctionArg>,
);

/// The fields `name` and `args` of a `Function`.
///
/// Claimed, not proved: it returns what [`function_parts_of`] stands for.
#[verifier::external_body]
pub(crate) fn function_parts(f: &sqlparser::ast::Function) -> (r: (
    &sqlparser::ast::ObjectName,
    &Vec<sqlparser::ast::FunctionArg>,
))
    ensures
        (*r.0, *r.1) == function_parts_of(*f),
{
    (&f.name, &f.args)
}

/// The expression of an argument that is a `FunctionArg::Unnamed` with a
/// `FunctionArgExpr::Expr` in it.
pub uninterp spec fn argument_of(a: sqlparser::ast::FunctionArg) -> Option<sqlparser::ast::Expr>;

/// The expression of a `FunctionArg::Unnamed` that holds a
/// `FunctionArgExpr::Expr`.
///
/// Claimed, not proved: it returns what [`argument_of`] stands for.
#[verifier::external_body]
pub(crate) fn function_arg_expr(a: &sqlparser::ast::FunctionArg) -> (r: Option<
    &sqlparser::ast::Expr,
>)
    ensures
        held(r) == argument_of(*a),
{
    match a {
        sqlparser::ast::FunctionArg::Unnamed(sqlparser::ast::FunctionArgExpr::Expr(e)) => Some(e),
        _ => None,
    }
}

/// The identifiers that a name is made of.
pub uninterp spec fn parts_of(name: sqlparser::ast::ObjectName) -> Vec<sqlparser::ast::Ident>;

/// The identifiers of an `ObjectName`.
///
/// Claimed, not proved: it returns what [`parts_of`] stands for.
#[verifier::external_body]
pub(crate) fn object_name_parts(name: &sqlparser::ast::ObjectName) -> (r: &Vec<
    sqlparser::ast::Ident,
>)
    ensures
        *r == parts_of(*name),
{
    &name.0
}

/// What the field `value` of an `Ident` holds: the identifier without its
/// quotes.
pub uninterp spec fn text_of(ident: sqlparser::ast::Ident) -> Seq<char>;

/// The field `value` of an `Ident`: the identifier without its quotes.
///
/// Claimed, not proved: it returns what [`text_of`] stands for.
#[verifier::external_body]
pub(crate) fn ident_text(ident: &sqlparser::ast::Ident) -> (r: &String)
    ensures
        r@ == text_of(*ident),
{
    &ident.value
}

/// What the field `quote_style` of an `Ident` holds: the quote that the
/// identifier was written in, if it was written in quotes.
pub uninterp spec fn quote_of(ident: sqlparser::ast::Ident) -> Option<char>;

/// The field `quote_style` of an `Ident`.
///
/// Claimed, not proved: it returns what [`quote_of`] stands for.
#[verifier::external_body]
pub(crate) fn ident_quote(ident: &sqlparser::ast::Ident) -> (r: Option<char>)
    ensures
        r == quote_of(*ident),
{
    ident.quote_style
}

/// What the field `name` of a column definition holds.
pub uninterp spec fn column_name_of(c: sqlparser::ast::ColumnDef) -> sqlparser::ast::Ident;

/// The name of a `ColumnDef`.
///
/// Claimed, not proved: it returns what [`column_name_of`] stands for.
#[verifier::external_body]
pub(crate) fn column_name(c: &sqlparser::ast::ColumnDef) -> (r: &sqlparser::ast::Ident)
    ensures
        *r == column_name_of(*c),
{
    &c.name
}

/// The kind of the `data_type` of a column definition, with the field
/// `length` of a `Varchar`.
pub uninterp spec fn declared_type_of(c: sqlparser::ast::ColumnDef) -> DeclaredType;

/// The kind of the `data_type` of a `ColumnDef`, variant by variant, with
/// the field `length` of a `Varchar`.
///
/// Claimed, not proved: it returns what [`declared_type_of`] stands for.
#[verifier::external_body]
pub(crate) fn column_type(c: &sqlparser::ast::ColumnDef) -> (r: DeclaredType)
    ensures
        r == declared_type_of(*c),
{
    match &c.data_type {
        sqlparser::ast::DataType::Int(_) => DeclaredType::Int,
        sqlparser::ast::DataType::BigInt(_) => DeclaredType::BigInt,
        sqlparser::ast::DataType::Float(_) => DeclaredType::Float,
        sqlparser::ast::DataType::Double => DeclaredType::Double,
        sqlparser::ast::DataType::Decimal(_) => DeclaredType::Decimal,
        sqlparser::ast::DataType::Text => DeclaredType::Text,
        sqlparser::ast::DataType::String => DeclaredType::String,
        sqlparser::ast::DataType::Varchar(l) => DeclaredType::Varchar(l.map(|l| l.length)),
        sqlparser::ast::DataType::Boolean => DeclaredType::Boolean,
        sqlparser::ast::DataType::Date => DeclaredType::Date,
        sqlparser::ast::DataType::Timestamp(_, _) => DeclaredType::Timestamp,
        _ => DeclaredType::Other,
    }
}

} // verus!
