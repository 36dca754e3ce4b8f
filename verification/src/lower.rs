//! From SQL text to a statement of the engine: the text is parsed by the
//! `sqlparser` crate, and the first statement of its syntax tree is carried
//! over, node by node, into [`SqlStatement`].

use crate::ast::{
    all_nest_within, clause_nests_within, AggregateArg, AggregateSpec, Expression, FromClause,
    InsertSource, ProjectionItem, SelectQuery, SqlStatement,
};
use crate::error::{Construct, DbError, ErrorView};
use crate::guard::{is_light, is_parser_safe, parser_safe, weight, MAX_WEIGHT};
use crate::number::{number_of, parse_number};
use crate::result::texts_view;
use crate::schema::{columns_view, ColumnDefinition, ColumnView, DataType};
use crate::text::{doubled, push_quoted};
use crate::syntax::{
    argument_of, between_of, binary_op_of, column_name, column_name_of, column_type,
    create_table_of, declared_type_of, drop_of, expr_between, expr_binary_op, expr_function,
    expr_identifier, expr_in_list, expr_is_not_null, expr_is_null, expr_literal, expr_nested,
    function_arg_expr, function_of, function_parts, function_parts_of, group_by_of, having_of,
    held, ident_quote, ident_text, identifier_of, in_list_of, insert_of, is_not_null_of,
    is_null_of, item_of, limit_of, literal_of, message_of, nested_of, object_name_parts, offset_of,
    operator_kind, operator_of, parse_sql, parsed, parser_error_message, parts_of, projection_of,
    query_limit, query_of, query_offset, query_select, query_values, quote_of, reference_of,
    select_group_by, select_having, select_item_shape, select_of, select_projection,
    select_selection, select_tables, selection_of, statement_create_table, statement_drop,
    statement_insert, statement_query, table_reference, tables_of, text_of, values_of,
    DeclaredType, ItemShape, LiteralShape,
};
use crate::value::{Value, ValueView};
use vstd::prelude::*;

verus! {

/// How deeply expressions may nest. A chain of operators without
/// parentheses, `a OR b OR c`, nests one level per operator. A text that is
/// light enough for the parser (see [`crate::guard`]) has far fewer tokens
/// than this, so the bound is for trees that come another way.
pub const MAX_NESTING: usize = 1024;

/// The value a literal writes: a number as [`number_of`] reads it, a string
/// in single or in double quotes as its text, a boolean, or `Null`. A number
/// that `number_of` cannot read is refused; any other kind of literal has no
/// value.
pub open spec fn literal_view(shape: LiteralShape) -> Result<Option<ValueView>, Construct> {
    match shape {
        LiteralShape::Number(text) => match number_of(text@) {
            Some(v) => Ok(Some(v)),
            None => Err(Construct::NumericLiteral),
        },
        LiteralShape::SingleQuoted(text) => Ok(Some(ValueView::Text(text@))),
        LiteralShape::DoubleQuoted(text) => Ok(Some(ValueView::Text(text@))),
        LiteralShape::Boolean(b) => Ok(Some(ValueView::Boolean(b))),
        LiteralShape::Null => Ok(Some(ValueView::Null)),
        LiteralShape::Other => Ok(None),
    }
}

/// Reads the value of a literal.
pub fn literal_value(shape: LiteralShape) -> (r: Result<Option<Value>, DbError>)
    ensures
        match r {
            Ok(Some(v)) => literal_view(shape) == Ok::<Option<ValueView>, Construct>(Some(v@)),
            Ok(None) => literal_view(shape) == Ok::<Option<ValueView>, Construct>(None),
            Err(e) => literal_view(shape) matches Err(c) && e == DbError::Unsupported(c),
        },
{
    match shape {
        LiteralShape::Number(text) => match parse_number(text.as_str()) {
            Some(v) => Ok(Some(v)),
            None => Err(DbError::Unsupported(Construct::NumericLiteral)),
        },
        LiteralShape::SingleQuoted(text) => Ok(Some(Value::String(text.clone()))),
        LiteralShape::DoubleQuoted(text) => Ok(Some(Value::String(text.clone()))),
        LiteralShape::Boolean(b) => Ok(Some(Value::Boolean(b))),
        LiteralShape::Null => Ok(Some(Value::Null)),
        LiteralShape::Other => Ok(None),
    }
}

/// The family of a declared type: `INT` and `BIGINT` are integers; `FLOAT`,
/// `DOUBLE` and `DECIMAL` are floats; `TEXT`, `STRING` and `VARCHAR` are
/// texts, a `VARCHAR` with its length where that fits a `usize`; `BOOLEAN`,
/// `DATE` and `TIMESTAMP` are themselves; every other type is
/// [`DataType::Other`].
pub open spec fn family_of(declared: DeclaredType) -> DataType {
    match declared {
        DeclaredType::Int => DataType::Integer,
        DeclaredType::BigInt => DataType::Integer,
        DeclaredType::Float => DataType::Float,
        DeclaredType::Double => DataType::Float,
        DeclaredType::Decimal => DataType::Float,
        DeclaredType::Text => DataType::String(None),
        DeclaredType::String => DataType::String(None),
        DeclaredType::Varchar(Some(n)) => if n <= usize::MAX {
            DataType::String(Some(n as usize))
        } else {
            DataType::String(None)
        },
        DeclaredType::Varchar(None) => DataType::String(None),
        DeclaredType::Boolean => DataType::Boolean,
        DeclaredType::Date => DataType::Date,
        DeclaredType::Timestamp => DataType::Timestamp,
        DeclaredType::Other => DataType::Other,
    }
}

/// Sorts a declared type into its family.
pub fn type_family(declared: DeclaredType) -> (r: DataType)
    ensures
        r == family_of(declared),
{
    match declared {
        DeclaredType::Int => DataType::Integer,
        DeclaredType::BigInt => DataType::Integer,
        DeclaredType::Float => DataType::Float,
        DeclaredType::Double => DataType::Float,
        DeclaredType::Decimal => DataType::Float,
        DeclaredType::Text => DataType::String(None),
        DeclaredType::String => DataType::String(None),
        DeclaredType::Varchar(Some(n)) => if n <= usize::MAX as u64 {
            DataType::String(Some(n as usize))
        } else {
            DataType::String(None)
        },
        DeclaredType::Varchar(None) => DataType::String(None),
        DeclaredType::Boolean => DataType::Boolean,
        DeclaredType::Date => DataType::Date,
        DeclaredType::Timestamp => DataType::Timestamp,
        DeclaredType::Other => DataType::Other,
    }
}

/// An identifier as it is written in a name: between its quotes where it
/// was written in quotes, `"`, `'` or a backtick, with each such quote inside
/// written twice; between `[` and `]` where it was written so; and bare where
/// it was written bare.
///
/// This is what sqlparser's `Display` writes for an `Ident` with one of
/// these quotes or none. An `Ident` with another quote, which the parser
/// does not make and for which that `Display` panics, is written bare.
pub open spec fn written(ident: sqlparser::ast::Ident) -> Seq<char> {
    match quote_of(ident) {
        Some(q) => if q == '"' || q == '\'' || q == '`' {
            seq![q] + doubled(text_of(ident), q) + seq![q]
        } else if q == '[' {
            seq!['['] + text_of(ident) + seq![']']
        } else {
            text_of(ident)
        },
        None => text_of(ident),
    }
}

/// Identifiers as they are written, joined by `.`.
pub open spec fn joined(parts: Seq<sqlparser::ast::Ident>) -> Seq<char>
    decreases parts.len(),
{
    if parts.len() == 0 {
        Seq::empty()
    } else if parts.len() == 1 {
        written(parts[0])
    } else {
        joined(parts.drop_last()) + "."@ + written(parts.last())
    }
}

/// The text of a name: its identifiers as they are written, quotes and all
/// (see [`written`]), joined by `.`. A name in quotes and the same name
/// without are two names.
///
/// This is what sqlparser's `Display` writes for an `ObjectName` that the
/// parser made.
pub open spec fn name_of(name: sqlparser::ast::ObjectName) -> Seq<char> {
    joined(parts_of(name)@)
}

/// Appends an identifier as it is written (see [`written`]).
fn push_written(out: &mut String, ident: &sqlparser::ast::Ident)
    ensures
        final(out)@ == old(out)@ + written(*ident),
{
    let text = ident_text(ident);
    match ident_quote(ident) {
        Some(q) => {
            if q == '"' || q == '\'' || q == '`' {
                push_quoted(out, text.as_str(), q);
                assert(out@ =~= old(out)@ + (seq![q] + doubled(text@, q) + seq![q]));
            } else if q == '[' {
                out.append("[");
                out.append(text.as_str());
                out.append("]");
                proof {
                    reveal_strlit("[");
                    reveal_strlit("]");
                }
                assert("["@ =~= seq!['[']);
                assert("]"@ =~= seq![']']);
                assert(out@ =~= old(out)@ + (seq!['['] + text@ + seq![']']));
            } else {
                out.append(text.as_str());
            }
        },
        None => {
            out.append(text.as_str());
        },
    }
}

/// The text of a name (see [`name_of`]).
fn name_text(name: &sqlparser::ast::ObjectName) -> (r: String)
    ensures
        r@ == name_of(*name),
{
    let parts = object_name_parts(name);
    let mut out = String::new();
    let mut i: usize = 0;
    assert(parts@.take(0) =~= Seq::<sqlparser::ast::Ident>::empty());
    while i < parts.len()
        invariant
            i <= parts.len(),
            out@ == joined(parts@.take(i as int)),
        decreases parts.len() - i,
    {
        assert(parts@.take(i + 1).drop_last() =~= parts@.take(i as int));
        assert(parts@.take(i + 1).last() == parts@[i as int]);
        if i > 0 {
            out.append(".");
        }
        push_written(&mut out, &parts[i]);
        assert(out@ =~= joined(parts@.take(i + 1)));
        i = i + 1;
    }
    assert(parts@.take(i as int) =~= parts@);
    out
}

/// The first of two faults.
pub open spec fn first_fault(a: Option<Construct>, b: Option<Construct>) -> Option<Construct> {
    match a {
        Some(c) => Some(c),
        None => b,
    }
}

/// Why a function call cannot be carried over, if it cannot: its first
/// argument is a numeric literal that the engine cannot read.
pub open spec fn aggregate_fault(function: sqlparser::ast::Function) -> Option<Construct> {
    let args = function_parts_of(function).1;
    if args@.len() == 0 {
        None
    } else {
        match argument_of(args@[0]) {
            None => None,
            Some(e) => match identifier_of(e) {
                Some(_) => None,
                None => match literal_of(e) {
                    Some(shape) => match literal_view(shape) {
                        Err(c) => Some(c),
                        Ok(_) => None,
                    },
                    None => None,
                },
            },
        }
    }
}

/// Whether `arg` is the first argument of the function call: missing where
/// the call has no argument; no expression where the argument is `*`, a
/// qualified wildcard or a named argument; a column where it is an
/// identifier; a literal where it is a literal with a value; unsupported
/// where it is an expression of any other shape.
pub open spec fn carries_argument(arg: AggregateArg, function: sqlparser::ast::Function) -> bool {
    let args = function_parts_of(function).1;
    if args@.len() == 0 {
        arg is Missing
    } else {
        match argument_of(args@[0]) {
            None => arg is NotExpression,
            Some(e) => match identifier_of(e) {
                Some(ident) => arg matches AggregateArg::Column(c) && c@ == text_of(ident),
                None => match literal_of(e) {
                    Some(shape) => match literal_view(shape) {
                        Ok(Some(v)) => arg matches AggregateArg::Literal(l) && l@ == v,
                        Ok(None) => arg is Unsupported,
                        Err(_) => false,
                    },
                    None => arg is Unsupported,
                },
            },
        }
    }
}

/// The text of the last of a list of identifiers; empty for an empty list.
pub open spec fn last_text(parts: Seq<sqlparser::ast::Ident>) -> Seq<char> {
    if parts.len() == 0 {
        Seq::empty()
    } else {
        text_of(parts.last())
    }
}

/// Whether `aggregate` is the function call carried over: the name of the
/// function (see [`name_of`]), the last part of that name as the label, and
/// the first argument (see [`carries_argument`]).
pub open spec fn carries_aggregate(aggregate: AggregateSpec, function: sqlparser::ast::Function)
    -> bool {
    &&& aggregate.name@ == name_of(function_parts_of(function).0)
    &&& aggregate.label@ == last_text(parts_of(function_parts_of(function).0)@)
    &&& carries_argument(aggregate.arg, function)
}

/// Carries a function call over: its name, and of its arguments the first.
fn lower_aggregate(function: &sqlparser::ast::Function) -> (r: Result<AggregateSpec, DbError>)
    ensures
        match r {
            Ok(aggregate) => aggregate_fault(*function) is None && carries_aggregate(
                aggregate,
                *function,
            ),
            Err(e) => aggregate_fault(*function) matches Some(c) && e@ == ErrorView::Unsupported(
                c,
            ),
        },
{
    let (name, args) = function_parts(function);
    let arg = if args.len() == 0 {
        AggregateArg::Missing
    } else {
        match function_arg_expr(&args[0]) {
            None => AggregateArg::NotExpression,
            Some(e) => match expr_identifier(e) {
                Some(ident) => AggregateArg::Column(ident_text(ident).clone()),
                None => match expr_literal(e) {
                    Some(shape) => match literal_value(shape)? {
                        Some(v) => AggregateArg::Literal(v),
                        None => AggregateArg::Unsupported,
                    },
                    None => AggregateArg::Unsupported,
                },
            },
        }
    };
    let parts = object_name_parts(name);
    let label = if parts.len() == 0 {
        String::new()
    } else {
        ident_text(&parts[parts.len() - 1]).clone()
    };
    Ok(AggregateSpec { name: name_text(name), label, arg })
}

/// An expression of the syntax tree, by the shape that the engine tells
/// apart, with what it holds.
pub ghost enum ExprShape {
    Identifier(sqlparser::ast::Ident),
    Literal(LiteralShape<'static>),
    BinaryOp {
        left: sqlparser::ast::Expr,
        op: sqlparser::ast::BinaryOperator,
        right: sqlparser::ast::Expr,
    },
    IsNull(sqlparser::ast::Expr),
    IsNotNull(sqlparser::ast::Expr),
    InList { expr: sqlparser::ast::Expr, list: Vec<sqlparser::ast::Expr>, negated: bool },
    Between {
        expr: sqlparser::ast::Expr,
        low: sqlparser::ast::Expr,
        high: sqlparser::ast::Expr,
        negated: bool,
    },
    Nested(sqlparser::ast::Expr),
    Function(sqlparser::ast::Function),
    /// Any other expression.
    Other,
}

/// The shape of an expression.
pub open spec fn shape_of(e: sqlparser::ast::Expr) -> ExprShape {
    if identifier_of(e) is Some {
        ExprShape::Identifier(identifier_of(e)->0)
    } else if literal_of(e) is Some {
        ExprShape::Literal(literal_of(e)->0)
    } else if binary_op_of(e) is Some {
        let parts = binary_op_of(e)->Some_0;
        ExprShape::BinaryOp { left: parts.0, op: parts.1, right: parts.2 }
    } else if is_null_of(e) is Some {
        ExprShape::IsNull(is_null_of(e)->0)
    } else if is_not_null_of(e) is Some {
        ExprShape::IsNotNull(is_not_null_of(e)->0)
    } else if in_list_of(e) is Some {
        let parts = in_list_of(e)->Some_0;
        ExprShape::InList { expr: parts.0, list: parts.1, negated: parts.2 }
    } else if between_of(e) is Some {
        let parts = between_of(e)->Some_0;
        ExprShape::Between { expr: parts.0, low: parts.1, high: parts.2, negated: parts.3 }
    } else if nested_of(e) is Some {
        ExprShape::Nested(nested_of(e)->0)
    } else if function_of(e) is Some {
        ExprShape::Function(function_of(e)->0)
    } else {
        ExprShape::Other
    }
}

/// Why an expression cannot be carried over within `depth` levels, if it
/// cannot: it nests deeper, or it holds a numeric literal that the engine
/// cannot read. Of several faults it is the first, operands taken from left
/// to right.
pub open spec fn expression_fault(e: sqlparser::ast::Expr, depth: nat) -> Option<Construct>
    decreases depth, 0nat,
{
    if depth == 0 {
        Some(Construct::Nesting)
    } else {
        let below = (depth - 1) as nat;
        match shape_of(e) {
            ExprShape::Identifier(_) => None,
            ExprShape::Literal(shape) => match literal_view(shape) {
                Err(c) => Some(c),
                Ok(_) => None,
            },
            ExprShape::BinaryOp { left, right, .. } => first_fault(
                expression_fault(left, below),
                expression_fault(right, below),
            ),
            ExprShape::IsNull(inner) => expression_fault(inner, below),
            ExprShape::IsNotNull(inner) => expression_fault(inner, below),
            ExprShape::InList { expr, list, .. } => first_fault(
                expression_fault(expr, below),
                list_fault(list@, below),
            ),
            ExprShape::Between { expr, low, high, .. } => first_fault(
                expression_fault(expr, below),
                first_fault(expression_fault(low, below), expression_fault(high, below)),
            ),
            ExprShape::Nested(inner) => expression_fault(inner, below),
            ExprShape::Function(function) => aggregate_fault(function),
            ExprShape::Other => None,
        }
    }
}

/// The fault of the first expression of a list that has one.
pub open spec fn list_fault(list: Seq<sqlparser::ast::Expr>, depth: nat) -> Option<Construct>
    decreases depth, list.len() + 1,
{
    if list.len() == 0 {
        None
    } else {
        first_fault(list_fault(list.drop_last(), depth), expression_fault(list.last(), depth))
    }
}

/// Whether `x` is the expression `e` carried over, shape by shape: an
/// identifier with its text; a literal with its value, and unsupported where
/// it has none; an operation with its operator and its operands carried over;
/// a function call as [`carries_aggregate`] says; any other expression
/// unsupported.
pub open spec fn carries(x: Expression, e: sqlparser::ast::Expr, depth: nat) -> bool
    decreases depth, 0nat,
{
    depth > 0 && {
        let below = (depth - 1) as nat;
        match shape_of(e) {
            ExprShape::Identifier(ident) => x matches Expression::Identifier(name) && name@
                == text_of(ident),
            ExprShape::Literal(shape) => match literal_view(shape) {
                Ok(Some(v)) => x matches Expression::Literal(literal) && literal@ == v,
                Ok(None) => x is Unsupported,
                Err(_) => false,
            },
            ExprShape::BinaryOp { left: l, op: o, right: r } => x matches Expression::BinaryOp {
                left,
                op,
                right,
            } && op == operator_of(o) && carries(*left, l, below) && carries(*right, r, below),
            ExprShape::IsNull(i) => x matches Expression::IsNull(inner) && carries(
                *inner,
                i,
                below,
            ),
            ExprShape::IsNotNull(i) => x matches Expression::IsNotNull(inner) && carries(
                *inner,
                i,
                below,
            ),
            ExprShape::InList { expr: i, list: l, negated: n } => x matches Expression::InList {
                expr,
                list,
                negated,
            } && negated == n && carries(*expr, i, below) && carries_all(list@, l@, below),
            ExprShape::Between {
                expr: i,
                low: l,
                high: h,
                negated: n,
            } => x matches Expression::Between { expr, low, high, negated } && negated == n
                && carries(*expr, i, below) && carries(*low, l, below) && carries(
                *high,
                h,
                below,
            ),
            ExprShape::Nested(i) => x matches Expression::Nested(inner) && carries(
                *inner,
                i,
                below,
            ),
            ExprShape::Function(function) => x matches Expression::Function(aggregate)
                && carries_aggregate(aggregate, function),
            ExprShape::Other => x is Unsupported,
        }
    }
}

/// Whether `xs` are the expressions `es` carried over, one by one.
pub open spec fn carries_all(xs: Seq<Expression>, es: Seq<sqlparser::ast::Expr>, depth: nat)
    -> bool
    decreases depth, 1nat,
{
    xs.len() == es.len() && forall|i: int|
        0 <= i < xs.len() ==> carries(#[trigger] xs[i], es[i], depth)
}

/// Once a prefix of a list has a fault, that is the fault of the list.
pub proof fn lemma_list_fault_prefix(list: Seq<sqlparser::ast::Expr>, n: int, depth: nat)
    requires
        0 <= n <= list.len(),
        list_fault(list.take(n), depth) is Some,
    ensures
        list_fault(list, depth) == list_fault(list.take(n), depth),
    decreases list.len(),
{
    if n < list.len() {
        assert(list.drop_last().take(n) =~= list.take(n));
        lemma_list_fault_prefix(list.drop_last(), n, depth);
    } else {
        assert(list.take(n) =~= list);
    }
}

/// Carries a list of expressions over, each nested at most `depth` deep.
fn lower_expressions(list: &Vec<sqlparser::ast::Expr>, depth: usize) -> (r: Result<
    Vec<Expression>,
    DbError,
>)
    ensures
        match r {
            Ok(out) => list_fault(list@, depth as nat) is None && carries_all(
                out@,
                list@,
                depth as nat,
            ),
            Err(e) => list_fault(list@, depth as nat) matches Some(c) && e@
                == ErrorView::Unsupported(c),
        },
        r matches Ok(out) ==> all_nest_within(out@, depth as nat),
    decreases depth, list.len() + 1,
{
    let mut out: Vec<Expression> = Vec::new();
    let mut i: usize = 0;
    assert(list@.take(0) =~= Seq::<sqlparser::ast::Expr>::empty());
    while i < list.len()
        invariant
            i <= list.len(),
            all_nest_within(out@, depth as nat),
            list_fault(list@.take(i as int), depth as nat) is None,
            carries_all(out@, list@.take(i as int), depth as nat),
        decreases list.len() - i,
    {
        assert(list@.take(i + 1).drop_last() =~= list@.take(i as int));
        assert(list@.take(i + 1).last() == list@[i as int]);
        match lower_expression(&list[i], depth) {
            Ok(x) => {
                out.push(x);
            },
            Err(e) => {
                proof {
                    lemma_list_fault_prefix(list@, i + 1, depth as nat);
                }
                return Err(e);
            },
        }
        i = i + 1;
    }
    assert(list@.take(i as int) =~= list@);
    Ok(out)
}

/// Carries an expression over, nested at most `depth` deep. A shape that the
/// engine does not evaluate becomes [`Expression::Unsupported`].
fn lower_expression(e: &sqlparser::ast::Expr, depth: usize) -> (r: Result<Expression, DbError>)
    ensures
        match r {
            Ok(out) => expression_fault(*e, depth as nat) is None && carries(
                out,
                *e,
                depth as nat,
            ),
            Err(err) => expression_fault(*e, depth as nat) matches Some(c) && err@
                == ErrorView::Unsupported(c),
        },
        r matches Ok(out) ==> out.nests_within(depth as nat),
    decreases depth, 0nat,
{
    if depth == 0 {
        return Err(DbError::Unsupported(Construct::Nesting));
    }
    if let Some(ident) = expr_identifier(e) {
        return Ok(Expression::Identifier(ident_text(ident).clone()));
    }
    if let Some(shape) = expr_literal(e) {
        return Ok(
            match literal_value(shape)? {
                Some(v) => Expression::Literal(v),
                None => Expression::Unsupported,
            },
        );
    }
    if let Some((left, op, right)) = expr_binary_op(e) {
        let l = lower_expression(left, depth - 1)?;
        let r = lower_expression(right, depth - 1)?;
        return Ok(
            Expression::BinaryOp { left: Box::new(l), op: operator_kind(op), right: Box::new(r) },
        );
    }
    if let Some(inner) = expr_is_null(e) {
        return Ok(Expression::IsNull(Box::new(lower_expression(inner, depth - 1)?)));
    }
    if let Some(inner) = expr_is_not_null(e) {
        return Ok(Expression::IsNotNull(Box::new(lower_expression(inner, depth - 1)?)));
    }
    if let Some((expr, list, negated)) = expr_in_list(e) {
        let x = lower_expression(expr, depth - 1)?;
        let xs = lower_expressions(list, depth - 1)?;
        return Ok(Expression::InList { expr: Box::new(x), list: xs, negated });
    }
    if let Some((expr, low, high, negated)) = expr_between(e) {
        let x = lower_expression(expr, depth - 1)?;
        let l = lower_expression(low, depth - 1)?;
        let h = lower_expression(high, depth - 1)?;
        return Ok(
            Expression::Between {
                expr: Box::new(x),
                low: Box::new(l),
                high: Box::new(h),
                negated,
            },
        );
    }
    if let Some(inner) = expr_nested(e) {
        return Ok(Expression::Nested(Box::new(lower_expression(inner, depth - 1)?)));
    }
    if let Some(function) = expr_function(e) {
        return Ok(Expression::Function(lower_aggregate(function)?));
    }
    Ok(Expression::Unsupported)
}

/// Why an optional clause cannot be carried over, if it cannot.
pub open spec fn clause_fault(clause: Option<sqlparser::ast::Expr>) -> Option<Construct> {
    match clause {
        Some(e) => expression_fault(e, MAX_NESTING as nat),
        None => None,
    }
}

/// Whether `x` is the optional clause carried over: absent where the clause
/// is absent, and the expression of the clause carried over where it is
/// there.
pub open spec fn carries_clause(x: Option<Expression>, clause: Option<sqlparser::ast::Expr>)
    -> bool {
    match clause {
        Some(e) => x matches Some(out) && carries(out, e, MAX_NESTING as nat),
        None => x is None,
    }
}

/// Carries an optional clause over.
fn lower_optional(e: Option<&sqlparser::ast::Expr>) -> (r: Result<Option<Expression>, DbError>)
    ensures
        match r {
            Ok(out) => clause_fault(held(e)) is None && carries_clause(out, held(e)),
            Err(err) => clause_fault(held(e)) matches Some(c) && err@ == ErrorView::Unsupported(
                c,
            ),
        },
        r matches Ok(out) ==> clause_nests_within(out, MAX_NESTING as nat),
{
    match e {
        Some(e) => Ok(Some(lower_expression(e, MAX_NESTING)?)),
        None => Ok(None),
    }
}

/// The function call that an item of a projection list holds, if it holds
/// one: as its whole expression, with or without an alias, but not where that
/// expression is an identifier.
pub open spec fn item_function(item: sqlparser::ast::SelectItem) -> Option<
    sqlparser::ast::Function,
> {
    match item_of(item) {
        ItemShape::Plain(e) => if identifier_of(*e) is Some {
            None
        } else {
            function_of(*e)
        },
        ItemShape::Aliased(e) => function_of(*e),
        _ => None,
    }
}

/// Why an item of a projection list cannot be carried over, if it cannot: it
/// is a function call with a fault.
pub open spec fn item_fault(item: sqlparser::ast::SelectItem) -> Option<Construct> {
    match item_function(item) {
        Some(function) => aggregate_fault(function),
        None => None,
    }
}

/// Whether `x` is the item carried over: `*` is the wildcard; an identifier
/// without an alias a column with its text; a function call, with or without
/// an alias, an aggregate (see [`carries_aggregate`]); anything else, an
/// identifier with an alias too, unsupported.
pub open spec fn carries_item(x: ProjectionItem, item: sqlparser::ast::SelectItem) -> bool {
    match item_of(item) {
        ItemShape::Wildcard => x is Wildcard,
        ItemShape::Plain(e) => match identifier_of(*e) {
            Some(ident) => x matches ProjectionItem::Column(name) && name@ == text_of(ident),
            None => match function_of(*e) {
                Some(function) => x matches ProjectionItem::Aggregate(aggregate)
                    && carries_aggregate(aggregate, function),
                None => x is Unsupported,
            },
        },
        ItemShape::Aliased(e) => match function_of(*e) {
            Some(function) => x matches ProjectionItem::Aggregate(aggregate) && carries_aggregate(
                aggregate,
                function,
            ),
            None => x is Unsupported,
        },
        ItemShape::Other => x is Unsupported,
    }
}

/// Carries an item of a projection list over: `*`, a bare column, or a
/// function call with or without an alias. Anything else, a column with an
/// alias too, becomes [`ProjectionItem::Unsupported`].
fn lower_item(item: &sqlparser::ast::SelectItem) -> (r: Result<ProjectionItem, DbError>)
    ensures
        match r {
            Ok(out) => item_fault(*item) is None && carries_item(out, *item),
            Err(e) => item_fault(*item) matches Some(c) && e@ == ErrorView::Unsupported(c),
        },
{
    match select_item_shape(item) {
        ItemShape::Wildcard => Ok(ProjectionItem::Wildcard),
        ItemShape::Plain(e) => match expr_identifier(e) {
            Some(ident) => Ok(ProjectionItem::Column(ident_text(ident).clone())),
            None => match expr_function(e) {
                Some(function) => Ok(ProjectionItem::Aggregate(lower_aggregate(function)?)),
                None => Ok(ProjectionItem::Unsupported),
            },
        },
        ItemShape::Aliased(e) => match expr_function(e) {
            Some(function) => Ok(ProjectionItem::Aggregate(lower_aggregate(function)?)),
            None => Ok(ProjectionItem::Unsupported),
        },
        ItemShape::Other => Ok(ProjectionItem::Unsupported),
    }
}

/// Whether `x` is the `FROM` clause carried over: missing where the clause
/// names nothing; the table, under its name (see [`name_of`]), where the
/// clause names exactly one table and that has no join; unsupported in every
/// other case.
pub open spec fn carries_from(x: FromClause, tables: Seq<sqlparser::ast::TableWithJoins>) -> bool {
    if tables.len() == 0 {
        x is Missing
    } else if tables.len() > 1 {
        x is Unsupported
    } else {
        match reference_of(tables[0]) {
            (Some(name), joins) => if joins@.len() == 0 {
                x matches FromClause::Table(text) && text@ == name_of(name)
            } else {
                x is Unsupported
            },
            _ => x is Unsupported,
        }
    }
}

/// Carries a `FROM` clause over: one table without joins is that table.
fn lower_from(tables: &Vec<sqlparser::ast::TableWithJoins>) -> (r: FromClause)
    ensures
        carries_from(r, tables@),
{
    if tables.len() == 0 {
        FromClause::Missing
    } else if tables.len() > 1 {
        FromClause::Unsupported
    } else {
        match table_reference(&tables[0]) {
            (Some(name), joins) => if joins.len() == 0 {
                FromClause::Table(name_text(name))
            } else {
                FromClause::Unsupported
            },
            _ => FromClause::Unsupported,
        }
    }
}

/// The fault of the first item of a projection list that has one.
pub open spec fn items_fault(items: Seq<sqlparser::ast::SelectItem>) -> Option<Construct>
    decreases items.len(),
{
    if items.len() == 0 {
        None
    } else {
        first_fault(items_fault(items.drop_last()), item_fault(items.last()))
    }
}

/// Whether `xs` are the items of a projection list carried over, one by one.
pub open spec fn carries_items(xs: Seq<ProjectionItem>, items: Seq<sqlparser::ast::SelectItem>)
    -> bool {
    xs.len() == items.len() && forall|i: int|
        0 <= i < xs.len() ==> carries_item(#[trigger] xs[i], items[i])
}

/// Once a prefix of a projection list has a fault, that is the fault of the
/// list.
pub proof fn lemma_items_fault_prefix(items: Seq<sqlparser::ast::SelectItem>, n: int)
    requires
        0 <= n <= items.len(),
        items_fault(items.take(n)) is Some,
    ensures
        items_fault(items) == items_fault(items.take(n)),
    decreases items.len(),
{
    if n < items.len() {
        assert(items.drop_last().take(n) =~= items.take(n));
        lemma_items_fault_prefix(items.drop_last(), n);
    } else {
        assert(items.take(n) =~= items);
    }
}

/// Why a query cannot be carried over, if it cannot: its body is not a plain
/// `SELECT`, or else the first of its parts that has a fault has one, the
/// parts taken in this order: projection, `WHERE`, `GROUP BY`, `HAVING`,
/// `OFFSET`, `LIMIT`.
pub open spec fn query_fault(query: sqlparser::ast::Query) -> Option<Construct> {
    match select_of(query) {
        None => Some(Construct::QueryBody),
        Some(select) => first_fault(
            items_fault(projection_of(select)@),
            first_fault(
                clause_fault(selection_of(select)),
                first_fault(
                    list_fault(group_by_of(select)@, MAX_NESTING as nat),
                    first_fault(
                        clause_fault(having_of(select)),
                        first_fault(clause_fault(offset_of(query)), clause_fault(limit_of(query))),
                    ),
                ),
            ),
        ),
    }
}

/// Whether `x` is the query carried over, part by part: projection, `FROM`,
/// `WHERE`, `GROUP BY`, `HAVING`, `OFFSET` and `LIMIT`. Nothing else of the
/// query is carried over.
pub open spec fn carries_query(x: SelectQuery, query: sqlparser::ast::Query) -> bool {
    select_of(query) matches Some(select) && {
        &&& carries_items(x.projection@, projection_of(select)@)
        &&& carries_from(x.from, tables_of(select)@)
        &&& carries_clause(x.selection, selection_of(select))
        &&& carries_all(x.group_by@, group_by_of(select)@, MAX_NESTING as nat)
        &&& carries_clause(x.having, having_of(select))
        &&& carries_clause(x.offset, offset_of(query))
        &&& carries_clause(x.limit, limit_of(query))
    }
}

/// Carries a query over. `ORDER BY` and every clause that [`SelectQuery`]
/// has no field for are left out.
fn lower_query(query: &sqlparser::ast::Query) -> (r: Result<SelectQuery, DbError>)
    ensures
        match r {
            Ok(out) => query_fault(*query) is None && carries_query(out, *query),
            Err(e) => query_fault(*query) matches Some(c) && e@ == ErrorView::Unsupported(c),
        },
        r matches Ok(out) ==> out.nests_within(MAX_NESTING as nat),
{
    let select = match query_select(query) {
        Some(select) => select,
        None => {
            return Err(DbError::Unsupported(Construct::QueryBody));
        },
    };
    let items = select_projection(select);
    let mut projection: Vec<ProjectionItem> = Vec::new();
    let mut i: usize = 0;
    assert(items@.take(0) =~= Seq::<sqlparser::ast::SelectItem>::empty());
    while i < items.len()
        invariant
            i <= items.len(),
            held(Some(select)) == select_of(*query),
            *items == projection_of(*select),
            items_fault(items@.take(i as int)) is None,
            carries_items(projection@, items@.take(i as int)),
        decreases items.len() - i,
    {
        assert(items@.take(i + 1).drop_last() =~= items@.take(i as int));
        assert(items@.take(i + 1).last() == items@[i as int]);
        match lower_item(&items[i]) {
            Ok(item) => {
                projection.push(item);
            },
            Err(e) => {
                proof {
                    lemma_items_fault_prefix(items@, i + 1);
                }
                return Err(e);
            },
        }
        i = i + 1;
    }
    assert(items@.take(i as int) =~= items@);
    Ok(
        SelectQuery {
            projection,
            from: lower_from(select_tables(select)),
            selection: lower_optional(select_selection(select))?,
            group_by: lower_expressions(select_group_by(select), MAX_NESTING)?,
            having: lower_optional(select_having(select))?,
            offset: lower_optional(query_offset(query))?,
            limit: lower_optional(query_limit(query))?,
        },
    )
}

/// The columns of a `CREATE TABLE` carried over: each with the text of its
/// name and the family of its declared type, and without constraints.
pub open spec fn carried_columns(columns: Seq<sqlparser::ast::ColumnDef>) -> Seq<ColumnView> {
    Seq::new(
        columns.len(),
        |i: int|
            ColumnView {
                name: text_of(column_name_of(columns[i])),
                data_type: family_of(declared_type_of(columns[i])),
                constraints: Seq::empty(),
            },
    )
}

/// Carries the columns of a `CREATE TABLE` over: names and types. Their
/// constraints are left out.
fn lower_columns(columns: &Vec<sqlparser::ast::ColumnDef>) -> (r: Vec<ColumnDefinition>)
    ensures
        columns_view(r@) == carried_columns(columns@),
{
    let mut out: Vec<ColumnDefinition> = Vec::new();
    let mut i: usize = 0;
    while i < columns.len()
        invariant
            i <= columns.len(),
            out@.len() == i,
            forall|j: int| 0 <= j < i ==> (#[trigger] out@[j])@ == carried_columns(columns@)[j],
        decreases columns.len() - i,
    {
        let column = ColumnDefinition {
            name: ident_text(column_name(&columns[i])).clone(),
            data_type: type_family(column_type(&columns[i])),
            constraints: Vec::new(),
        };
        assert(column@.constraints =~= Seq::empty());
        out.push(column);
        i = i + 1;
    }
    assert(columns_view(out@) =~= carried_columns(columns@));
    out
}

/// The fault of the first row of a `VALUES` list that has one.
pub open spec fn rows_fault(rows: Seq<Vec<sqlparser::ast::Expr>>) -> Option<Construct>
    decreases rows.len(),
{
    if rows.len() == 0 {
        None
    } else {
        first_fault(
            rows_fault(rows.drop_last()),
            list_fault(rows.last()@, MAX_NESTING as nat),
        )
    }
}

/// Whether `tuples` are the rows of a `VALUES` list carried over, row by row
/// and expression by expression.
pub open spec fn carries_rows(tuples: Seq<Vec<Expression>>, rows: Seq<Vec<sqlparser::ast::Expr>>)
    -> bool {
    tuples.len() == rows.len() && forall|k: int|
        0 <= k < tuples.len() ==> carries_all(
            (#[trigger] tuples[k])@,
            rows[k]@,
            MAX_NESTING as nat,
        )
}

/// Once a prefix of a `VALUES` list has a fault, that is the fault of the
/// list.
pub proof fn lemma_rows_fault_prefix(rows: Seq<Vec<sqlparser::ast::Expr>>, n: int)
    requires
        0 <= n <= rows.len(),
        rows_fault(rows.take(n)) is Some,
    ensures
        rows_fault(rows) == rows_fault(rows.take(n)),
    decreases rows.len(),
{
    if n < rows.len() {
        assert(rows.drop_last().take(n) =~= rows.take(n));
        lemma_rows_fault_prefix(rows.drop_last(), n);
    } else {
        assert(rows.take(n) =~= rows);
    }
}

/// Why the source of an `INSERT` cannot be carried over, if it cannot: it is
/// a `VALUES` list with a fault in one of its rows.
pub open spec fn source_fault(source: sqlparser::ast::Query) -> Option<Construct> {
    match values_of(source) {
        Some(rows) => rows_fault(rows@),
        None => None,
    }
}

/// Whether `x` is the source of an `INSERT` carried over: the rows of a
/// `VALUES` list, and unsupported where the source is anything else.
pub open spec fn carries_source(x: InsertSource, source: sqlparser::ast::Query) -> bool {
    match values_of(source) {
        Some(rows) => x matches InsertSource::Values(tuples) && carries_rows(tuples@, rows@),
        None => x is Unsupported,
    }
}

/// Carries the source of an `INSERT` over.
fn lower_source(source: &sqlparser::ast::Query) -> (r: Result<InsertSource, DbError>)
    ensures
        match r {
            Ok(out) => source_fault(*source) is None && carries_source(out, *source),
            Err(e) => source_fault(*source) matches Some(c) && e@ == ErrorView::Unsupported(c),
        },
        r matches Ok(InsertSource::Values(tuples)) ==> forall|k: int|
            0 <= k < tuples@.len() ==> all_nest_within(
                (#[trigger] tuples@[k])@,
                MAX_NESTING as nat,
            ),
{
    let rows = match query_values(source) {
        Some(rows) => rows,
        None => {
            return Ok(InsertSource::Unsupported);
        },
    };
    let mut tuples: Vec<Vec<Expression>> = Vec::new();
    let mut i: usize = 0;
    assert(rows@.take(0) =~= Seq::<Vec<sqlparser::ast::Expr>>::empty());
    while i < rows.len()
        invariant
            i <= rows.len(),
            held(Some(rows)) == values_of(*source),
            forall|k: int|
                0 <= k < tuples@.len() ==> all_nest_within(
                    (#[trigger] tuples@[k])@,
                    MAX_NESTING as nat,
                ),
            rows_fault(rows@.take(i as int)) is None,
            carries_rows(tuples@, rows@.take(i as int)),
        decreases rows.len() - i,
    {
        assert(rows@.take(i + 1).drop_last() =~= rows@.take(i as int));
        assert(rows@.take(i + 1).last() == rows@[i as int]);
        match lower_expressions(&rows[i], MAX_NESTING) {
            Ok(tuple) => {
                tuples.push(tuple);
            },
            Err(e) => {
                proof {
                    lemma_rows_fault_prefix(rows@, i + 1);
                }
                return Err(e);
            },
        }
        i = i + 1;
    }
    assert(rows@.take(i as int) =~= rows@);
    Ok(InsertSource::Values(tuples))
}

/// The texts of a list of identifiers, in order.
pub open spec fn texts_of(idents: Seq<sqlparser::ast::Ident>) -> Seq<Seq<char>> {
    Seq::new(idents.len(), |i: int| text_of(idents[i]))
}

/// Why a statement cannot be carried over, if it cannot: a `DROP` of
/// something other than a table, or of no name; an `INSERT` or a query with a
/// fault; or a statement of another kind than `CREATE TABLE`, `DROP`,
/// `INSERT` and a query.
pub open spec fn statement_fault(statement: sqlparser::ast::Statement) -> Option<Construct> {
    if create_table_of(statement) is Some {
        None
    } else if drop_of(statement) is Some {
        let parts = drop_of(statement)->Some_0;
        if !parts.0 || parts.2@.len() == 0 {
            Some(Construct::DropTarget)
        } else {
            None
        }
    } else if insert_of(statement) is Some {
        source_fault(insert_of(statement)->Some_0.2)
    } else if query_of(statement) is Some {
        query_fault(query_of(statement)->Some_0)
    } else {
        Some(Construct::Statement)
    }
}

/// Whether `x` is the statement carried over.
///
/// - `CREATE TABLE`: the name of the table (see [`name_of`]) and its columns
///   (see [`carried_columns`]), without constraints.
/// - `DROP TABLE`: the first of the names and the `IF EXISTS` flag.
/// - `INSERT`: the name of the table, the texts of the listed columns, and
///   the source (see [`carries_source`]).
/// - A query: see [`carries_query`].
pub open spec fn carries_statement(x: SqlStatement, statement: sqlparser::ast::Statement) -> bool {
    if create_table_of(statement) is Some {
        let parts = create_table_of(statement)->Some_0;
        x matches SqlStatement::CreateTable { name, columns, constraints } && name@ == name_of(
            parts.0,
        ) && columns_view(columns@) == carried_columns(parts.1@) && constraints@.len() == 0
    } else if drop_of(statement) is Some {
        let parts = drop_of(statement)->Some_0;
        x matches SqlStatement::DropTable { name, if_exists } && parts.2@.len() > 0 && name@
            == name_of(parts.2@[0]) && if_exists == parts.1
    } else if insert_of(statement) is Some {
        let parts = insert_of(statement)->Some_0;
        x matches SqlStatement::Insert { table, columns, source } && table@ == name_of(parts.0)
            && texts_view(columns@) == texts_of(parts.1@) && carries_source(source, parts.2)
    } else if query_of(statement) is Some {
        x matches SqlStatement::Select(query) && carries_query(
            query,
            query_of(statement)->Some_0,
        )
    } else {
        false
    }
}

/// Carries a statement over.
fn lower_statement(statement: &sqlparser::ast::Statement) -> (r: Result<SqlStatement, DbError>)
    ensures
        match r {
            Ok(out) => statement_fault(*statement) is None && carries_statement(out, *statement),
            Err(e) => statement_fault(*statement) matches Some(c) && e@
                == ErrorView::Unsupported(c),
        },
        r matches Ok(out) ==> out.nests_within(MAX_NESTING as nat),
{
    if let Some((name, columns)) = statement_create_table(statement) {
        return Ok(
            SqlStatement::CreateTable {
                name: name_text(name),
                columns: lower_columns(columns),
                constraints: Vec::new(),
            },
        );
    }
    if let Some((is_table, if_exists, names)) = statement_drop(statement) {
        if !is_table || names.len() == 0 {
            return Err(DbError::Unsupported(Construct::DropTarget));
        }
        return Ok(SqlStatement::DropTable { name: name_text(&names[0]), if_exists });
    }
    if let Some((table, columns, source)) = statement_insert(statement) {
        let mut names: Vec<String> = Vec::new();
        let mut i: usize = 0;
        while i < columns.len()
            invariant
                i <= columns.len(),
                names@.len() == i,
                forall|j: int| 0 <= j < i ==> (#[trigger] names@[j])@ == text_of(columns@[j]),
            decreases columns.len() - i,
        {
            names.push(ident_text(&columns[i]).clone());
            i = i + 1;
        }
        assert(texts_view(names@) =~= texts_of(columns@));
        return match lower_source(source) {
            Ok(source) => Ok(
                SqlStatement::Insert { table: name_text(table), columns: names, source },
            ),
            Err(e) => Err(e),
        };
    }
    if let Some(query) = statement_query(statement) {
        return match lower_query(query) {
            Ok(query) => Ok(SqlStatement::Select(query)),
            Err(e) => Err(e),
        };
    }
    Err(DbError::Unsupported(Construct::Statement))
}

/// Why a text gives no statement, if it gives none: a word in it that keeps
/// it from the parser (see [`parser_safe`]); a weight that does (see
/// [`weight`]); the parser's error with its message; a text without a
/// statement; or the fault of its first statement (see
/// [`statement_fault`]).
pub open spec fn text_fault(sql: Seq<char>) -> Option<ErrorView> {
    if !parser_safe(sql) {
        Some(ErrorView::Unsupported(Construct::ReservedWord))
    } else if weight(sql) > MAX_WEIGHT {
        Some(ErrorView::Unsupported(Construct::TextSize))
    } else {
        match parsed(sql) {
            Err(e) => Some(ErrorView::Parse(message_of(e))),
            Ok(statements) => if statements@.len() == 0 {
                Some(ErrorView::Unsupported(Construct::EmptyInput))
            } else {
                match statement_fault(statements@[0]) {
                    Some(c) => Some(ErrorView::Unsupported(c)),
                    None => None,
                }
            },
        }
    }
}

/// Whether `x` is the statement that a text gives: the first of the
/// statements that the parser makes of the text, carried over (see
/// [`carries_statement`]).
pub open spec fn states(x: SqlStatement, sql: Seq<char>) -> bool {
    parsed(sql) matches Ok(statements) && statements@.len() > 0 && carries_statement(
        x,
        statements@[0],
    )
}

/// Parses `sql` and carries its first statement over. A text with the word
/// `DIV` or `GRANTED` in it, and a text heavier than [`MAX_WEIGHT`], is
/// refused unread (see [`crate::guard`]); every other text is handed to the
/// parser as it is. A failure is the parser's error with its message, or the
/// construct that the engine refuses: such a word, such a weight, an input
/// without a statement, a statement of another kind, a query that is not a
/// plain `SELECT`, a `DROP` of something other than a table, a numeric
/// literal outside the engine's numbers, or an expression nested more than
/// [`MAX_NESTING`] deep.
///
/// What the parser makes of a text is not stated here, only named (see
/// [`parsed`]); how the statement that comes back reads that tree is stated
/// node by node.
pub fn parse_statement(sql: &str) -> (r: Result<SqlStatement, DbError>)
    ensures
        match r {
            Ok(statement) => text_fault(sql@) is None && states(statement, sql@),
            Err(e) => text_fault(sql@) == Some(e@),
        },
        r matches Ok(statement) ==> statement.nests_within(MAX_NESTING as nat),
{
    if !is_parser_safe(sql) {
        return Err(DbError::Unsupported(Construct::ReservedWord));
    }
    if !is_light(sql) {
        return Err(DbError::Unsupported(Construct::TextSize));
    }
    match parse_sql(sql) {
        Err(e) => Err(DbError::Parse(parser_error_message(&e))),
        Ok(statements) => {
            if statements.len() == 0 {
                Err(DbError::Unsupported(Construct::EmptyInput))
            } else {
                lower_statement(&statements[0])
            }
        },
    }
}

} // verus!
