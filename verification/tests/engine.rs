use sql_engine::aggregate::evaluate_function;
use sql_engine::ast::{
    AggregateArg, AggregateSpec, Expression, FromClause, InsertSource, Operator, ProjectionItem,
    SelectQuery, SqlStatement,
};
use sql_engine::database::Database;
use sql_engine::error::{Construct, DbError, ErrorKind};
use sql_engine::eval::{contains_value, evaluate_condition, evaluate_expr, evaluate_exprs};
use sql_engine::group::{
    evaluate_having_condition, evaluate_having_expr, group_and_aggregate, partition, same_values,
};
use sql_engine::lower::{literal_value, parse_statement, type_family};
use sql_engine::result::{QueryResult, SelectResult, SelectResultResponse};
use sql_engine::schema::{find_column, ColumnConstraint, ColumnDefinition, DataType};
use sql_engine::select::{
    aggregate_name, apply_window, column_titles, filter, project_rows, read_bound, resolve,
    select_rows, Projected,
};
use sql_engine::syntax::{DeclaredType, LiteralShape};
use sql_engine::guard::{holds, is_light, is_parser_safe};
use sql_engine::table::{check_row, evaluate_tuple, Row, Table};
use sql_engine::value::{Decimal, Value};

fn text(s: &str) -> Value {
    Value::String(s.to_string())
}

fn column(name: &str, data_type: DataType) -> ColumnDefinition {
    ColumnDefinition { name: name.to_string(), data_type, constraints: Vec::new() }
}

fn people_columns() -> Vec<ColumnDefinition> {
    vec![
        column("id", DataType::Integer),
        column("name", DataType::String(None)),
        column("age", DataType::Integer),
    ]
}

fn literal(v: Value) -> Expression {
    Expression::Literal(v)
}

fn identifier(name: &str) -> Expression {
    Expression::Identifier(name.to_string())
}

fn binary(left: Expression, op: Operator, right: Expression) -> Expression {
    Expression::BinaryOp { left: Box::new(left), op, right: Box::new(right) }
}

fn person(id: i64, name: &str, age: i64) -> Row {
    Row::new(vec![Value::Integer(id), text(name), Value::Integer(age)])
}

fn people() -> Table {
    let mut table = Table::with_columns("people".to_string(), people_columns());
    table
        .insert(&vec![
            vec![literal(Value::Integer(1)), literal(text("Alice")), literal(Value::Integer(30))],
            vec![literal(Value::Integer(2)), literal(text("Bob")), literal(Value::Integer(25))],
            vec![literal(Value::Integer(3)), literal(text("Alice")), literal(Value::Integer(35))],
        ])
        .unwrap();
    table
}

fn sum_of_column(name: &str) -> AggregateSpec {
    AggregateSpec {
        name: "SUM".to_string(),
        label: "SUM".to_string(),
        arg: AggregateArg::Column(name.to_string()),
    }
}

fn query(projection: Vec<ProjectionItem>) -> SelectQuery {
    SelectQuery {
        projection,
        from: FromClause::Table("people".to_string()),
        selection: None,
        group_by: Vec::new(),
        having: None,
        offset: None,
        limit: None,
    }
}

fn rows_of(result: Result<QueryResult, DbError>) -> SelectResult {
    match result {
        Ok(QueryResult::Rows(data)) => data,
        other => panic!("expected rows, got {:?}", other),
    }
}

#[test]
fn new_table_is_empty() {
    let table = Table::new("t".to_string());
    assert_eq!(table.name(), "t");
    assert!(table.columns().is_empty());
    assert!(table.rows().is_empty());
    let with = Table::with_columns("u".to_string(), people_columns());
    assert_eq!(with.columns().len(), 3);
    assert_eq!(with.columns()[1].name, "name");
    assert!(with.rows().is_empty());
}

#[test]
fn row_keeps_its_values() {
    let row = Row::new(vec![Value::Integer(1), text("a")]);
    assert_eq!(row.values(), &vec![Value::Integer(1), text("a")]);
    assert_eq!(row.clone().values(), row.values());
}

#[test]
fn table_insert_appends_in_order_and_counts_tuples() {
    let mut table = Table::with_columns("people".to_string(), people_columns());
    let result = table.insert(&vec![
        vec![literal(Value::Integer(1)), literal(text("a")), literal(Value::Null)],
        vec![literal(Value::Integer(2)), literal(text("b")), literal(Value::Integer(5))],
    ]);
    assert!(matches!(result, Ok(QueryResult::Success(ref m)) if m == "Inserted 2 row(s)"));
    assert_eq!(table.rows().len(), 2);
    assert_eq!(table.rows()[0].values(), &vec![Value::Integer(1), text("a"), Value::Null]);
    assert_eq!(table.rows()[1].values()[0], Value::Integer(2));
    let none = table.insert(&Vec::new());
    assert!(matches!(none, Ok(QueryResult::Success(ref m)) if m == "Inserted 0 row(s)"));
    assert_eq!(table.rows().len(), 2);
}

#[test]
fn a_tuple_has_one_value_for_each_expression() {
    let tuple = vec![
        literal(Value::Integer(1)),
        identifier("x"),
        literal(text("a")),
        Expression::Unsupported,
        Expression::Nested(Box::new(literal(Value::Integer(9)))),
    ];
    assert_eq!(
        evaluate_tuple(&tuple),
        vec![Value::Integer(1), Value::Null, text("a"), Value::Null, Value::Null]
    );
    assert!(evaluate_tuple(&Vec::new()).is_empty());
}

#[test]
fn a_tuple_of_another_length_is_refused_whatever_it_holds() {
    let mut table = Table::with_columns(
        "t".to_string(),
        vec![column("a", DataType::Integer)],
    );
    let sum = binary(literal(Value::Integer(2)), Operator::Other, literal(Value::Integer(3)));
    let result = table.insert(&vec![vec![literal(Value::Integer(1)), sum]]);
    assert!(matches!(result, Err(DbError::ArityMismatch { expected: 1, found: 2 })));
    assert!(table.rows().is_empty());
    let fitting = table.insert(&vec![vec![identifier("a")]]);
    assert!(fitting.is_ok());
    assert_eq!(table.rows()[0].values(), &vec![Value::Null]);
}

#[test]
fn the_weight_of_a_text() {
    let light = |text: String| is_light(&text);
    assert!(light(String::new()));
    assert!(light(" \t\r\n".repeat(1000)));
    // a sign counts 1, a bracket 3
    assert!(light("+".repeat(80)));
    assert!(!light("+".repeat(81)));
    assert!(light("(".repeat(26)));
    assert!(!light("(".repeat(27)));
    assert!(light(")".repeat(80)));
    assert!(!light(")".repeat(81)));
    assert!(light("é".repeat(80)));
    assert!(!light("é".repeat(81)));
    // a word that begins with a letter counts 1, however long it is, and 1 for every digit
    assert!(light("a".repeat(10_000)));
    assert!(light(format!("{}_", "_x".repeat(10_000))));
    assert!(light(format!("_{}", "9".repeat(79))));
    assert!(!light(format!("_{}", "9".repeat(80))));
    assert!(light(format!("1.{}", "e5L7".repeat(38))));
    assert!(!light(format!("1.{}", "e5L7".repeat(39))));
    assert!(light("word ".repeat(80)));
    assert!(!light("word ".repeat(81)));
    assert!(light("a,".repeat(40)));
    assert!(!light(format!("{}a", "a,".repeat(40))));
    // in a word that begins with a digit every character counts
    assert!(light("1".repeat(80)));
    assert!(!light("1".repeat(81)));
    assert!(light(format!("1{}", "e5L7".repeat(19))));
    assert!(!light(format!("1{}", "e5L7".repeat(20))));
    assert!(light(format!("{} 1", "12345678".repeat(9))));
    // what stands in a string counts as well
    assert!(!light(format!("SELECT '{}'", ". ".repeat(80))));
    assert!(light(format!("SELECT '{}'", "x y ".repeat(38))));
}

#[test]
fn words_that_keep_a_text_from_the_parser() {
    let chars = |s: &str| s.chars().collect::<Vec<char>>();
    let div = chars("div");
    for text in ["div", "DIV", "Div", "a DIV b", "1 div", "x=1div", "dıv", "div)", "a.div", "div "]
    {
        assert!(holds(&chars(text), &div), "{:?}", text);
        assert!(!is_parser_safe(text), "{:?}", text);
    }
    for text in ["", "di", "dividend", "DIVIDE", "div_", "div2", "d iv", "dįv", "vid", "İIV"] {
        assert!(!holds(&chars(text), &div), "{:?}", text);
        assert!(is_parser_safe(text), "{:?}", text);
    }
    for text in ["GRANTED", "granted by", "x GrAnTeD", "\"granted\"", "`granted`"] {
        assert!(!is_parser_safe(text), "{:?}", text);
    }
    // in a string of a text without other quotes, escapes or comments a word does not count
    for text in [
        "'div'",
        "'a div b'",
        "SELECT 'x', 'granted by'",
        "'it''s div'",
        "N'div'",
        "'a' + 'div' + 'b'",
        "a - 'div'",
        "'div",
    ] {
        assert!(is_parser_safe(text), "{:?}", text);
    }
    for text in [
        "'a' div 'b'",
        "'it''s' div",
        "'' div",
        "'a' 'b' div",
        "\"a div b\"",
        "'a\\' div '",
        "-- 'x\n div '",
        "/* ' */ div '",
        "# ' \n div '",
        "`'` div '",
        "$$ ' $$ div '",
        "'a' div -- 'b'",
    ] {
        assert!(!is_parser_safe(text), "{:?}", text);
    }
    for text in ["GRANT", "GRANTE", "granteds", "GRANTED_BY", "SELECT * FROM grants"] {
        assert!(is_parser_safe(text), "{:?}", text);
    }
    assert!(!holds(&chars("ab"), &chars("abc")));
    assert!(holds(&chars("ab"), &chars("ab")));
}

#[test]
fn row_checks_name_the_fault() {
    let columns = people_columns();
    assert!(check_row(&columns, &vec![Value::Null, Value::Null, Value::Null]).is_ok());
    let short = check_row(&columns, &vec![Value::Integer(1)]);
    assert!(matches!(short, Err(DbError::ArityMismatch { expected: 3, found: 1 })));
    let first = check_row(&columns, &vec![text("x"), Value::Integer(2), text("y")]);
    assert!(matches!(first, Err(DbError::TypeMismatch(ref c)) if c == "id"));
    let last = check_row(&columns, &vec![Value::Integer(1), text("x"), Value::Boolean(true)]);
    assert!(matches!(last, Err(DbError::TypeMismatch(ref c)) if c == "age"));
}

#[test]
fn first_column_of_a_name_wins() {
    let columns = vec![
        column("a", DataType::Integer),
        column("b", DataType::Integer),
        column("a", DataType::Boolean),
    ];
    assert_eq!(find_column(&columns, "a"), Some(0));
    assert_eq!(find_column(&columns, "b"), Some(1));
    assert_eq!(find_column(&columns, "A"), None);
    assert_eq!(find_column(&Vec::new(), "a"), None);
}

#[test]
fn scalar_evaluation() {
    let columns = people_columns();
    let row = person(7, "Zed", 40);
    assert_eq!(evaluate_expr(&identifier("age"), &row, &columns).unwrap(), Value::Integer(40));
    assert_eq!(evaluate_expr(&literal(text("x")), &row, &columns).unwrap(), text("x"));
    assert_eq!(evaluate_expr(&Expression::Unsupported, &row, &columns).unwrap(), Value::Null);
    let comparison = binary(identifier("age"), Operator::Gt, literal(Value::Integer(1)));
    assert_eq!(evaluate_expr(&comparison, &row, &columns).unwrap(), Value::Null);
    let function = Expression::Function(sum_of_column("age"));
    assert_eq!(evaluate_expr(&function, &row, &columns).unwrap(), Value::Null);
    let missing = evaluate_expr(&identifier("nope"), &row, &columns);
    assert!(matches!(missing, Err(DbError::ColumnNotFound(ref n)) if n == "nope"));
    let short = Row::new(vec![Value::Integer(7)]);
    let beyond = evaluate_expr(&identifier("age"), &short, &columns);
    assert!(matches!(beyond, Err(DbError::ColumnNotFound(ref n)) if n == "age"));
    let list = vec![identifier("id"), literal(Value::Null), identifier("name")];
    assert_eq!(
        evaluate_exprs(&list, &row, &columns).unwrap(),
        vec![Value::Integer(7), Value::Null, text("Zed")]
    );
    let failing = vec![identifier("id"), identifier("x"), identifier("y")];
    assert!(matches!(
        evaluate_exprs(&failing, &row, &columns),
        Err(DbError::ColumnNotFound(ref n)) if n == "x"
    ));
}

#[test]
fn condition_evaluation() {
    let columns = people_columns();
    let row = person(7, "Zed", 40);
    let holds = |e: Expression| evaluate_condition(&e, &row, &columns).unwrap();
    let older = || binary(identifier("age"), Operator::Gt, literal(Value::Integer(30)));
    let named_bob = || binary(identifier("name"), Operator::Eq, literal(text("Bob")));
    assert!(holds(older()));
    assert!(!holds(named_bob()));
    assert!(!holds(binary(older(), Operator::And, named_bob())));
    assert!(holds(binary(older(), Operator::Or, named_bob())));
    assert!(holds(Expression::Nested(Box::new(older()))));
    assert!(!holds(binary(older(), Operator::Other, older())));
    assert!(!holds(Expression::IsNull(Box::new(identifier("name")))));
    assert!(holds(Expression::IsNotNull(Box::new(identifier("name")))));
    assert!(holds(Expression::IsNull(Box::new(Expression::Unsupported))));
    let list = || vec![literal(text("Amy")), literal(text("Zed"))];
    let in_list = |negated| Expression::InList {
        expr: Box::new(identifier("name")),
        list: list(),
        negated,
    };
    assert!(holds(in_list(false)));
    assert!(!holds(in_list(true)));
    let between = |low: i64, high: i64, negated| Expression::Between {
        expr: Box::new(identifier("age")),
        low: Box::new(literal(Value::Integer(low))),
        high: Box::new(literal(Value::Integer(high))),
        negated,
    };
    assert!(holds(between(40, 40, false)));
    assert!(holds(between(0, 40, false)));
    assert!(!holds(between(41, 50, false)));
    assert!(holds(between(41, 50, true)));
    // bounds of another kind than the value: not between, so NOT BETWEEN holds
    let mixed = |negated| Expression::Between {
        expr: Box::new(identifier("name")),
        low: Box::new(literal(Value::Integer(0))),
        high: Box::new(literal(Value::Integer(9))),
        negated,
    };
    assert!(!holds(mixed(false)));
    assert!(holds(mixed(true)));
    for shape in [identifier("name"), literal(Value::Boolean(true)), Expression::Unsupported] {
        assert!(!holds(shape));
    }
}

#[test]
fn condition_fails_on_the_first_unknown_column() {
    let columns = people_columns();
    let row = person(7, "Zed", 40);
    let unknown = |name: &str| binary(identifier(name), Operator::Eq, literal(Value::Integer(1)));
    let both = binary(unknown("first"), Operator::Or, unknown("second"));
    assert!(matches!(
        evaluate_condition(&both, &row, &columns),
        Err(DbError::ColumnNotFound(ref n)) if n == "first"
    ));
    // both operands are evaluated, so a fault on the right is a fault of the whole
    let right = binary(
        binary(identifier("age"), Operator::Gt, literal(Value::Integer(0))),
        Operator::Or,
        unknown("second"),
    );
    assert!(matches!(
        evaluate_condition(&right, &row, &columns),
        Err(DbError::ColumnNotFound(ref n)) if n == "second"
    ));
    // a shape that is no condition is false without a look at its parts
    let unread = binary(unknown("first"), Operator::Other, unknown("second"));
    assert!(!evaluate_condition(&unread, &row, &columns).unwrap());
}

#[test]
fn membership_is_by_contents() {
    let values = vec![Value::Integer(1), text("a"), Value::Null];
    assert!(contains_value(&values, &text("a")));
    assert!(contains_value(&values, &Value::Null));
    assert!(!contains_value(&values, &Value::Float(Decimal::new(10, 1).unwrap())));
    assert!(!contains_value(&Vec::new(), &Value::Null));
    assert!(same_values(&values, &values.clone()));
    assert!(!same_values(&values, &vec![Value::Integer(1), text("a")]));
    assert!(!same_values(&values, &vec![Value::Integer(1), text("b"), Value::Null]));
}

#[test]
fn aggregate_evaluation() {
    let columns = people_columns();
    let rows = vec![person(1, "a", 30), person(2, "b", 25)];
    let sum = |arg| AggregateSpec { name: "sum".to_string(), label: "sum".to_string(), arg };
    let run = |a: &AggregateSpec| evaluate_function(a, &rows, &columns);
    assert_eq!(run(&sum_of_column("age")).unwrap(), Value::Integer(55));
    assert_eq!(run(&sum(AggregateArg::Column("name".to_string()))).unwrap(), Value::Integer(0));
    assert_eq!(run(&sum(AggregateArg::Literal(Value::Integer(3)))).unwrap(), Value::Integer(6));
    assert_eq!(run(&sum(AggregateArg::Unsupported)).unwrap(), Value::Integer(0));
    assert_eq!(run(&sum(AggregateArg::Missing)).unwrap(), Value::Null);
    assert_eq!(run(&sum(AggregateArg::NotExpression)).unwrap(), Value::Null);
    let count = AggregateSpec {
        name: "COUNT".to_string(),
        label: "COUNT".to_string(),
        arg: AggregateArg::Column("age".to_string()),
    };
    assert_eq!(run(&count).unwrap(), Value::Null);
    assert!(matches!(
        run(&sum_of_column("nope")),
        Err(DbError::ColumnNotFound(ref n)) if n == "nope"
    ));
    // over no rows nothing is evaluated
    assert_eq!(
        evaluate_function(&sum_of_column("nope"), &Vec::new(), &columns).unwrap(),
        Value::Integer(0)
    );
    assert_eq!(aggregate_name(&sum_of_column("age")), "SUM(age)");
    assert_eq!(aggregate_name(&sum(AggregateArg::Literal(Value::Integer(1)))), "sum");
    let dotted = AggregateSpec {
        name: "lib.SUM".to_string(),
        label: "SUM".to_string(),
        arg: AggregateArg::Column("age".to_string()),
    };
    assert_eq!(aggregate_name(&dotted), "SUM(age)");
    assert_eq!(run(&dotted).unwrap(), Value::Null);
    assert!(!dotted.is_same(&sum_of_column("age")));
    assert!(dotted.is_same(&dotted));
}

#[test]
fn projection_resolution() {
    let columns = people_columns();
    let items = vec![
        ProjectionItem::Column("age".to_string()),
        ProjectionItem::Aggregate(sum_of_column("age")),
        ProjectionItem::Column("id".to_string()),
    ];
    let projected = resolve(&items, &columns).unwrap();
    assert_eq!(
        projected,
        vec![Projected::Column(2), Projected::Aggregate(1), Projected::Column(0)]
    );
    assert_eq!(
        column_titles(&projected, &items, &columns),
        vec!["age".to_string(), "SUM(age)".to_string(), "id".to_string()]
    );
    let wildcard = vec![
        ProjectionItem::Column("nope".to_string()),
        ProjectionItem::Wildcard,
        ProjectionItem::Unsupported,
    ];
    assert_eq!(
        resolve(&wildcard, &columns).unwrap(),
        vec![Projected::Column(0), Projected::Column(1), Projected::Column(2)]
    );
    let first_fault = vec![
        ProjectionItem::Column("id".to_string()),
        ProjectionItem::Unsupported,
        ProjectionItem::Column("nope".to_string()),
    ];
    assert!(matches!(
        resolve(&first_fault, &columns),
        Err(DbError::Unsupported(Construct::SelectItem))
    ));
    assert!(resolve(&Vec::new(), &columns).unwrap().is_empty());
}

#[test]
fn filter_copies_the_rows_that_pass() {
    let table = people();
    let older = binary(identifier("age"), Operator::GtEq, literal(Value::Integer(30)));
    let kept = filter(table.rows(), &Some(older), table.columns()).unwrap();
    assert_eq!(kept.len(), 2);
    assert_eq!(kept[0].values()[0], Value::Integer(1));
    assert_eq!(kept[1].values()[0], Value::Integer(3));
    assert_eq!(filter(table.rows(), &None, table.columns()).unwrap().len(), 3);
}

#[test]
fn windows() {
    let rows = || vec![vec![Value::Integer(1)], vec![Value::Integer(2)], vec![Value::Integer(3)]];
    assert_eq!(apply_window(rows(), None, None), rows());
    assert_eq!(apply_window(rows(), Some(1), Some(1)), vec![vec![Value::Integer(2)]]);
    assert_eq!(apply_window(rows(), Some(2), None), vec![vec![Value::Integer(3)]]);
    assert_eq!(apply_window(rows(), None, Some(2)).len(), 2);
    assert!(apply_window(rows(), Some(3), None).is_empty());
    assert!(apply_window(rows(), Some(u64::MAX), Some(u64::MAX)).is_empty());
    assert!(apply_window(rows(), Some(0), Some(0)).is_empty());
    assert_eq!(apply_window(rows(), Some(0), Some(u64::MAX)), rows());
}

#[test]
fn bounds() {
    let count = |n: i64| Some(literal(Value::Integer(n)));
    assert_eq!(read_bound(&None, Construct::Limit).unwrap(), None);
    assert_eq!(read_bound(&count(0), Construct::Limit).unwrap(), Some(0));
    assert_eq!(read_bound(&count(i64::MAX), Construct::Limit).unwrap(), Some(i64::MAX as u64));
    assert!(matches!(
        read_bound(&count(-1), Construct::Limit),
        Err(DbError::Unsupported(Construct::Limit))
    ));
    assert!(matches!(
        read_bound(&Some(identifier("n")), Construct::Offset),
        Err(DbError::Unsupported(Construct::Offset))
    ));
    let half = Some(literal(Value::Float(Decimal::new(5, 1).unwrap())));
    assert!(read_bound(&half, Construct::Offset).is_err());
}

#[test]
fn plain_projection_repeats_the_total() {
    let table = people();
    let items = vec![
        ProjectionItem::Column("name".to_string()),
        ProjectionItem::Aggregate(sum_of_column("age")),
    ];
    let projected = resolve(&items, table.columns()).unwrap();
    let rows = project_rows(table.rows(), &projected, &items, table.columns()).unwrap();
    assert_eq!(
        rows,
        vec![
            vec![text("Alice"), Value::Integer(90)],
            vec![text("Bob"), Value::Integer(90)],
            vec![text("Alice"), Value::Integer(90)],
        ]
    );
}

#[test]
fn partition_keeps_first_occurrence_order() {
    let table = people();
    let keys = vec![vec![text("Alice")], vec![text("Bob")], vec![text("Alice")]];
    let (group_keys, groups) = partition(table.rows(), &keys);
    assert_eq!(group_keys, vec![vec![text("Alice")], vec![text("Bob")]]);
    assert_eq!(groups.len(), 2);
    assert_eq!(groups[0].len(), 2);
    assert_eq!(groups[0][0].values()[0], Value::Integer(1));
    assert_eq!(groups[0][1].values()[0], Value::Integer(3));
    assert_eq!(groups[1].len(), 1);
    assert_eq!(groups[1][0].values()[0], Value::Integer(2));
}

#[test]
fn grouping_by_several_expressions() {
    let table = people();
    let items = vec![
        ProjectionItem::Column("name".to_string()),
        ProjectionItem::Aggregate(sum_of_column("age")),
    ];
    let projected = resolve(&items, table.columns()).unwrap();
    let by_name = vec![identifier("name")];
    let rows =
        group_and_aggregate(table.rows(), &projected, &items, &by_name, &None, table.columns())
            .unwrap();
    assert_eq!(
        rows,
        vec![vec![text("Alice"), Value::Integer(65)], vec![text("Bob"), Value::Integer(25)]]
    );
    let by_name_and_id = vec![identifier("name"), identifier("id")];
    let finer = group_and_aggregate(
        table.rows(),
        &projected,
        &items,
        &by_name_and_id,
        &None,
        table.columns(),
    )
    .unwrap();
    assert_eq!(finer.len(), 3);
    // a key of expressions that are no scalars is the same on every row: one group
    let constant = vec![Expression::Unsupported];
    let one =
        group_and_aggregate(table.rows(), &projected, &items, &constant, &None, table.columns())
            .unwrap();
    assert_eq!(one, vec![vec![text("Alice"), Value::Integer(90)]]);
    let unknown = vec![identifier("nope")];
    assert!(matches!(
        group_and_aggregate(table.rows(), &projected, &items, &unknown, &None, table.columns()),
        Err(DbError::ColumnNotFound(ref n)) if n == "nope"
    ));
}

#[test]
fn having_looks_scalars_up_in_the_projection() {
    let columns = people_columns();
    let items = vec![
        ProjectionItem::Column("name".to_string()),
        ProjectionItem::Aggregate(sum_of_column("age")),
    ];
    let projected = resolve(&items, &columns).unwrap();
    let row = vec![text("Alice"), Value::Integer(65)];
    let value = |e: &Expression| evaluate_having_expr(e, &row, &projected, &items, &columns);
    let sum = Expression::Function(sum_of_column("age"));
    assert_eq!(value(&sum).unwrap(), Value::Integer(65));
    assert_eq!(value(&identifier("name")).unwrap(), text("Alice"));
    assert_eq!(value(&literal(Value::Integer(3))).unwrap(), Value::Integer(3));
    assert_eq!(value(&Expression::Unsupported).unwrap(), Value::Null);
    let other = Expression::Function(sum_of_column("id"));
    assert!(matches!(value(&other), Err(DbError::ColumnNotFound(ref n)) if n == "SUM(id)"));
    // "age" is a column of the table but not of the projection
    assert!(matches!(
        value(&identifier("age")),
        Err(DbError::ColumnNotFound(ref n)) if n == "age"
    ));
    let holds =
        |e: Expression| evaluate_having_condition(&e, &row, &projected, &items, &columns).unwrap();
    let big = || {
        binary(
            Expression::Function(sum_of_column("age")),
            Operator::Gt,
            literal(Value::Integer(60)),
        )
    };
    let bob = || binary(identifier("name"), Operator::Eq, literal(text("Bob")));
    assert!(holds(big()));
    assert!(!holds(bob()));
    assert!(!holds(binary(big(), Operator::And, bob())));
    assert!(holds(binary(big(), Operator::Or, bob())));
    assert!(!holds(binary(big(), Operator::Other, big())));
    assert!(holds(literal(Value::Boolean(true))));
    assert!(!holds(literal(Value::Boolean(false))));
    assert!(!holds(literal(Value::Integer(1))));
    assert!(!holds(identifier("name")));
    assert!(!holds(Expression::Nested(Box::new(big()))));
}

#[test]
fn select_over_a_table() {
    let table = people();
    let mut q = query(vec![
        ProjectionItem::Column("name".to_string()),
        ProjectionItem::Aggregate(sum_of_column("age")),
    ]);
    q.group_by = vec![identifier("name")];
    q.having = Some(binary(
        Expression::Function(sum_of_column("age")),
        Operator::Gt,
        literal(Value::Integer(30)),
    ));
    q.offset = Some(literal(Value::Integer(0)));
    q.limit = Some(literal(Value::Integer(5)));
    let data = rows_of(select_rows(&table, &q));
    assert_eq!(data.columns, vec!["name".to_string(), "SUM(age)".to_string()]);
    assert_eq!(data.rows, vec![vec![text("Alice"), Value::Integer(65)]]);
}

#[test]
fn the_first_failing_step_decides() {
    let table = people();
    let mut q = query(vec![ProjectionItem::Column("nope".to_string())]);
    q.selection = Some(binary(identifier("missing"), Operator::Eq, literal(Value::Null)));
    q.limit = Some(identifier("n"));
    assert!(matches!(
        select_rows(&table, &q),
        Err(DbError::ColumnNotFound(ref n)) if n == "nope"
    ));
    q.projection = vec![ProjectionItem::Wildcard];
    assert!(matches!(
        select_rows(&table, &q),
        Err(DbError::ColumnNotFound(ref n)) if n == "missing"
    ));
    q.selection = None;
    q.offset = Some(identifier("m"));
    assert!(matches!(select_rows(&table, &q), Err(DbError::Unsupported(Construct::Offset))));
    q.offset = None;
    assert!(matches!(select_rows(&table, &q), Err(DbError::Unsupported(Construct::Limit))));
}

#[test]
fn statements_against_the_catalog() {
    let mut db = Database::new();
    assert!(matches!(db.get_table("people"), Err(DbError::TableNotFound(ref n)) if n == "people"));
    let create = SqlStatement::CreateTable {
        name: "people".to_string(),
        columns: people_columns(),
        constraints: Vec::new(),
    };
    assert!(matches!(
        db.execute_statement(&create),
        Ok(QueryResult::Success(ref m)) if m == "Successfully create table"
    ));
    let again = db.execute_statement(&create);
    assert!(matches!(again, Err(DbError::TableExists(ref n)) if n == "people"));
    assert_eq!(again.unwrap_err().kind(), ErrorKind::Schema);
    let insert = SqlStatement::Insert {
        table: "people".to_string(),
        columns: vec!["ignored".to_string()],
        source: InsertSource::Values(vec![vec![
            literal(Value::Integer(1)),
            literal(text("Alice")),
            literal(Value::Integer(30)),
        ]]),
    };
    assert!(matches!(
        db.execute_statement(&insert),
        Ok(QueryResult::Success(ref m)) if m == "Inserted 1 row(s)"
    ));
    let table = db.get_table("people").unwrap();
    assert_eq!(table.name(), "people");
    assert_eq!(table.rows().len(), 1);
    let select = SqlStatement::Select(query(vec![ProjectionItem::Wildcard]));
    let data = rows_of(db.execute_statement(&select));
    assert_eq!(data.rows, vec![vec![Value::Integer(1), text("Alice"), Value::Integer(30)]]);
    let mut nowhere = query(vec![ProjectionItem::Wildcard]);
    nowhere.from = FromClause::Missing;
    assert!(matches!(db.select(&nowhere), Err(DbError::InvalidFrom)));
    nowhere.from = FromClause::Unsupported;
    assert!(matches!(db.select(&nowhere), Err(DbError::InvalidFrom)));
    nowhere.from = FromClause::Table("ghosts".to_string());
    assert!(matches!(db.select(&nowhere), Err(DbError::TableNotFound(ref n)) if n == "ghosts"));
    let unsupported = db.insert("people", &InsertSource::Unsupported);
    assert!(matches!(unsupported, Err(DbError::Unsupported(Construct::InsertSource))));
    let drop = SqlStatement::DropTable { name: "people".to_string(), if_exists: false };
    assert!(matches!(
        db.execute_statement(&drop),
        Ok(QueryResult::Success(ref m)) if m == "Successfuly deleted table"
    ));
    assert!(matches!(db.execute_statement(&drop), Err(DbError::TableNotFound(_))));
    assert!(db.drop_table("people".to_string(), true).is_ok());
    assert!(db.create_table("people".to_string(), &Vec::new()).is_ok());
}

#[test]
fn the_catalog_keeps_other_tables_apart() {
    let mut db = Database::new();
    for name in ["a", "b", "c"] {
        db.create_table(name.to_string(), &vec![column("id", DataType::Integer)]).unwrap();
    }
    let one = |n: i64| InsertSource::Values(vec![vec![literal(Value::Integer(n))]]);
    db.insert("b", &one(2)).unwrap();
    db.insert("a", &one(1)).unwrap();
    db.drop_table("b".to_string(), false).unwrap();
    db.insert("c", &one(3)).unwrap();
    assert_eq!(db.get_table("a").unwrap().rows()[0].values(), &vec![Value::Integer(1)]);
    assert_eq!(db.get_table("c").unwrap().rows()[0].values(), &vec![Value::Integer(3)]);
    assert!(db.get_table("b").is_err());
}

#[test]
fn the_constraints_of_a_column_are_kept() {
    let columns = vec![
        ColumnDefinition {
            name: "id".to_string(),
            data_type: DataType::Integer,
            constraints: vec![ColumnConstraint::PrimaryKey, ColumnConstraint::NotNull],
        },
        ColumnDefinition {
            name: "owner".to_string(),
            data_type: DataType::String(Some(8)),
            constraints: vec![
                ColumnConstraint::ForeignKey("people".to_string(), "name".to_string()),
                ColumnConstraint::Check("owner <> ''".to_string()),
                ColumnConstraint::Default("'nobody'".to_string()),
                ColumnConstraint::Unique,
            ],
        },
    ];
    let mut db = Database::new();
    db.create_table("things".to_string(), &columns).unwrap();
    let copy = db.clone();
    for database in [&db, &copy] {
        let stored = database.get_table("things").unwrap().columns();
        assert_eq!(stored.len(), 2);
        assert!(matches!(
            stored[0].constraints[..],
            [ColumnConstraint::PrimaryKey, ColumnConstraint::NotNull]
        ));
        assert!(matches!(stored[1].data_type, DataType::String(Some(8))));
        match &stored[1].constraints[..] {
            [ColumnConstraint::ForeignKey(table, column), ColumnConstraint::Check(check), ColumnConstraint::Default(default), ColumnConstraint::Unique] =>
            {
                assert_eq!(table, "people");
                assert_eq!(column, "name");
                assert_eq!(check, "owner <> ''");
                assert_eq!(default, "'nobody'");
            }
            other => panic!("unexpected constraints: {:?}", other),
        }
    }
}

#[test]
fn a_copy_of_the_database_stands_apart() {
    let mut db = Database::new();
    db.create_table("a".to_string(), &vec![column("id", DataType::Integer)]).unwrap();
    db.insert("a", &InsertSource::Values(vec![vec![literal(Value::Integer(1))]])).unwrap();
    let mut copy = db.clone();
    copy.insert("a", &InsertSource::Values(vec![vec![literal(Value::Integer(2))]])).unwrap();
    copy.create_table("b".to_string(), &Vec::new()).unwrap();
    db.drop_table("a".to_string(), false).unwrap();
    assert!(db.get_table("a").is_err());
    assert!(db.get_table("b").is_err());
    let table = copy.get_table("a").unwrap();
    assert_eq!(table.columns()[0].name, "id");
    assert_eq!(table.rows().len(), 2);
    assert_eq!(table.rows()[1].values(), &vec![Value::Integer(2)]);
    let again = table.clone();
    assert_eq!(again.name(), "a");
    assert_eq!(again.rows().len(), 2);
    assert!(copy.get_table("b").is_ok());
}

#[test]
fn response_writes_every_value_as_text() {
    let result = SelectResult {
        columns: vec!["id".to_string(), "name".to_string(), "price".to_string()],
        rows: vec![
            vec![Value::Integer(1), text("O'Neil"), Value::Float(Decimal::new(150, 2).unwrap())],
            vec![Value::Null, Value::Boolean(true), Value::Integer(-2)],
        ],
    };
    let response = result.into_response();
    assert_eq!(response.columns, vec!["id".to_string(), "name".to_string(), "price".to_string()]);
    assert_eq!(
        response.rows,
        vec![
            vec!["1".to_string(), "'O''Neil'".to_string(), "1.50".to_string()],
            vec!["NULL".to_string(), "true".to_string(), "-2".to_string()],
        ]
    );
    let converted: SelectResultResponse =
        SelectResult { columns: vec!["n".to_string()], rows: vec![vec![Value::Integer(7)]] }.into();
    assert_eq!(converted.columns, vec!["n".to_string()]);
    assert_eq!(converted.rows, vec![vec!["7".to_string()]]);
    let empty = SelectResult::new();
    assert!(empty.columns.is_empty() && empty.rows.is_empty());
    let none = empty.into_response();
    assert!(none.columns.is_empty() && none.rows.is_empty());
}

#[test]
fn literals_of_the_syntax_tree() {
    let digits = "12.50".to_string();
    let quoted = "it's".to_string();
    let huge = "123456789012345678901234567890".to_string();
    assert_eq!(
        literal_value(LiteralShape::Number(&digits)).unwrap(),
        Some(Value::Float(Decimal::new(1250, 2).unwrap()))
    );
    assert_eq!(literal_value(LiteralShape::SingleQuoted(&quoted)).unwrap(), Some(text("it's")));
    assert_eq!(literal_value(LiteralShape::DoubleQuoted(&quoted)).unwrap(), Some(text("it's")));
    assert_eq!(literal_value(LiteralShape::Boolean(false)).unwrap(), Some(Value::Boolean(false)));
    assert_eq!(literal_value(LiteralShape::Null).unwrap(), Some(Value::Null));
    assert_eq!(literal_value(LiteralShape::Other).unwrap(), None);
    assert!(matches!(
        literal_value(LiteralShape::Number(&huge)),
        Err(DbError::Unsupported(Construct::NumericLiteral))
    ));
}

#[test]
fn families_of_declared_types() {
    for declared in [DeclaredType::Int, DeclaredType::BigInt] {
        assert!(matches!(type_family(declared), DataType::Integer));
    }
    for declared in [DeclaredType::Float, DeclaredType::Double, DeclaredType::Decimal] {
        assert!(matches!(type_family(declared), DataType::Float));
    }
    for declared in [DeclaredType::Text, DeclaredType::String, DeclaredType::Varchar(None)] {
        assert!(matches!(type_family(declared), DataType::String(None)));
    }
    assert!(matches!(type_family(DeclaredType::Varchar(Some(5))), DataType::String(Some(5))));
    assert!(matches!(type_family(DeclaredType::Boolean), DataType::Boolean));
    assert!(matches!(type_family(DeclaredType::Date), DataType::Date));
    assert!(matches!(type_family(DeclaredType::Timestamp), DataType::Timestamp));
    assert!(matches!(type_family(DeclaredType::Other), DataType::Other));
}

#[test]
fn parsing_carries_a_statement_over() {
    let parsed = parse_statement(
        "SELECT name, SUM(age) AS total FROM people WHERE (age >= 18 AND name <> 'x') \
         OR id IN (1, 2) OR age NOT BETWEEN 1 AND 2 OR name IS NULL OR name IS NOT NULL \
         OR name LIKE 'a' GROUP BY name HAVING SUM(age) > 1.5 LIMIT 3 OFFSET 4",
    )
    .unwrap();
    let q = match parsed {
        SqlStatement::Select(q) => q,
        other => panic!("expected a query, got {:?}", other),
    };
    assert!(matches!(q.from, FromClause::Table(ref n) if n == "people"));
    assert_eq!(q.projection.len(), 2);
    assert!(matches!(q.projection[0], ProjectionItem::Column(ref n) if n == "name"));
    assert!(matches!(
        q.projection[1],
        ProjectionItem::Aggregate(AggregateSpec {
            ref name,
            ref label,
            arg: AggregateArg::Column(ref c),
        }) if name == "SUM" && label == "SUM" && c == "age"
    ));
    assert!(matches!(q.limit, Some(Expression::Literal(Value::Integer(3)))));
    assert!(matches!(q.offset, Some(Expression::Literal(Value::Integer(4)))));
    assert_eq!(q.group_by.len(), 1);
    assert!(matches!(q.group_by[0], Expression::Identifier(ref n) if n == "name"));
    match q.having {
        Some(Expression::BinaryOp { ref left, op: Operator::Gt, ref right }) => {
            assert!(matches!(**left, Expression::Function(_)));
            assert_eq!(
                matches!(**right, Expression::Literal(ref v)
                    if *v == Value::Float(Decimal::new(15, 1).unwrap())),
                true
            );
        }
        ref other => panic!("unexpected HAVING: {:?}", other),
    }
    // the WHERE clause is a left-deep chain of ORs; walk it from the right
    let mut shapes = Vec::new();
    let mut rest = q.selection.as_ref().unwrap();
    while let Expression::BinaryOp { left, op: Operator::Or, right } = rest {
        shapes.push(right.as_ref());
        rest = left.as_ref();
    }
    shapes.push(rest);
    assert_eq!(shapes.len(), 6);
    assert!(matches!(shapes[0], Expression::Unsupported));
    assert!(matches!(shapes[1], Expression::IsNotNull(_)));
    assert!(matches!(shapes[2], Expression::IsNull(_)));
    assert!(matches!(shapes[3], Expression::Between { negated: true, .. }));
    assert!(matches!(shapes[4], Expression::InList { negated: false, list, .. } if list.len() == 2));
    match shapes[5] {
        Expression::Nested(inner) => match inner.as_ref() {
            Expression::BinaryOp { left, op: Operator::And, right } => {
                assert!(matches!(**left, Expression::BinaryOp { op: Operator::GtEq, .. }));
                assert!(matches!(**right, Expression::BinaryOp { op: Operator::NotEq, .. }));
            }
            other => panic!("unexpected operand: {:?}", other),
        },
        other => panic!("unexpected operand: {:?}", other),
    }
}

#[test]
fn parsing_carries_the_other_statements_over() {
    match parse_statement("CREATE TABLE t (a INT, b VARCHAR(5), c BOOLEAN, d TIMESTAMP, e UUID)") {
        Ok(SqlStatement::CreateTable { name, columns, .. }) => {
            assert_eq!(name, "t");
            let names: Vec<&str> = columns.iter().map(|c| c.name.as_str()).collect();
            assert_eq!(names, vec!["a", "b", "c", "d", "e"]);
            assert!(matches!(columns[0].data_type, DataType::Integer));
            assert!(matches!(columns[1].data_type, DataType::String(Some(5))));
            assert!(matches!(columns[2].data_type, DataType::Boolean));
            assert!(matches!(columns[3].data_type, DataType::Timestamp));
            assert!(matches!(columns[4].data_type, DataType::Other));
        }
        other => panic!("unexpected: {:?}", other),
    }
    assert!(matches!(
        parse_statement("DROP TABLE IF EXISTS a.b"),
        Ok(SqlStatement::DropTable { ref name, if_exists: true }) if name == "a.b"
    ));
    assert!(matches!(
        parse_statement("DROP TABLE t"),
        Ok(SqlStatement::DropTable { ref name, if_exists: false }) if name == "t"
    ));
    match parse_statement("INSERT INTO t (a, b) VALUES (1, 'x'), (NULL, true)") {
        Ok(SqlStatement::Insert { table, columns, source: InsertSource::Values(rows) }) => {
            assert_eq!(table, "t");
            assert_eq!(columns, vec!["a".to_string(), "b".to_string()]);
            assert_eq!(rows.len(), 2);
            assert!(matches!(rows[0][0], Expression::Literal(Value::Integer(1))));
            assert!(matches!(rows[0][1], Expression::Literal(Value::String(ref s)) if s == "x"));
            assert!(matches!(rows[1][0], Expression::Literal(Value::Null)));
            assert!(matches!(rows[1][1], Expression::Literal(Value::Boolean(true))));
        }
        other => panic!("unexpected: {:?}", other),
    }
    assert!(matches!(
        parse_statement("INSERT INTO t SELECT * FROM u"),
        Ok(SqlStatement::Insert { source: InsertSource::Unsupported, .. })
    ));
    match parse_statement("SELECT *, COUNT(*), f(), g(1), h(a + 1) FROM t") {
        Ok(SqlStatement::Select(q)) => {
            assert!(matches!(q.projection[0], ProjectionItem::Wildcard));
            let arg = |i: usize| match &q.projection[i] {
                ProjectionItem::Aggregate(a) => &a.arg,
                other => panic!("unexpected item: {:?}", other),
            };
            assert!(matches!(arg(1), AggregateArg::NotExpression));
            assert!(matches!(arg(2), AggregateArg::Missing));
            assert!(matches!(arg(3), AggregateArg::Literal(Value::Integer(1))));
            assert!(matches!(arg(4), AggregateArg::Unsupported));
        }
        other => panic!("unexpected: {:?}", other),
    }
    assert!(matches!(parse_statement("SELECT * FROM"), Err(DbError::Parse(_))));
    match parse_statement("SELEKT") {
        Err(DbError::Parse(message)) => assert!(message.starts_with("sql parser error")),
        other => panic!("unexpected: {:?}", other),
    }
}
