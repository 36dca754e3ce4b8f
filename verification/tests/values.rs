use sql_engine::aggregate::{is_sum, sum_of};
use sql_engine::ast::Operator;
use sql_engine::eval::compare_with;
use sql_engine::number::parse_number;
use sql_engine::schema::DataType;
use sql_engine::table::type_match;
use sql_engine::text::{
    count_to_text, decimal_to_text, integer_to_text, quote_text, text_equal,
};
use sql_engine::value::{compare_values, power_of_ten, Decimal, Value, ValueOrdering};

fn text(s: &str) -> Value {
    Value::String(s.to_string())
}

fn decimal(mantissa: i64, scale: u8) -> Value {
    Value::Float(Decimal::new(mantissa, scale).unwrap())
}

#[test]
fn powers_of_ten() {
    assert_eq!(power_of_ten(0), 1);
    assert_eq!(power_of_ten(1), 10);
    assert_eq!(power_of_ten(18), 1_000_000_000_000_000_000);
}

#[test]
fn decimal_keeps_mantissa_and_scale_and_bounds_the_scale() {
    let d = Decimal::new(-125, 2).unwrap();
    assert_eq!(d.mantissa(), -125);
    assert_eq!(d.scale(), 2);
    assert!(Decimal::new(1, 18).is_some());
    assert!(Decimal::new(1, 19).is_none());
}

#[test]
fn numbers_compare_by_value() {
    assert_eq!(
        compare_values(&Value::Integer(2), &Value::Integer(10)),
        Some(ValueOrdering::Less)
    );
    assert_eq!(compare_values(&Value::Integer(1), &decimal(10, 1)), Some(ValueOrdering::Equal));
    assert_eq!(compare_values(&decimal(3, 1), &decimal(5, 1)), Some(ValueOrdering::Less));
    assert_eq!(compare_values(&decimal(50, 2), &decimal(5, 1)), Some(ValueOrdering::Equal));
    assert_eq!(compare_values(&decimal(-1, 18), &Value::Integer(0)), Some(ValueOrdering::Less));
    assert_eq!(
        compare_values(&Value::Integer(i64::MAX), &decimal(i64::MAX, 18)),
        Some(ValueOrdering::Greater)
    );
    assert_eq!(
        compare_values(&Value::Integer(i64::MIN), &decimal(i64::MIN, 18)),
        Some(ValueOrdering::Less)
    );
}

#[test]
fn texts_compare_by_code_point() {
    assert_eq!(compare_values(&text("B"), &text("Banana")), Some(ValueOrdering::Less));
    assert_eq!(compare_values(&text("Date"), &text("D")), Some(ValueOrdering::Greater));
    assert_eq!(compare_values(&text("apple"), &text("Z")), Some(ValueOrdering::Greater));
    assert_eq!(compare_values(&text(""), &text("")), Some(ValueOrdering::Equal));
    assert_eq!(compare_values(&text("é"), &text("z")), Some(ValueOrdering::Greater));
    assert_eq!(compare_values(&text("10"), &text("9")), Some(ValueOrdering::Less));
}

#[test]
fn booleans_compare_false_before_true() {
    assert_eq!(
        compare_values(&Value::Boolean(false), &Value::Boolean(true)),
        Some(ValueOrdering::Less)
    );
    assert_eq!(
        compare_values(&Value::Boolean(true), &Value::Boolean(false)),
        Some(ValueOrdering::Greater)
    );
    assert_eq!(
        compare_values(&Value::Boolean(true), &Value::Boolean(true)),
        Some(ValueOrdering::Equal)
    );
}

#[test]
fn values_of_different_kinds_have_no_order() {
    let values = [Value::Integer(1), text("1"), Value::Boolean(true), Value::Null];
    for (i, a) in values.iter().enumerate() {
        for (j, b) in values.iter().enumerate() {
            if i != j || matches!(a, Value::Null) {
                assert_eq!(compare_values(a, b), None, "{:?} against {:?}", a, b);
            }
        }
    }
}

#[test]
fn no_operator_holds_between_text_and_boolean() {
    let operators = [
        Operator::Eq,
        Operator::NotEq,
        Operator::Gt,
        Operator::Lt,
        Operator::GtEq,
        Operator::LtEq,
    ];
    for op in operators {
        assert!(!compare_with(op, &text("true"), &Value::Boolean(true)));
        assert!(!compare_with(op, &Value::Boolean(false), &text("")));
    }
}

#[test]
fn operators_on_an_ordered_pair() {
    let (a, b) = (Value::Integer(1), Value::Integer(2));
    assert!(!compare_with(Operator::Eq, &a, &b));
    assert!(compare_with(Operator::NotEq, &a, &b));
    assert!(compare_with(Operator::Lt, &a, &b));
    assert!(compare_with(Operator::LtEq, &a, &b));
    assert!(!compare_with(Operator::Gt, &a, &b));
    assert!(!compare_with(Operator::GtEq, &a, &b));
    assert!(compare_with(Operator::GtEq, &a, &a));
    assert!(compare_with(Operator::LtEq, &a, &a));
    assert!(!compare_with(Operator::And, &a, &a));
    assert!(!compare_with(Operator::Other, &a, &a));
}

#[test]
fn equality_of_values_is_by_contents() {
    assert_eq!(text("a"), text("a"));
    assert_ne!(text("a"), text("b"));
    assert_ne!(Value::Integer(1), decimal(10, 1));
    assert_eq!(decimal(10, 1), decimal(10, 1));
    assert_eq!(Value::Null, Value::Null);
    assert_ne!(Value::Null, Value::Boolean(false));
    assert_eq!(text("x").clone(), text("x"));
}

#[test]
fn numeric_literals() {
    assert_eq!(parse_number("0"), Some(Value::Integer(0)));
    assert_eq!(parse_number("123"), Some(Value::Integer(123)));
    assert_eq!(parse_number("007"), Some(Value::Integer(7)));
    assert_eq!(parse_number("0.5"), Some(decimal(5, 1)));
    assert_eq!(parse_number("0.30"), Some(decimal(30, 2)));
    assert_eq!(parse_number(".5"), Some(decimal(5, 1)));
    assert_eq!(parse_number("1."), Some(decimal(1, 0)));
    assert_eq!(parse_number("12.345"), Some(decimal(12345, 3)));
    assert_eq!(parse_number("9223372036854775807"), Some(Value::Integer(i64::MAX)));
    assert_eq!(parse_number("0.000000000000000001"), Some(decimal(1, 18)));
}

#[test]
fn numeric_literals_with_an_exponent() {
    assert_eq!(parse_number("1e3"), Some(decimal(1000, 0)));
    assert_eq!(parse_number("1E3"), Some(decimal(1000, 0)));
    assert_eq!(parse_number("1e+2"), Some(decimal(100, 0)));
    assert_eq!(parse_number("12e-1"), Some(decimal(12, 1)));
    assert_eq!(parse_number("2.5E-1"), Some(decimal(25, 2)));
    assert_eq!(parse_number("1.5e1"), Some(decimal(15, 0)));
    assert_eq!(parse_number("1.50e1"), Some(decimal(150, 1)));
    assert_eq!(parse_number(".5e1"), Some(decimal(5, 0)));
    assert_eq!(parse_number("1.e2"), Some(decimal(100, 0)));
    assert_eq!(parse_number("0e5"), Some(decimal(0, 0)));
    assert_eq!(parse_number("0e1000"), Some(decimal(0, 0)));
    assert_eq!(parse_number("1e0"), Some(decimal(1, 0)));
    assert_eq!(parse_number("1e-0"), Some(decimal(1, 0)));
    assert_eq!(parse_number("1e-18"), Some(decimal(1, 18)));
    assert_eq!(parse_number("1e18"), Some(decimal(1_000_000_000_000_000_000, 0)));
    assert_eq!(parse_number("9e18"), Some(decimal(9_000_000_000_000_000_000, 0)));
    assert_eq!(parse_number("0.000000000000000001e18"), Some(decimal(1, 0)));
    assert_eq!(parse_number("1e0003"), Some(decimal(1000, 0)));
}

#[test]
fn texts_that_are_no_numeric_literal() {
    for bad in [
        "",
        ".",
        "1.2.3",
        "..",
        "-1",
        "+1",
        "1e",
        "e3",
        "1e+",
        "1e-",
        "1e+-2",
        "1ee2",
        "1e2e3",
        "1e2.5",
        ".e1",
        "1e19",
        "10e18",
        "1e-19",
        "0e-19",
        "0e1001",
        "1e-1001",
        "9223372036854775808e-5",
        "1x3",
        "12a",
        " 1",
        "１２",
        "9223372036854775808",
        "92233720368547758.08",
        "0.0000000000000000001",
    ] {
        assert_eq!(parse_number(bad), None, "{:?}", bad);
    }
}

#[test]
fn integers_as_text() {
    assert_eq!(integer_to_text(0), "0");
    assert_eq!(integer_to_text(7), "7");
    assert_eq!(integer_to_text(10), "10");
    assert_eq!(integer_to_text(-42), "-42");
    assert_eq!(integer_to_text(i64::MAX), "9223372036854775807");
    assert_eq!(integer_to_text(i64::MIN), "-9223372036854775808");
    assert_eq!(count_to_text(0), "0");
    assert_eq!(count_to_text(1200), "1200");
}

#[test]
fn decimals_as_text() {
    assert_eq!(decimal_to_text(5, 1), "0.5");
    assert_eq!(decimal_to_text(-5, 1), "-0.5");
    assert_eq!(decimal_to_text(1234, 2), "12.34");
    assert_eq!(decimal_to_text(10, 1), "1.0");
    assert_eq!(decimal_to_text(7, 3), "0.007");
    assert_eq!(decimal_to_text(0, 2), "0.00");
    assert_eq!(decimal_to_text(42, 0), "42");
    assert_eq!(decimal_to_text(1, 18), "0.000000000000000001");
    assert_eq!(decimal_to_text(i64::MIN, 18), "-9.223372036854775808");
}

#[test]
fn values_as_text() {
    assert_eq!(Value::Integer(-3).to_text(), "-3");
    assert_eq!(decimal(25, 2).to_text(), "0.25");
    assert_eq!(text("Alice").to_text(), "'Alice'");
    assert_eq!(text("O'Brien").to_text(), "'O''Brien'");
    assert_eq!(text("").to_text(), "''");
    assert_eq!(text("''").to_text(), "''''''");
    assert_eq!(text("naïve \"q\"").to_text(), "'naïve \"q\"'");
    assert_eq!(Value::Boolean(true).to_text(), "true");
    assert_eq!(Value::Boolean(false).to_text(), "false");
    assert_eq!(Value::Null.to_text(), "NULL");
    assert_eq!(quote_text("a'b"), "'a''b'");
}

#[test]
fn texts_are_equal_by_their_characters() {
    assert!(text_equal("", ""));
    assert!(text_equal("héllo", "héllo"));
    assert!(!text_equal("a", "A"));
    assert!(!text_equal("ab", "a"));
    assert!(!text_equal("a", "ab"));
}

#[test]
fn sums() {
    assert_eq!(sum_of(&vec![]), Value::Integer(0));
    assert_eq!(
        sum_of(&vec![Value::Integer(100), Value::Integer(300)]),
        Value::Integer(400)
    );
    assert_eq!(sum_of(&vec![decimal(5, 1), decimal(25, 2)]), decimal(75, 2));
    assert_eq!(sum_of(&vec![Value::Integer(1), decimal(5, 1)]), decimal(15, 1));
    assert_eq!(sum_of(&vec![decimal(5, 1), decimal(5, 1)]), decimal(10, 1));
    assert_eq!(
        sum_of(&vec![text("9"), Value::Null, Value::Boolean(true), Value::Integer(2)]),
        Value::Integer(2)
    );
    assert_eq!(sum_of(&vec![Value::Integer(-5), Value::Integer(5)]), Value::Integer(0));
}

#[test]
fn a_sum_that_leaves_the_range_is_null() {
    assert_eq!(sum_of(&vec![Value::Integer(i64::MAX), Value::Integer(1)]), Value::Null);
    assert_eq!(sum_of(&vec![Value::Integer(i64::MIN), Value::Integer(-1)]), Value::Null);
    // the total is out of range from the second value on, whatever follows
    assert_eq!(
        sum_of(&vec![Value::Integer(i64::MAX), Value::Integer(1), Value::Integer(-1)]),
        Value::Null
    );
    // bringing a large integer to a finer scale leaves the range too
    assert_eq!(sum_of(&vec![Value::Integer(i64::MAX), decimal(1, 1)]), Value::Null);
    assert_eq!(
        sum_of(&vec![Value::Integer(i64::MAX - 1), Value::Integer(1)]),
        Value::Integer(i64::MAX)
    );
}

#[test]
fn the_name_of_sum() {
    for name in ["SUM", "sum", "Sum", "sUm"] {
        assert!(is_sum(name), "{}", name);
    }
    for name in ["", "SU", "SUMS", "AVG", "sún", "s.um", "ＳＵＭ"] {
        assert!(!is_sum(name), "{}", name);
    }
}

#[test]
fn which_column_type_takes_which_value() {
    let types = [
        DataType::Integer,
        DataType::Float,
        DataType::String(None),
        DataType::String(Some(3)),
        DataType::Boolean,
        DataType::Date,
        DataType::Timestamp,
        DataType::Other,
    ];
    for data_type in &types {
        assert!(type_match(&Value::Null, data_type));
        let number = matches!(data_type, DataType::Integer | DataType::Float);
        assert_eq!(type_match(&Value::Integer(1), data_type), number);
        assert_eq!(type_match(&decimal(5, 1), data_type), number);
        assert_eq!(type_match(&text("abcdef"), data_type), matches!(data_type, DataType::String(_)));
        assert_eq!(
            type_match(&Value::Boolean(true), data_type),
            matches!(data_type, DataType::Boolean)
        );
    }
}
