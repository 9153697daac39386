use json_filter::eval::{
    datum, decide, operator_of, read, satisfies, scale, Datum, Operator,
};
use json_filter::filter::Filter;
use json_filter::{apply, parse, ScalarValue};
use serde_json::Value;

fn record(json: &str) -> Value {
    serde_json::from_str(json).unwrap()
}

fn passes(json: &str, expression: &str) -> bool {
    let filters = parse(expression).unwrap();
    apply(&record(json), &filters)
}

#[test]
fn test_apply() {
    let v = record(r#"{ "field": 100, "hello": "world" }"#);
    let filters = vec![
        Filter {
            field: Some("field"),
            operator: ">",
            value: Some(ScalarValue::Integer(50)),
            ..Default::default()
        },
        Filter {
            field: Some("hello"),
            operator: "=",
            value: Some(ScalarValue::Text("world".to_string())),
            ..Default::default()
        },
    ];
    assert!(apply(&v, &filters));
}

#[test]
fn number_is_compared_as_number_and_string_as_string() {
    let r = r#"{"a": 10, "b": "hi"}"#;
    let v = record(r);
    assert!(read(&v, Some("a")).unwrap().is_number());
    assert!(!read(&v, Some("b")).unwrap().is_number());
    assert!(passes(r, "a > 5"));
    assert!(passes(r, "b = 'hi'"));
    assert!(!passes(r, "a > 10"));
    assert!(!passes(r, "b = 'ho'"));
    assert!(passes(r, "b != 'ho'"));
}

#[test]
fn first_failing_clause_settles_the_outcome() {
    let r = r#"{"a": 10, "b": "hi"}"#;
    assert!(!passes(r, "a > 100 AND b = 'hi'"));
    assert!(!passes(r, "a > 100 AND b = 'no'"));
    assert!(!passes(r, "b = 'hi' AND a > 100"));
    assert!(passes(r, "a > 1 AND b = 'hi'"));
}

#[test]
fn multipliers_scale_both_sides() {
    let r = r#"{"a": 4, "b": 20}"#;
    assert_eq!(scale(Some(4), Some(2)), Some(8));
    assert_eq!(scale(Some(20), None), Some(20));
    assert_eq!(scale(Some(20), Some(5)), Some(100));
    assert!(!passes(r, "2*a >= b"));
    assert!(!passes(r, "2*a >= .b"));
    assert!(passes(r, "5*a >= .b"));
    assert!(passes(r, "6*a > .b"));
    assert!(!passes(r, "a >= 5*.b"));
    assert!(passes(r, "25*a = 5*.b"));
    assert!(passes(r, "a < 5*.b"));
    assert!(passes(r, "5*a = 20"));
    assert!(passes(r, "a = 2*2"));
    assert!(!passes(r, "a = 2*4"));
    assert!(passes(r, "-1*a = -4"));
}

#[test]
fn multiplier_on_literal() {
    let v = record(r#"{"a": 100}"#);
    let clause = Filter {
        field: Some("a"),
        operator: "=",
        value: Some(ScalarValue::Integer(20)),
        multiplier_value: Some(5),
        ..Default::default()
    };
    assert!(satisfies(&v, &clause));
    let unscaled = Filter {
        multiplier_value: None,
        ..clause.clone()
    };
    assert!(!satisfies(&v, &unscaled));
}

#[test]
fn kinds_that_do_not_match_fail() {
    assert!(!passes(r#"{"a": "text"}"#, "a > 5"));
    assert!(!passes(r#"{"a": "text"}"#, "a = 5"));
    assert!(!passes(r#"{"a": "text"}"#, "a != 5"));
    assert!(!passes(r#"{"a": "5"}"#, "a = 5"));
    assert!(!passes(r#"{"a": 5}"#, "a = 'text'"));
    assert!(!passes(r#"{"a": 5}"#, "a != 'text'"));
    assert!(!passes(r#"{"a": 5, "b": "5"}"#, "a = .b"));
    assert!(!passes(r#"{"a": "5", "b": 5}"#, "a = .b"));
}

#[test]
fn empty_filter_lets_every_record_pass() {
    let none: Vec<Filter> = Vec::new();
    for r in [
        "{}",
        "null",
        "[1, 2]",
        "3",
        "\"s\"",
        "true",
        r#"{"a": 1}"#,
    ] {
        assert!(apply(&record(r), &none), "{}", r);
    }
}

#[test]
fn all_six_operators_on_numbers() {
    let r = r#"{"a": 5}"#;
    assert!(passes(r, "a = 5"));
    assert!(!passes(r, "a = 6"));
    assert!(passes(r, "a != 6"));
    assert!(!passes(r, "a != 5"));
    assert!(passes(r, "a >= 5"));
    assert!(!passes(r, "a >= 6"));
    assert!(passes(r, "a > 4"));
    assert!(!passes(r, "a > 5"));
    assert!(passes(r, "a <= 5"));
    assert!(!passes(r, "a <= 4"));
    assert!(passes(r, "a < 6"));
    assert!(!passes(r, "a < 5"));
}

#[test]
fn strings_know_equality_only() {
    let r = r#"{"a": "m"}"#;
    assert!(passes(r, "a = 'm'"));
    assert!(passes(r, "a != 'n'"));
    assert!(!passes(r, "a >= 'm'"));
    assert!(!passes(r, "a > 'a'"));
    assert!(!passes(r, "a <= 'm'"));
    assert!(!passes(r, "a < 'z'"));
}

#[test]
fn unknown_operator_fails() {
    assert!(!passes(r#"{"a": 5}"#, "a == 5"));
    assert!(!passes(r#"{"a": 5}"#, "a ~ 5"));
    assert!(!passes(r#"{"a": 5}"#, "a => 5"));
    assert!(!passes(r#"{"a": "x"}"#, "a == 'x'"));
    assert!(!passes(r#"{"a": "x"}"#, "a <> 'y'"));
}

#[test]
fn missing_members_fail() {
    assert!(!passes(r#"{"a": 5}"#, "b = 5"));
    assert!(!passes(r#"{"a": 5}"#, "b != 5"));
    assert!(!passes(r#"{"a": 5}"#, "a = .b"));
    assert!(!passes(r#"{"a": "x"}"#, "a = .b"));
    assert!(!passes(r#"{"a": "x"}"#, "a != .b"));
    assert!(!passes("[5]", "a = 5"));
    assert!(!passes("5", "a = 5"));
    assert!(!passes("null", "a != 5"));
}

#[test]
fn clause_without_field_fails() {
    assert!(!passes(r#"{"a": 5, "": 5}"#, "x*a = 5"));
    let v = record(r#"{"a": 5}"#);
    assert!(!satisfies(&v, &Filter::new("=")));
    assert!(!satisfies(&v, &Filter::default()));
}

#[test]
fn string_fields_compare_with_each_other() {
    let r = r#"{"a": "x", "b": "x", "c": "y"}"#;
    assert!(passes(r, "a = .b"));
    assert!(!passes(r, "a = .c"));
    assert!(passes(r, "a != .c"));
    assert!(passes(r, "a = 3*.b"));
}

#[test]
fn members_of_other_kinds_fail() {
    let r = r#"{"a": null, "b": true, "c": [1], "d": {"e": 1},
                "f": 1.5, "g": 18446744073709551615}"#;
    for name in ["a", "b", "c", "d", "f", "g"] {
        for op in ["=", "!=", ">=", ">", "<=", "<"] {
            for right in ["1", "'x'", ".a", ".f", ".g"] {
                let e = format!("{} {} {}", name, op, right);
                assert!(!passes(r, &e), "{}", e);
            }
        }
    }
}

#[test]
fn fraction_on_the_right_fails() {
    let r = r#"{"a": 1, "f": 1.0, "g": 1}"#;
    assert!(!passes(r, "a = .f"));
    assert!(!passes(r, "a = 2*.f"));
    assert!(passes(r, "a = .g"));
}

#[test]
fn product_out_of_range_fails() {
    let r = r#"{"a": 9223372036854775807, "b": 2, "c": -9223372036854775808}"#;
    assert!(passes(r, "a = 9223372036854775807"));
    assert!(passes(r, "1*a >= .b"));
    assert!(!passes(r, "2*a >= .b"));
    assert!(!passes(r, "2*a != .b"));
    assert!(!passes(r, "b <= 2*.a"));
    assert!(!passes(r, "-1*c > 0"));
    assert!(passes(r, "-1*a < 0"));
    assert!(passes(r, "c = -9223372036854775808"));
    assert_eq!(scale(Some(i64::MAX), Some(2)), None);
    assert_eq!(scale(Some(i64::MIN), Some(-1)), None);
    assert_eq!(scale(Some(i64::MIN), Some(1)), Some(i64::MIN));
    assert_eq!(scale(Some(-3), Some(7)), Some(-21));
    assert_eq!(scale(Some(3), None), Some(3));
    assert_eq!(scale(None, Some(3)), None);
    assert_eq!(scale(None, None), None);
}

#[test]
fn order_of_clauses_does_not_change_the_outcome() {
    let r = r#"{"a": 10, "b": "hi", "c": 3}"#;
    let parts = ["a > 5", "b = 'hi'", "3*c < .a", "c = 4"];
    for i in 0..parts.len() {
        for j in 0..parts.len() {
            let ij = format!("{} AND {}", parts[i], parts[j]);
            let ji = format!("{} AND {}", parts[j], parts[i]);
            assert_eq!(passes(r, &ij), passes(r, &ji));
            assert_eq!(passes(r, &ij), passes(r, parts[i]) && passes(r, parts[j]));
        }
    }
}

#[test]
fn nested_member_is_not_reached_by_a_dotted_name() {
    let r = r#"{"a": {"b": 1}, "a.b": 2}"#;
    assert!(passes(r, ".a.b = 2"));
    assert!(!passes(r, ".a.b = 1"));
}

#[test]
fn read_gives_the_member_not_the_record() {
    let v = record(r#"{"a": 5, "s": "x", "n": null, "f": 0.5}"#);
    assert_eq!(read(&v, Some("a")), Some(Datum::Integer(5)));
    assert_eq!(read(&v, Some("s")), Some(Datum::Text("x")));
    assert_eq!(read(&v, Some("n")), Some(Datum::Other));
    assert_eq!(read(&v, Some("f")), Some(Datum::Number));
    assert_eq!(read(&v, Some("zz")), None);
    assert_eq!(read(&v, None), None);
    assert_eq!(read(&record("[1]"), Some("0")), None);
}

#[test]
fn datum_of_each_kind_of_value() {
    assert_eq!(datum(&record("7")), Datum::Integer(7));
    assert_eq!(datum(&record("-7")), Datum::Integer(-7));
    assert_eq!(datum(&record("9223372036854775807")), Datum::Integer(i64::MAX));
    assert_eq!(datum(&record("9223372036854775808")), Datum::Number);
    assert_eq!(datum(&record("7.0")), Datum::Number);
    assert_eq!(datum(&record("\"7\"")), Datum::Text("7"));
    assert_eq!(datum(&record("null")), Datum::Other);
    assert_eq!(datum(&record("false")), Datum::Other);
    assert_eq!(datum(&record("[]")), Datum::Other);
    assert_eq!(datum(&record("{}")), Datum::Other);
    assert_eq!(Datum::Integer(3).as_i64(), Some(3));
    assert_eq!(Datum::Number.as_i64(), None);
    assert_eq!(Datum::Text("3").as_i64(), None);
    assert_eq!(Datum::Text("3").as_str(), Some("3"));
    assert_eq!(Datum::Integer(3).as_str(), None);
    assert!(Datum::Integer(3).is_number());
    assert!(Datum::Number.is_number());
    assert!(!Datum::Text("3").is_number());
    assert!(!Datum::Other.is_number());
}

#[test]
fn operator_of_each_text() {
    assert_eq!(operator_of("="), Some(Operator::Equal));
    assert_eq!(operator_of("!="), Some(Operator::NotEqual));
    assert_eq!(operator_of(">="), Some(Operator::AtLeast));
    assert_eq!(operator_of(">"), Some(Operator::Greater));
    assert_eq!(operator_of("<="), Some(Operator::AtMost));
    assert_eq!(operator_of("<"), Some(Operator::Less));
    for other in ["", "==", "=>", "=<", "<>", " =", "= ", "≥", "!"] {
        assert_eq!(operator_of(other), None, "{:?}", other);
    }
}

#[test]
fn decide_on_plain_values() {
    let clause = |op: &'static str| Filter {
        field: Some("a"),
        value_field: Some("b".to_string()),
        multiplier_field: Some(2),
        multiplier_value: Some(3),
        ..Filter::new(op)
    };
    assert!(decide(&clause("="), Some(Datum::Integer(3)), Some(Datum::Integer(2))));
    assert!(!decide(&clause("="), Some(Datum::Integer(3)), Some(Datum::Integer(3))));
    assert!(decide(&clause("<"), Some(Datum::Integer(3)), Some(Datum::Integer(3))));
    assert!(!decide(&clause("="), Some(Datum::Integer(3)), None));
    assert!(!decide(&clause("="), None, Some(Datum::Integer(2))));
    assert!(!decide(&clause("="), Some(Datum::Number), Some(Datum::Integer(2))));
    assert!(!decide(&clause("="), Some(Datum::Integer(3)), Some(Datum::Number)));
    assert!(!decide(&clause("="), Some(Datum::Integer(3)), Some(Datum::Text("6"))));
    assert!(decide(&clause("="), Some(Datum::Text("6")), Some(Datum::Text("6"))));
    assert!(!decide(&clause("!="), Some(Datum::Text("6")), Some(Datum::Text("6"))));
    assert!(decide(&clause("!="), Some(Datum::Text("6")), Some(Datum::Text("7"))));
    assert!(!decide(&clause("="), Some(Datum::Other), Some(Datum::Other)));
}

#[test]
fn literal_beside_a_reference() {
    // Both set by hand: in string mode the literal governs; in numeric mode
    // the member does where it is an integer or a factor is given.
    let both = |factor: Option<i64>| Filter {
        field: Some("a"),
        value: Some(ScalarValue::Integer(5)),
        value_field: Some("b".to_string()),
        multiplier_value: factor,
        ..Filter::new("=")
    };
    let five = Some(Datum::Integer(5));
    assert!(decide(&both(None), five, Some(Datum::Integer(5))));
    assert!(!decide(&both(None), five, Some(Datum::Integer(6))));
    assert!(decide(&both(None), five, Some(Datum::Text("x"))));
    assert!(decide(&both(None), five, None));
    assert!(!decide(&both(Some(1)), five, Some(Datum::Text("x"))));
    assert!(decide(&both(Some(1)), five, None));
    assert!(!decide(&both(Some(2)), five, None));
    let text = Filter {
        value: Some(ScalarValue::Text("x".to_string())),
        ..both(None)
    };
    assert!(decide(&text, Some(Datum::Text("x")), Some(Datum::Text("y"))));
    assert!(!decide(&both(None), Some(Datum::Text("x")), Some(Datum::Text("x"))));
}
