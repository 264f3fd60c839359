use rudder_dsc::ast::{EnumExpression, Fragment, GenError, Number, Value};
use rudder_dsc::context::DSC;
use rudder_dsc::naming::pascebab_case;
use rudder_dsc::text::{decimal_string, has_char, join, occurs_at, replace_all};
use rudder_dsc::value::{escape_quoted, escape_raw};

fn text(s: &str) -> Value {
    Value::Text(vec![Fragment::Static(s.to_string())])
}

fn num(n: i64) -> Value {
    if n >= 0 {
        Value::Number(Number::from_whole(n as u64))
    } else {
        Value::Number(Number { text: n.to_string(), whole: None })
    }
}

#[test]
fn pascebab_converts_separators_and_capitalizes() {
    assert_eq!(pascebab_case("foo_bar baz"), "Foo-Bar-Baz");
    assert_eq!(pascebab_case("file-from template"), "File-From-Template");
    assert_eq!(pascebab_case("fooBar"), "FooBar");
}

#[test]
fn pascebab_of_empty_is_empty() {
    assert_eq!(pascebab_case(""), "");
}

#[test]
fn pascebab_leaves_its_own_output() {
    assert_eq!(pascebab_case("Foo-Bar-Baz"), "Foo-Bar-Baz");
    assert_eq!(pascebab_case(&pascebab_case("foo_bar baz")), "Foo-Bar-Baz");
}

#[test]
fn pascebab_keeps_repeated_separators() {
    assert_eq!(pascebab_case("a__b"), "A--B");
    assert_eq!(pascebab_case("_a"), "-A");
}

#[test]
fn pascebab_uses_full_uppercase_mapping() {
    assert_eq!(pascebab_case("\u{df}a"), "SSa");
    assert_eq!(pascebab_case("\u{e9}t\u{e9}"), "\u{c9}t\u{e9}");
}

#[test]
fn replace_all_is_leftmost_without_overlap() {
    assert_eq!(replace_all("aaa", "aa", "b"), "ba");
    assert_eq!(replace_all("a$b$", "$", "${x}"), "a${x}b${x}");
    assert_eq!(replace_all("", "x", "y"), "");
    assert_eq!(replace_all("abc", "abcd", "y"), "abc");
}

#[test]
fn occurs_at_and_has_char() {
    assert!(occurs_at("hello", 1, "ell"));
    assert!(!occurs_at("hello", 3, "lox"));
    assert!(!occurs_at("hello", 9, "h"));
    assert!(has_char("a|b", '|'));
    assert!(!has_char("a.b", '|'));
}

#[test]
fn join_puts_separator_between() {
    assert_eq!(join(&vec!["a".to_string(), "b".to_string(), "c".to_string()], ", "), "a, b, c");
    assert_eq!(join(&vec!["a".to_string()], ","), "a");
    assert_eq!(join(&Vec::new(), ","), "");
}

#[test]
fn decimal_numerals() {
    assert_eq!(decimal_string(0), "0");
    assert_eq!(decimal_string(7), "7");
    assert_eq!(decimal_string(1203), "1203");
    assert_eq!(decimal_string(u64::MAX), "18446744073709551615");
}

#[test]
fn quoted_escapes_backslash_quote_dollar() {
    assert_eq!(escape_quoted("a\\b"), "a\\\\b");
    assert_eq!(escape_quoted("say \"x\""), "say \\\"x\\\"");
    assert_eq!(escape_quoted("$5"), "${const.dollar}5");
    assert_eq!(escape_quoted("\\\"$"), "\\\\\\\"${const.dollar}");
}

#[test]
fn raw_escapes_dollar_and_written_escapes() {
    assert_eq!(escape_raw("a$b"), "a${const.dollar}b");
    assert_eq!(escape_raw("l1\\nl2"), "l1${const.n}l2");
    assert_eq!(escape_raw("a\\rb\\tc"), "a${const.r}b${const.t}c");
    assert_eq!(escape_raw("real\nnewline"), "real\nnewline");
}

#[test]
fn parameter_to_dsc_quotes_text() {
    let dsc = DSC::new();
    assert_eq!(dsc.parameter_to_dsc(&text("hi"), "message"), Ok("-message \"hi\"".to_string()));
    let mixed = Value::Text(vec![
        Fragment::Static("a\"".to_string()),
        Fragment::Variable("node.name".to_string()),
        Fragment::Static("$".to_string()),
    ]);
    assert_eq!(
        dsc.parameter_to_dsc(&mixed, "path"),
        Ok("-path \"a\\\"${node.name}${const.dollar}\"".to_string())
    );
    assert_eq!(dsc.parameter_to_dsc(&Value::Text(Vec::new()), "p"), Ok("-p \"\"".to_string()));
}

#[test]
fn parameter_to_dsc_refuses_other_shapes() {
    let dsc = DSC::new();
    assert_eq!(dsc.parameter_to_dsc(&num(3), "p"), Err(GenError::Unsupported));
    assert_eq!(dsc.parameter_to_dsc(&Value::Boolean(true), "p"), Err(GenError::Unsupported));
    assert_eq!(dsc.parameter_to_dsc(&Value::List(Vec::new()), "p"), Err(GenError::Unsupported));
    assert_eq!(dsc.parameter_to_dsc(&Value::Struct(Vec::new()), "p"), Err(GenError::Unsupported));
    assert_eq!(
        dsc.parameter_to_dsc(&Value::EnumExpression(EnumExpression::Default), "p"),
        Err(GenError::Unsupported)
    );
}

#[test]
fn raw_plain_text_comes_back_verbatim() {
    let dsc = DSC::new();
    assert_eq!(dsc.value_to_string(&text("plain text, no marks"), false), Ok("plain text, no marks".to_string()));
    assert_eq!(dsc.value_to_string(&text("plain"), true), Ok("\"plain\"".to_string()));
}

#[test]
fn raw_numbers_and_booleans() {
    let dsc = DSC::new();
    assert_eq!(dsc.value_to_string(&num(42), true), Ok("42".to_string()));
    assert_eq!(dsc.value_to_string(&num(-1), false), Ok("-1".to_string()));
    assert_eq!(dsc.value_to_string(&Value::Boolean(true), false), Ok("true".to_string()));
    assert_eq!(dsc.value_to_string(&Value::Boolean(false), false), Ok("false".to_string()));
}

#[test]
fn raw_lists_and_structs() {
    let dsc = DSC::new();
    let list = Value::List(vec![text("a"), num(2), text("b")]);
    assert_eq!(dsc.value_to_string(&list, false), Ok("[ \"a\",2,\"b\" ]".to_string()));
    assert_eq!(dsc.value_to_string(&Value::List(Vec::new()), false), Ok("[  ]".to_string()));
    let st = Value::Struct(vec![
        ("k".to_string(), text("v")),
        ("n".to_string(), Value::List(vec![Value::Boolean(true)])),
    ]);
    assert_eq!(dsc.value_to_string(&st, false), Ok("{ \"k\":\"v\",\"n\":[ true ] }".to_string()));
}

#[test]
fn raw_variable_fragment() {
    let dsc = DSC::new();
    let v = Value::Text(vec![Fragment::Static("x=".to_string()), Fragment::Variable("v".to_string())]);
    assert_eq!(dsc.value_to_string(&v, true), Ok("\"x=${v}\"".to_string()));
}

#[test]
fn raw_refuses_enum_expression_anywhere() {
    let dsc = DSC::new();
    assert_eq!(
        dsc.value_to_string(&Value::EnumExpression(EnumExpression::Default), false),
        Err(GenError::Unsupported)
    );
    let nested = Value::List(vec![text("a"), Value::Struct(vec![(
        "k".to_string(),
        Value::EnumExpression(EnumExpression::NoDefault),
    )])]);
    assert_eq!(dsc.value_to_string(&nested, false), Err(GenError::Unsupported));
}

#[test]
fn param_types() {
    let dsc = DSC::new();
    assert_eq!(dsc.format_param_type(&text("a")), "string");
    assert_eq!(dsc.format_param_type(&num(1)), "long");
    assert_eq!(dsc.format_param_type(&Value::Boolean(true)), "bool");
    assert_eq!(dsc.format_param_type(&Value::EnumExpression(EnumExpression::Default)), "enum_expression");
    assert_eq!(dsc.format_param_type(&Value::List(Vec::new())), "list");
    assert_eq!(dsc.format_param_type(&Value::Struct(Vec::new())), "struct");
}

#[test]
fn pascebab_twice_is_pascebab_once_on_ascii() {
    for s in ["foo_bar baz", "a", "", "-x-", "file from_template-v2", "ALREADY UP", "mixed_Case name", "{odd}~chars 1a"] {
        let once = pascebab_case(s);
        assert_eq!(pascebab_case(&once), once);
    }
    assert_eq!(pascebab_case("az AZ {` @["), "Az-AZ-{`-@[");
}

#[test]
fn raw_number_is_its_canonical_text() {
    let dsc = DSC::new();
    let half = Value::Number(Number { text: "2.5".to_string(), whole: None });
    assert_eq!(dsc.value_to_string(&half, true), Ok("2.5".to_string()));
    let seven = Number::from_whole(7);
    assert_eq!(seven.text, "7");
    assert_eq!(seven.whole, Some(7));
    assert_eq!(dsc.value_to_string(&Value::Number(Number::from_whole(1200)), false), Ok("1200".to_string()));
}
