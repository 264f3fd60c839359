use rudder_dsc::ast::{EnumExpression, GenError, AST};
use rudder_dsc::context::DSC;

fn cmp(var: &str, en: &str, item: &str) -> EnumExpression {
    EnumExpression::Compare(var.to_string(), en.to_string(), item.to_string())
}

fn and(a: EnumExpression, b: EnumExpression) -> EnumExpression {
    EnumExpression::And(Box::new(a), Box::new(b))
}

fn or(a: EnumExpression, b: EnumExpression) -> EnumExpression {
    EnumExpression::Or(Box::new(a), Box::new(b))
}

fn not(a: EnumExpression) -> EnumExpression {
    EnumExpression::Not(Box::new(a))
}

fn tree() -> AST {
    AST { resources: Vec::new(), global_enums: vec!["os".to_string()] }
}

#[test]
fn and_parenthesizes_sides_with_or() {
    let mut dsc = DSC::new();
    let gc = tree();
    let g1 = or(cmp("v", "os", "debian"), cmp("v", "os", "ubuntu"));
    let g2 = or(cmp("v", "os", "centos"), cmp("v", "os", "rhel"));
    assert_eq!(dsc.format_case_expr(&gc, &and(g1, g2)), Ok("(debian|ubuntu).(centos|rhel)".to_string()));
}

#[test]
fn and_leaves_plain_sides() {
    let mut dsc = DSC::new();
    let gc = tree();
    let e = and(cmp("v", "os", "debian"), or(cmp("v", "os", "a"), cmp("v", "os", "b")));
    assert_eq!(dsc.format_case_expr(&gc, &e), Ok("debian.(a|b)".to_string()));
    let e = and(cmp("v", "os", "a"), cmp("v", "os", "b"));
    assert_eq!(dsc.format_case_expr(&gc, &e), Ok("a.b".to_string()));
}

#[test]
fn or_adds_no_parentheses() {
    let mut dsc = DSC::new();
    let gc = tree();
    let e = or(and(cmp("v", "os", "a"), cmp("v", "os", "b")), cmp("v", "os", "c"));
    assert_eq!(dsc.format_case_expr(&gc, &e), Ok("a.b|c".to_string()));
}

#[test]
fn not_parenthesizes_operators() {
    let mut dsc = DSC::new();
    let gc = tree();
    assert_eq!(dsc.format_case_expr(&gc, &not(cmp("v", "os", "a"))), Ok("!a".to_string()));
    let e = not(or(cmp("v", "os", "a"), cmp("v", "os", "b")));
    assert_eq!(dsc.format_case_expr(&gc, &e), Ok("!(a|b)".to_string()));
    let e = not(and(cmp("v", "os", "a"), cmp("v", "os", "b")));
    assert_eq!(dsc.format_case_expr(&gc, &e), Ok("!(a.b)".to_string()));
}

#[test]
fn default_negates_seen_cases() {
    let mut dsc = DSC::new();
    let gc = tree();
    dsc.current_cases = vec!["a".to_string(), "b".to_string()];
    assert_eq!(dsc.format_case_expr(&gc, &EnumExpression::Default), Ok("!(a|b)".to_string()));
    dsc.current_cases = vec!["a".to_string()];
    assert_eq!(dsc.format_case_expr(&gc, &EnumExpression::Default), Ok("!(a)".to_string()));
}

#[test]
fn default_alone_is_any() {
    let mut dsc = DSC::new();
    let gc = tree();
    assert_eq!(dsc.format_case_expr(&gc, &EnumExpression::Default), Ok("any".to_string()));
}

#[test]
fn no_default_is_empty() {
    let mut dsc = DSC::new();
    let gc = tree();
    assert_eq!(dsc.format_case_expr(&gc, &EnumExpression::NoDefault), Ok(String::new()));
}

#[test]
fn range_compare_is_refused() {
    let mut dsc = DSC::new();
    let gc = tree();
    let r = EnumExpression::RangeCompare("v".to_string(), "os".to_string(), "a".to_string(), "b".to_string());
    assert_eq!(dsc.format_case_expr(&gc, &r), Err(GenError::Unsupported));
    assert_eq!(dsc.format_case_expr(&gc, &and(cmp("v", "os", "a"), r)), Err(GenError::Unsupported));
}

#[test]
fn local_enum_uses_bound_prefix() {
    let mut dsc = DSC::new();
    let gc = tree();
    assert_eq!(dsc.new_var("result"), Ok(()));
    assert_eq!(
        dsc.format_case_expr(&gc, &cmp("result", "outcome", "kept")),
        Ok("result1_outcome_kept".to_string())
    );
    assert_eq!(dsc.new_var("result"), Ok(()));
    assert_eq!(
        dsc.format_case_expr(&gc, &cmp("result", "outcome", "kept")),
        Ok("result2_outcome_kept".to_string())
    );
    assert_eq!(dsc.format_case_expr(&gc, &cmp("result", "os", "debian")), Ok("debian".to_string()));
}

#[test]
fn counters_outlive_a_file_and_prefixes_do_not() {
    let mut dsc = DSC::new();
    let gc = tree();
    assert_eq!(dsc.new_var("r"), Ok(()));
    dsc.return_condition = Some("x".to_string());
    dsc.current_cases = vec!["a".to_string()];
    dsc.reset_context();
    assert!(!dsc.var_prefixes.contains_key("r"));
    assert_eq!(dsc.return_condition, None);
    assert_eq!(dsc.current_cases, vec!["a".to_string()]);
    assert_eq!(dsc.new_var("r"), Ok(()));
    assert_eq!(dsc.format_case_expr(&gc, &cmp("r", "outcome", "kept")), Ok("r2_outcome_kept".to_string()));
    dsc.reset_cases();
    assert!(dsc.current_cases.is_empty());
}

#[test]
fn exhausted_counter_is_an_error() {
    let mut dsc = DSC::new();
    dsc.prefixes.insert("r".to_string(), u32::MAX);
    assert_eq!(dsc.new_var("r"), Err(GenError::CounterOverflow));
    assert!(!dsc.var_prefixes.contains_key("r"));
}

#[test]
fn enum_is_global_reads_the_list() {
    let gc = tree();
    assert!(gc.enum_is_global("os"));
    assert!(!gc.enum_is_global("outcome"));
}

#[test]
fn has_prefixes_tells_whether_a_guard_can_be_compiled() {
    let mut dsc = DSC::new();
    let gc = tree();
    let local = and(cmp("v", "os", "a"), not(cmp("res", "outcome", "kept")));
    assert!(!dsc.has_prefixes(&gc, &local));
    assert_eq!(dsc.new_var("res"), Ok(()));
    assert!(dsc.has_prefixes(&gc, &local));
    assert!(dsc.has_prefixes(&gc, &EnumExpression::Default));
}

#[test]
fn error_messages() {
    assert_eq!(GenError::OutOfRange.message(), "Class parameter indexes are out of method bounds");
    assert_eq!(
        GenError::MalformedMetadata.message(),
        "Expected value type for class parameters metadata: Number"
    );
    assert_eq!(GenError::NoOutput.message(), "No file to create");
}
