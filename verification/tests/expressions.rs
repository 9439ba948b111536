//! The embedded expression language: parsing, evaluation and rewriting.
use ftd::expr::{build_operator_tree, eval_with_context, ExprValue, Operator};

#[test]
fn evalexpr_test() {
    let mut context: Vec<(String, ExprValue)> = Vec::new();
    build_operator_tree("$a >= $b").unwrap();
    build_operator_tree("(e = \"\"; is_empty(e)) && (d = 4; d > 7) && (6 > 7)").unwrap();
    build_operator_tree("(6 > 7) && (true)").unwrap();
    let (r, ctx2) = eval_with_context("(e = \"\"; is_empty(e)) && (d = 4; d > 7)", context);
    assert_eq!(r, Ok(ExprValue::Boolean(false)));
    context = ctx2;
    let (r2, _) = eval_with_context("1 + 2 * 3", context);
    assert_eq!(r2, Ok(ExprValue::Int(7)));
}

#[test]
fn parser_rejects_garbage() {
    assert!(build_operator_tree("1 +").is_err());
    assert!(build_operator_tree("(1").is_err());
    assert!(build_operator_tree("\"unterminated").is_err());
}

#[test]
fn arithmetic_overflow_is_reported() {
    let ctx: Vec<(String, ExprValue)> = Vec::new();
    let (r, _) = eval_with_context("9223372036854775807 + 1", ctx);
    assert!(r.is_err());
    let ctx: Vec<(String, ExprValue)> = Vec::new();
    let (r, _) = eval_with_context("1 / 0", ctx);
    assert!(r.is_err());
}

#[test]
fn unknown_variable_is_reported() {
    let ctx: Vec<(String, ExprValue)> = Vec::new();
    let (r, _) = eval_with_context("nope + 1", ctx);
    assert!(r.is_err());
}

#[test]
fn expression_rewrite_marks_parameters() {
    let node = build_operator_tree("a = a + b; a").unwrap();
    let generator = ftd::html::ExpressionGenerator;
    let args = vec![String::from("a"), String::from("b")];
    let out = generator.to_string(&node, true, &args);
    assert_eq!(out.as_str(), "a.value=a.value+b.value;\na.value;");
}

#[test]
fn expression_rewrite_declares_locals() {
    let node = build_operator_tree("x = 1; x").unwrap();
    let generator = ftd::html::ExpressionGenerator;
    let args: Vec<String> = Vec::new();
    let out = generator.to_string(&node, true, &args);
    assert_eq!(out.as_str(), "let x=1;\nx;");
}

#[test]
fn operator_classifiers() {
    let generator = ftd::html::ExpressionGenerator;
    assert!(generator.is_assignment(&Operator::Assign));
    assert!(generator.is_chain(&Operator::Chain));
    assert!(generator.is_tuple(&Operator::Tuple));
    assert!(generator.is_root(&Operator::RootNode));
    assert!(generator.has_operator(&Operator::Add).is_some());
    assert_eq!(generator.has_operator(&Operator::Add).unwrap().as_str(), "+");
    assert!(generator.has_operator(&Operator::Assign).is_none());
    assert!(generator
        .has_value(&Operator::VariableIdentifierRead(String::from("v")))
        .is_some());
    assert!(generator
        .has_function(&Operator::FunctionIdentifier(String::from("f")))
        .is_some());
}
