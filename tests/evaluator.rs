use lisp::evaluator::{evaluate, EvalError, Evaluator, LispValue};
use lisp::parser::parse;
use lisp::sexpr::Sexpr;

fn run(text: &str) -> Result<LispValue, EvalError> {
    evaluate(parse(text.to_string()).expect("parses"))
}

fn num(n: i32) -> Box<Sexpr> {
    Box::new(Sexpr::Int(n))
}

fn sym(s: &str) -> Box<Sexpr> {
    Box::new(Sexpr::Symbol(s.to_string()))
}

#[test]
fn integer_evaluates_to_itself() {
    assert_eq!(run("42"), Ok(LispValue::Int(42)));
}

#[test]
fn symbol_evaluates_to_itself() {
    assert_eq!(run("hello"), Ok(LispValue::Symbol("hello".to_string())));
}

#[test]
fn nil_and_empty_list_evaluate_to_nil() {
    assert_eq!(run("nil"), Ok(LispValue::Nil));
    assert_eq!(run(""), Ok(LispValue::Nil));
    assert_eq!(run("()"), Ok(LispValue::Nil));
}

#[test]
fn singleton_list_is_transparent() {
    assert_eq!(run("(5)"), Ok(LispValue::Int(5)));
    assert_eq!(run("((+ 1 2))"), Ok(LispValue::Int(3)));
    assert_eq!(run("(foo)"), Ok(LispValue::Symbol("foo".to_string())));
}

#[test]
fn sum_difference_product() {
    assert_eq!(run("(+ 1 2 3)"), Ok(LispValue::Int(6)));
    assert_eq!(run("(- 10 2 3)"), Ok(LispValue::Int(5)));
    assert_eq!(run("(* 2 3 4)"), Ok(LispValue::Int(24)));
}

#[test]
fn division_truncates_toward_zero() {
    assert_eq!(run("(/ 100 5 2)"), Ok(LispValue::Int(10)));
    assert_eq!(run("(/ 7 2)"), Ok(LispValue::Int(3)));
    assert_eq!(run("(/ (- 0 7) 2)"), Ok(LispValue::Int(-3)));
}

#[test]
fn operator_with_one_operand_returns_it() {
    assert_eq!(run("(- 4)"), Ok(LispValue::Int(4)));
}

#[test]
fn nested_applications() {
    assert_eq!(run("(+ 1 (* 2 3) (- 10 4))"), Ok(LispValue::Int(13)));
}

#[test]
fn division_by_zero_fails() {
    assert_eq!(run("(/ 10 0)"), Err(EvalError::DivisionByZero));
}

#[test]
fn unknown_operator_is_unsupported() {
    assert_eq!(run("(foo 1 2)"), Err(EvalError::UnsupportedOperator));
    assert_eq!(run("(foo 1)"), Err(EvalError::UnsupportedOperator));
}

#[test]
fn integer_in_operator_slot_is_invalid() {
    assert_eq!(run("(1 2 3)"), Err(EvalError::InvalidOperator));
    assert_eq!(run("(() 2 3)"), Err(EvalError::InvalidOperator));
}

#[test]
fn non_integer_operand_is_a_type_mismatch() {
    assert_eq!(run("(+ a 1)"), Err(EvalError::TypeMismatch));
    assert_eq!(run("(+ 1 2 b)"), Err(EvalError::TypeMismatch));
    assert_eq!(run("(* 1 nil)"), Err(EvalError::TypeMismatch));
}

#[test]
fn first_error_from_the_left_wins() {
    assert_eq!(run("(/ 1 0 x)"), Err(EvalError::DivisionByZero));
    assert_eq!(run("(/ 1 x 0)"), Err(EvalError::TypeMismatch));
}

#[test]
fn overflow_is_reported() {
    assert_eq!(run("(+ 2147483647 1)"), Err(EvalError::ArithmeticOverflow));
    assert_eq!(run("(- 0 2147483647 2)"), Err(EvalError::ArithmeticOverflow));
    assert_eq!(run("(* 65536 65536)"), Err(EvalError::ArithmeticOverflow));
    assert_eq!(run("(/ (- 0 2147483647 1) (- 0 1))"), Err(EvalError::ArithmeticOverflow));
    assert_eq!(run("(- 0 2147483647 1)"), Ok(LispValue::Int(i32::MIN)));
}

#[test]
fn evaluator_limit_is_enforced() {
    let tree = || Sexpr::List(vec![Box::new(Sexpr::List(vec![num(1)]))]);
    assert_eq!(Evaluator::with_limit(2).eval(tree()), Ok(LispValue::Int(1)));
    assert_eq!(Evaluator::with_limit(1).eval(tree()), Err(EvalError::RecursionLimitExceeded));
    assert_eq!(Evaluator::with_limit(0).eval(Sexpr::Int(3)), Ok(LispValue::Int(3)));
}

#[test]
fn evaluating_one_tree_twice_gives_the_same_result() {
    let ok = || Sexpr::List(vec![sym("+"), num(1), num(2), num(3)]);
    let evaluator = Evaluator::new();
    let first = evaluator.eval(ok());
    let second = evaluator.eval(ok());
    assert_eq!(first, second);
    assert_eq!(first, Ok(LispValue::Int(6)));
    let bad = || Sexpr::List(vec![sym("/"), num(10), num(0)]);
    let first = evaluate(bad());
    let second = evaluate(bad());
    assert_eq!(first, second);
    assert_eq!(first, Err(EvalError::DivisionByZero));
}

#[test]
fn values_render_as_text() {
    assert_eq!(LispValue::Nil.pretty_print(), "nil");
    assert_eq!(LispValue::Int(42).pretty_print(), "42");
    assert_eq!(LispValue::Int(0).pretty_print(), "0");
    assert_eq!(LispValue::Int(-305).pretty_print(), "-305");
    assert_eq!(LispValue::Int(i32::MIN).pretty_print(), "-2147483648");
    assert_eq!(LispValue::Int(i32::MAX).pretty_print(), "2147483647");
    assert_eq!(LispValue::Symbol("foo".to_string()).pretty_print(), "foo");
}

#[test]
fn eval_error_messages() {
    assert_eq!(EvalError::DivisionByZero.message(), "Division by zero");
    assert_eq!(EvalError::InvalidOperator.message(), "Operator is not a symbol");
    assert_eq!(EvalError::UnsupportedOperator.message(), "Unsupported operator");
    assert_eq!(EvalError::TypeMismatch.message(), "Operand is not an integer");
    assert_eq!(EvalError::ArithmeticOverflow.message(), "Arithmetic overflow");
    assert_eq!(EvalError::RecursionLimitExceeded.message(), "Lists nested too deeply");
}

#[test]
fn two_evaluators_with_one_limit_agree() {
    let tree = || Sexpr::List(vec![sym("-"), num(10), num(2), num(3)]);
    let one = Evaluator::new();
    let other = Evaluator::with_limit(256);
    let first = one.eval(tree());
    assert_eq!(one.eval(Sexpr::List(vec![sym("/"), num(1), num(0)])), Err(EvalError::DivisionByZero));
    let second = other.eval(tree());
    assert_eq!(first, second);
    assert_eq!(first, Ok(LispValue::Int(5)));
}
