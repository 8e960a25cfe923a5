use lisp::parser::{parse, parse_with_limit, ParseError};
use lisp::sexpr::Sexpr;

#[test]
fn parses_ints() {
    let result = parse("42".to_string());
    assert!(result.is_ok());
    let sexp = result.unwrap();
    match sexp {
        Sexpr::Int(x) => assert_eq!(x, 42),
        _ => panic!("Parsed incorrectly, got {:?}", sexp),
    };
}

#[test]
fn parses_symbols() {
    let result = parse("hello".to_string());
    assert!(result.is_ok());
    let sexp = result.unwrap();
    match sexp {
        Sexpr::Symbol(x) => assert_eq!(x, "hello".to_string()),
        _ => panic!("Parsed incorrectly, got {:?}", sexp),
    };
}

#[test]
fn parses_lists() {
    let result = parse("(1 2 3)".to_string());
    assert!(result.is_ok(), "parse failed: {:?}", result);
    let sexp = result.unwrap();
    match sexp {
        Sexpr::List(children) => match *children[2] {
            Sexpr::Int(x) => assert_eq!(x, 3),
            _ => panic!("Parsed incorrectly, got {:?}", children[0]),
        },
        _ => panic!("Parsed incorrectly, got {:?}", sexp),
    };
}

fn num(n: i32) -> Box<Sexpr> {
    Box::new(Sexpr::Int(n))
}

fn sym(s: &str) -> Box<Sexpr> {
    Box::new(Sexpr::Symbol(s.to_string()))
}

#[test]
fn empty_input_is_nil() {
    assert_eq!(parse(String::new()), Ok(Sexpr::Nil));
}

#[test]
fn whitespace_only_input_is_nil() {
    assert_eq!(parse(" \t\n  \r ".to_string()), Ok(Sexpr::Nil));
    assert_eq!(parse("\u{a0}\u{3000}".to_string()), Ok(Sexpr::Nil));
}

#[test]
fn leading_whitespace_is_skipped() {
    assert_eq!(parse("   7".to_string()), Ok(Sexpr::Int(7)));
}

#[test]
fn digit_run_is_its_decimal_value() {
    assert_eq!(parse("0".to_string()), Ok(Sexpr::Int(0)));
    assert_eq!(parse("007".to_string()), Ok(Sexpr::Int(7)));
    assert_eq!(parse("2147483647".to_string()), Ok(Sexpr::Int(2147483647)));
}

#[test]
fn number_past_i32_max_overflows() {
    assert_eq!(parse("2147483648".to_string()), Err(ParseError::NumberOverflow));
    assert_eq!(parse("99999999999999999999".to_string()), Err(ParseError::NumberOverflow));
}

#[test]
fn nil_word_is_nil_not_symbol() {
    assert_eq!(parse("nil".to_string()), Ok(Sexpr::Nil));
    assert_eq!(parse("nils".to_string()), Ok(Sexpr::Symbol("nils".to_string())));
    assert_eq!(parse("Nil".to_string()), Ok(Sexpr::Symbol("Nil".to_string())));
}

#[test]
fn operator_characters_form_symbols() {
    assert_eq!(parse("+".to_string()), Ok(Sexpr::Symbol("+".to_string())));
    assert_eq!(parse("-5".to_string()), Ok(Sexpr::Symbol("-5".to_string())));
    assert_eq!(parse("a<=b?".to_string()), Ok(Sexpr::Symbol("a<=b?".to_string())));
}

#[test]
fn list_of_three_ints() {
    assert_eq!(parse("(1 2 3)".to_string()), Ok(Sexpr::List(vec![num(1), num(2), num(3)])));
}

#[test]
fn nested_lists_and_spacing() {
    let expected = Sexpr::List(vec![
        sym("+"),
        num(1),
        Box::new(Sexpr::List(vec![sym("*"), num(2), num(3)])),
        Box::new(Sexpr::List(vec![])),
    ]);
    assert_eq!(parse("( +  1(* 2 3)\n( ) )".to_string()), Ok(expected));
}

#[test]
fn text_after_first_expression_is_ignored() {
    assert_eq!(parse("1 2".to_string()), Ok(Sexpr::Int(1)));
    assert_eq!(parse("(1) )".to_string()), Ok(Sexpr::List(vec![num(1)])));
}

#[test]
fn unterminated_list_fails() {
    assert_eq!(parse("(1 2".to_string()), Err(ParseError::UnterminatedList));
    assert_eq!(parse("(".to_string()), Err(ParseError::UnterminatedList));
    assert_eq!(parse("((1) ".to_string()), Err(ParseError::UnterminatedList));
}

#[test]
fn unexpected_character_fails() {
    assert_eq!(parse(")".to_string()), Err(ParseError::UnexpectedCharacter));
    assert_eq!(parse("(1 #)".to_string()), Err(ParseError::UnexpectedCharacter));
    assert_eq!(parse("é".to_string()), Err(ParseError::UnexpectedCharacter));
}

#[test]
fn overflow_inside_list_fails() {
    assert_eq!(parse("(+ 1 3000000000)".to_string()), Err(ParseError::NumberOverflow));
}

#[test]
fn nesting_limit_is_enforced() {
    assert_eq!(parse_with_limit("((1))".to_string(), 2), Ok(Sexpr::List(vec![Box::new(Sexpr::List(vec![num(1)]))])));
    assert_eq!(parse_with_limit("((1))".to_string(), 1), Err(ParseError::RecursionLimitExceeded));
    assert_eq!(parse_with_limit("()".to_string(), 0), Err(ParseError::RecursionLimitExceeded));
    assert_eq!(parse_with_limit("7".to_string(), 0), Ok(Sexpr::Int(7)));
}

#[test]
fn deep_nesting_fails_under_default_limit() {
    let mut text = String::new();
    for _ in 0..300 {
        text.push('(');
    }
    assert_eq!(parse(text), Err(ParseError::RecursionLimitExceeded));
}

#[test]
fn parse_error_messages() {
    assert_eq!(ParseError::UnterminatedList.message(), "Unterminated list");
    assert_eq!(ParseError::UnexpectedCharacter.message(), "Unexpected character");
    assert_eq!(ParseError::NumberOverflow.message(), "Number out of range");
    assert_eq!(ParseError::RecursionLimitExceeded.message(), "Lists nested too deeply");
}
