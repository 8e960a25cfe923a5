//! Facts that relate the parser and the evaluator.
use vstd::prelude::*;
use crate::chars::{decimal, in_class, is_digit, is_space, lemma_run_end, run_end, CharClass};
use crate::evaluator::{eval_expr, eval_model, EvalResult, Evaluator, Val};
use crate::parser::{parse_text, ParseError};
use crate::sexpr::{Expr, Sexpr};

verus! {

/// A text of whitespace only, the empty text among them, parses to `Nil`.
pub proof fn lemma_blank_parses_to_nil(s: Seq<char>, depth: nat)
    requires
        forall|i: int| 0 <= i < s.len() ==> is_space(#[trigger] s[i]),
    ensures
        parse_text(s, depth) == Ok::<Expr, ParseError>(Expr::Nil),
{
    lemma_run_end(s, 0, CharClass::Space);
}

/// A text that is one run of digits parses to the integer it denotes, which
/// evaluates to itself; where that integer exceeds the 32-bit signed range,
/// parsing fails with `NumberOverflow`.
pub proof fn lemma_numeral_round_trip(s: Seq<char>, parse_depth: nat, eval_depth: nat)
    requires
        s.len() > 0,
        forall|i: int| 0 <= i < s.len() ==> is_digit(#[trigger] s[i]),
    ensures
        decimal(s) <= i32::MAX ==> parse_text(s, parse_depth) == Ok::<Expr, ParseError>(
            Expr::Int(decimal(s) as i32),
        ),
        decimal(s) <= i32::MAX ==> eval_expr(Expr::Int(decimal(s) as i32), eval_depth) == Ok::<
            Val,
            crate::evaluator::EvalError,
        >(Val::Int(decimal(s) as i32)),
        decimal(s) > i32::MAX ==> parse_text(s, parse_depth) == Err::<Expr, ParseError>(
            ParseError::NumberOverflow,
        ),
{
    assert(is_digit(s[0]));
    assert(!in_class(s[0], CharClass::Space));
    assert(run_end(s, 0, CharClass::Space) == 0);
    lemma_run_end(s, 0, CharClass::Digit);
    if run_end(s, 0, CharClass::Digit) < s.len() {
        assert(is_digit(s[run_end(s, 0, CharClass::Digit)]));
    }
    assert(s.subrange(0, s.len() as int) =~= s);
}

/// Evaluation is a function of the tree alone: two evaluations of equal
/// trees, by the same evaluator or by two evaluators with the same nesting
/// limit, give the same value or the same error.
pub proof fn lemma_eval_is_pure(
    e1: Sexpr,
    e2: Sexpr,
    ev1: Evaluator,
    ev2: Evaluator,
    first: EvalResult,
    second: EvalResult,
)
    requires
        e1@ == e2@,
        ev1.limit() == ev2.limit(),
        eval_model(first) == eval_expr(e1@, ev1.limit()),
        eval_model(second) == eval_expr(e2@, ev2.limit()),
    ensures
        eval_model(first) == eval_model(second),
{
}

} // verus!
