//! Human-readable text for values and errors.
use vstd::prelude::*;
use crate::evaluator::{EvalError, LispValue, Val};
use crate::parser::ParseError;

verus! {

/// The decimal digits, in order of value.
pub open spec fn digit_chars() -> Seq<char> {
    seq!['0', '1', '2', '3', '4', '5', '6', '7', '8', '9']
}

/// The decimal numeral of `n`, without leading zeros.
pub open spec fn digits_text(n: nat) -> Seq<char>
    decreases n,
{
    if n < 10 {
        seq![digit_chars()[n as int]]
    } else {
        digits_text(n / 10) + seq![digit_chars()[(n % 10) as int]]
    }
}

/// The decimal numeral of `n`, with a minus sign where it is negative.
pub open spec fn int_text(n: int) -> Seq<char> {
    if n < 0 {
        seq!['-'] + digits_text((-n) as nat)
    } else {
        digits_text(n as nat)
    }
}

/// The text of a value: `nil`, a numeral, or a symbol's name.
pub open spec fn value_text(v: Val) -> Seq<char> {
    match v {
        Val::Nil => seq!['n', 'i', 'l'],
        Val::Int(n) => int_text(n as int),
        Val::Symbol(s) => s,
    }
}

/// Appends the decimal numeral of `n` to `out`.
fn push_digits(out: &mut String, n: u32)
    ensures
        final(out)@ == old(out)@ + digits_text(n as nat),
    decreases n,
{
    if n >= 10 {
        push_digits(out, n / 10);
    }
    let d = (n % 10) as usize;
    let all = "0123456789";
    proof {
        reveal_strlit("0123456789");
        assert(all@ =~= digit_chars());
    }
    let one = all.substring_char(d, d + 1);
    assert(one@ =~= seq![digit_chars()[d as int]]);
    out.append(one);
    assert(final(out)@ =~= old(out)@ + digits_text(n as nat));
}

impl LispValue {
    /// The text of this value.
    pub fn pretty_print(&self) -> (r: String)
        ensures
            r@ == value_text(self@),
    {
        match self {
            LispValue::Nil => {
                proof {
                    reveal_strlit("nil");
                }
                let r = "nil".to_owned();
                assert(r@ =~= seq!['n', 'i', 'l']);
                r
            },
            LispValue::Int(x) => {
                let mut out = String::new();
                if *x < 0 {
                    proof {
                        reveal_strlit("-");
                    }
                    out.append("-");
                    push_digits(&mut out, (0 - *x as i64) as u32);
                    assert(out@ =~= int_text(*x as int));
                } else {
                    push_digits(&mut out, *x as u32);
                    assert(out@ =~= int_text(*x as int));
                }
                out
            },
            LispValue::Symbol(s) => s.clone(),
        }
    }
}

impl ParseError {
    /// The text of this error.
    pub open spec fn text(self) -> Seq<char> {
        match self {
            ParseError::UnterminatedList => "Unterminated list"@,
            ParseError::UnexpectedCharacter => "Unexpected character"@,
            ParseError::NumberOverflow => "Number out of range"@,
            ParseError::RecursionLimitExceeded => "Lists nested too deeply"@,
        }
    }

    /// The text of this error.
    pub fn message(&self) -> (r: &'static str)
        ensures
            r@ == self.text(),
    {
        match self {
            ParseError::UnterminatedList => "Unterminated list",
            ParseError::UnexpectedCharacter => "Unexpected character",
            ParseError::NumberOverflow => "Number out of range",
            ParseError::RecursionLimitExceeded => "Lists nested too deeply",
        }
    }
}

impl EvalError {
    /// The text of this error.
    pub open spec fn text(self) -> Seq<char> {
        match self {
            EvalError::InvalidOperator => "Operator is not a symbol"@,
            EvalError::UnsupportedOperator => "Unsupported operator"@,
            EvalError::TypeMismatch => "Operand is not an integer"@,
            EvalError::DivisionByZero => "Division by zero"@,
            EvalError::ArithmeticOverflow => "Arithmetic overflow"@,
            EvalError::RecursionLimitExceeded => "Lists nested too deeply"@,
        }
    }

    /// The text of this error.
    pub fn message(&self) -> (r: &'static str)
        ensures
            r@ == self.text(),
    {
        match self {
            EvalError::InvalidOperator => "Operator is not a symbol",
            EvalError::UnsupportedOperator => "Unsupported operator",
            EvalError::TypeMismatch => "Operand is not an integer",
            EvalError::DivisionByZero => "Division by zero",
            EvalError::ArithmeticOverflow => "Arithmetic overflow",
            EvalError::RecursionLimitExceeded => "Lists nested too deeply",
        }
    }
}

} // verus!
