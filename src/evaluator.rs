//! Evaluation of expression trees: a left-to-right fold of one arithmetic
//! operator over the operands of a list.
use vstd::prelude::*;
use crate::sexpr::{lemma_list_view, Expr, Sexpr, DEFAULT_DEPTH_LIMIT};

verus! {

/// What an expression evaluates to.
#[derive(Clone, Debug, PartialEq, Eq)]
pub enum LispValue {
    Nil,
    Symbol(String),
    Int(i32),
}

/// The mathematical model of a value.
pub enum Val {
    Nil,
    Symbol(Seq<char>),
    Int(i32),
}

impl View for LispValue {
    type V = Val;

    open spec fn view(&self) -> Val {
        match self {
            LispValue::Nil => Val::Nil,
            LispValue::Symbol(s) => Val::Symbol(s@),
            LispValue::Int(n) => Val::Int(*n),
        }
    }
}

/// Why an expression has no value.
#[derive(Clone, Copy, Debug, PartialEq, Eq)]
pub enum EvalError {
    /// The operator of an application is not a symbol.
    InvalidOperator,
    /// The operator is a symbol other than `+`, `-`, `*` and `/`.
    UnsupportedOperator,
    /// An operand is not an integer.
    TypeMismatch,
    /// A divisor is zero.
    DivisionByZero,
    /// A result leaves the 32-bit signed range.
    ArithmeticOverflow,
    /// Lists are nested deeper than the evaluator's limit.
    RecursionLimitExceeded,
}

pub type EvalResult = Result<LispValue, EvalError>;

/// The model of an evaluation result.
pub open spec fn eval_model(r: EvalResult) -> Result<Val, EvalError> {
    match r {
        Ok(v) => Ok(v@),
        Err(x) => Err(x),
    }
}

/// The four arithmetic operators.
#[derive(Clone, Copy, Debug, PartialEq, Eq)]
pub enum Op {
    Add,
    Sub,
    Mul,
    Div,
}

/// The operator that a symbol names, if any.
pub open spec fn op_of(name: Seq<char>) -> Option<Op> {
    if name == seq!['+'] {
        Some(Op::Add)
    } else if name == seq!['-'] {
        Some(Op::Sub)
    } else if name == seq!['*'] {
        Some(Op::Mul)
    } else if name == seq!['/'] {
        Some(Op::Div)
    } else {
        None
    }
}

pub open spec fn abs(a: int) -> int {
    if a < 0 {
        -a
    } else {
        a
    }
}

/// Integer division rounded toward zero.
pub open spec fn quotient(a: int, b: int) -> int {
    if (a < 0) == (b < 0) {
        abs(a) / abs(b)
    } else {
        -(abs(a) / abs(b))
    }
}

/// The exact result of `a op b`, where `b` is not zero for `/`.
pub open spec fn exact(op: Op, a: int, b: int) -> int {
    match op {
        Op::Add => a + b,
        Op::Sub => a - b,
        Op::Mul => a * b,
        Op::Div => quotient(a, b),
    }
}

/// One step of the fold: the exact result where it fits in 32 bits.
pub open spec fn apply_op(op: Op, a: i32, b: i32) -> Result<i32, EvalError> {
    if op == Op::Div && b == 0 {
        Err(EvalError::DivisionByZero)
    } else if i32::MIN <= exact(op, a as int, b as int) <= i32::MAX {
        Ok(exact(op, a as int, b as int) as i32)
    } else {
        Err(EvalError::ArithmeticOverflow)
    }
}

/// The value of `e`, where at most `depth` lists may be entered.
pub open spec fn eval_expr(e: Expr, depth: nat) -> Result<Val, EvalError>
    decreases e,
{
    match e {
        Expr::Nil => Ok(Val::Nil),
        Expr::Int(n) => Ok(Val::Int(n)),
        Expr::Symbol(s) => Ok(Val::Symbol(s)),
        Expr::List(items) => {
            if depth == 0 {
                Err(EvalError::RecursionLimitExceeded)
            } else if items.len() == 0 {
                Ok(Val::Nil)
            } else if items.len() == 1 {
                eval_expr(items[0], (depth - 1) as nat)
            } else {
                match eval_expr(items[0], (depth - 1) as nat) {
                    Err(x) => Err(x),
                    Ok(Val::Symbol(name)) => match op_of(name) {
                        None => Err(EvalError::UnsupportedOperator),
                        Some(op) => match eval_expr(items[1], (depth - 1) as nat) {
                            Err(x) => Err(x),
                            Ok(Val::Int(a)) => fold_operands(
                                op,
                                a,
                                items.subrange(2, items.len() as int),
                                (depth - 1) as nat,
                            ),
                            Ok(_) => Err(EvalError::TypeMismatch),
                        },
                    },
                    Ok(_) => Err(EvalError::InvalidOperator),
                }
            }
        },
    }
}

/// Folds `op` over the values of `rest`, left to right, from `acc` on.
pub open spec fn fold_operands(op: Op, acc: i32, rest: Seq<Expr>, depth: nat) -> Result<
    Val,
    EvalError,
>
    decreases rest,
{
    if rest.len() == 0 {
        Ok(Val::Int(acc))
    } else {
        match eval_expr(rest[0], depth) {
            Err(x) => Err(x),
            Ok(Val::Int(b)) => match apply_op(op, acc, b) {
                Err(x) => Err(x),
                Ok(c) => fold_operands(op, c, rest.drop_first(), depth),
            },
            Ok(_) => Err(EvalError::TypeMismatch),
        }
    }
}

/// The operator that `name` names, if any.
fn operator(name: &String) -> (r: Option<Op>)
    ensures
        r == op_of(name@),
{
    let s = name.as_str();
    if s.unicode_len() != 1 {
        proof {
            assert(seq!['+'].len() == 1 && seq!['-'].len() == 1);
            assert(seq!['*'].len() == 1 && seq!['/'].len() == 1);
        }
        return None;
    }
    let c = s.get_char(0);
    proof {
        assert(name@ =~= seq![c]);
    }
    if c == '+' {
        Some(Op::Add)
    } else if c == '-' {
        Some(Op::Sub)
    } else if c == '*' {
        Some(Op::Mul)
    } else if c == '/' {
        Some(Op::Div)
    } else {
        proof {
            assert(seq![c][0] == c);
        }
        None
    }
}

/// An evaluator whose lists may nest at most `max_depth` deep.
pub struct Evaluator {
    max_depth: usize,
}

impl Evaluator {
    /// How deep this evaluator lets lists nest.
    pub closed spec fn limit(&self) -> nat {
        self.max_depth as nat
    }

    /// An evaluator with the default nesting limit.
    pub fn new() -> (r: Evaluator)
        ensures
            r.limit() == DEFAULT_DEPTH_LIMIT,
    {
        Evaluator { max_depth: DEFAULT_DEPTH_LIMIT }
    }

    /// An evaluator that lets lists nest at most `max_depth` deep.
    pub fn with_limit(max_depth: usize) -> (r: Evaluator)
        ensures
            r.limit() == max_depth,
    {
        Evaluator { max_depth }
    }

    /// The value of `sexpr`.
    pub fn eval(&self, sexpr: Sexpr) -> (r: EvalResult)
        ensures
            eval_model(r) == eval_expr(sexpr@, self.limit()),
    {
        self.eval_at(&sexpr, self.max_depth)
    }

    fn eval_at(&self, e: &Sexpr, depth: usize) -> (r: EvalResult)
        ensures
            eval_model(r) == eval_expr(e@, depth as nat),
        decreases e,
    {
        match e {
            Sexpr::Nil => Ok(LispValue::Nil),
            Sexpr::Int(n) => Ok(LispValue::Int(*n)),
            Sexpr::Symbol(s) => Ok(LispValue::Symbol(s.clone())),
            Sexpr::List(children) => {
                if depth == 0 {
                    Err(EvalError::RecursionLimitExceeded)
                } else {
                    self.eval_list(children, depth - 1)
                }
            },
        }
    }

    /// The value of a list with elements `children`, inside which at most
    /// `depth` lists may be entered.
    fn eval_list(&self, children: &Vec<Box<Sexpr>>, depth: usize) -> (r: EvalResult)
        ensures
            eval_model(r) == eval_expr(Sexpr::List(*children)@, (depth + 1) as nat),
        decreases children,
    {
        let ghost items = Sexpr::List(*children)@->List_0;
        proof {
            lemma_list_view(*children);
        }
        let n = children.len();
        if n == 0 {
            return Ok(LispValue::Nil);
        }
        if n == 1 {
            return self.eval_at(&children[0], depth);
        }
        let op = match self.eval_at(&children[0], depth) {
            Err(x) => {
                return Err(x);
            },
            Ok(LispValue::Symbol(name)) => match operator(&name) {
                None => {
                    return Err(EvalError::UnsupportedOperator);
                },
                Some(op) => op,
            },
            Ok(_) => {
                return Err(EvalError::InvalidOperator);
            },
        };
        let mut acc = match self.eval_at(&children[1], depth) {
            Err(x) => {
                return Err(x);
            },
            Ok(LispValue::Int(a)) => a,
            Ok(_) => {
                return Err(EvalError::TypeMismatch);
            },
        };
        let mut i: usize = 2;
        while i < n
            invariant
                2 <= i <= n == children.len() == items.len(),
                Sexpr::List(*children)@ == Expr::List(items),
                forall|j: int| 0 <= j < children.len() ==> items[j] == (*#[trigger] children@[j])@,
                eval_expr(Expr::List(items), (depth + 1) as nat) == fold_operands(
                    op,
                    acc,
                    items.subrange(i as int, n as int),
                    depth as nat,
                ),
            decreases n - i,
        {
            let ghost rest = items.subrange(i as int, n as int);
            assert(rest[0] == items[i as int]);
            assert(rest.drop_first() =~= items.subrange(i + 1, n as int));
            let b = match self.eval_at(&children[i], depth) {
                Err(x) => {
                    return Err(x);
                },
                Ok(LispValue::Int(b)) => b,
                Ok(_) => {
                    return Err(EvalError::TypeMismatch);
                },
            };
            acc = match eval_op(op, acc, b) {
                Err(x) => {
                    return Err(x);
                },
                Ok(c) => c,
            };
            i = i + 1;
        }
        assert(items.subrange(n as int, n as int) =~= Seq::<Expr>::empty());
        Ok(LispValue::Int(acc))
    }
}

/// One step of the fold, with overflow and a zero divisor reported.
fn eval_op(op: Op, x: i32, y: i32) -> (r: Result<i32, EvalError>)
    ensures
        r == apply_op(op, x, y),
{
    let a = x as i64;
    let b = y as i64;
    let v: i64 = match op {
        Op::Add => a + b,
        Op::Sub => a - b,
        Op::Mul => {
            assert(-0x8000_0000 * 0x8000_0000 <= a * b <= 0x8000_0000 * 0x8000_0000)
                by (nonlinear_arith)
                requires
                    -0x8000_0000 <= a < 0x8000_0000,
                    -0x8000_0000 <= b < 0x8000_0000,
            ;
            a * b
        },
        Op::Div => {
            if y == 0 {
                return Err(EvalError::DivisionByZero);
            }
            match x.checked_div(y) {
                None => {
                    return Err(EvalError::ArithmeticOverflow);
                },
                Some(q) => q as i64,
            }
        },
    };
    if v < i32::MIN as i64 || v > i32::MAX as i64 {
        Err(EvalError::ArithmeticOverflow)
    } else {
        Ok(v as i32)
    }
}

/// The value of `expr`, with the default nesting limit.
pub fn evaluate(expr: Sexpr) -> (r: EvalResult)
    ensures
        eval_model(r) == eval_expr(expr@, DEFAULT_DEPTH_LIMIT as nat),
{
    Evaluator::new().eval(expr)
}

} // verus!
