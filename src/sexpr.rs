//! Expression trees and their mathematical model.
use vstd::prelude::*;

verus! {

/// How deep lists may nest, unless a caller chooses otherwise.
pub const DEFAULT_DEPTH_LIMIT: usize = 256;

/// An expression tree, as the parser builds it and the evaluator reads it.
#[derive(Debug, PartialEq, Eq)]
pub enum Sexpr {
    Nil,
    Int(i32),
    Symbol(String),
    List(Vec<Box<Sexpr>>),
}

/// The mathematical model of an expression tree: a symbol is its sequence of
/// characters, a list the sequence of its elements' models.
pub enum Expr {
    Nil,
    Int(i32),
    Symbol(Seq<char>),
    List(Seq<Expr>),
}

/// The model of an expression tree.
pub open spec fn model(e: Sexpr) -> Expr
    decreases e,
{
    match e {
        Sexpr::Nil => Expr::Nil,
        Sexpr::Int(n) => Expr::Int(n),
        Sexpr::Symbol(s) => Expr::Symbol(s@),
        Sexpr::List(items) => Expr::List(models(items@)),
    }
}

/// The models of a sequence of expression trees.
pub open spec fn models(v: Seq<Box<Sexpr>>) -> Seq<Expr>
    decreases v,
{
    if v.len() == 0 {
        Seq::empty()
    } else {
        models(v.drop_last()).push(model(*v.last()))
    }
}

impl View for Sexpr {
    type V = Expr;

    open spec fn view(&self) -> Expr {
        model(*self)
    }
}

pub proof fn lemma_models(v: Seq<Box<Sexpr>>)
    ensures
        models(v).len() == v.len(),
        forall|i: int| 0 <= i < v.len() ==> models(v)[i] == (*#[trigger] v[i])@,
    decreases v.len(),
{
    if v.len() > 0 {
        let u = v.drop_last();
        lemma_models(u);
        assert forall|i: int| 0 <= i < v.len() implies models(v)[i] == (*#[trigger] v[i])@ by {
            if i < u.len() {
                assert(u[i] == v[i]);
            }
        }
    }
}

/// The model of a list is the sequence of its elements' models.
pub proof fn lemma_list_view(v: Vec<Box<Sexpr>>)
    ensures
        Sexpr::List(v)@ == Expr::List(models(v@)),
        models(v@).len() == v.len(),
        forall|i: int| 0 <= i < v.len() ==> models(v@)[i] == (*#[trigger] v@[i])@,
{
    lemma_models(v@);
}

} // verus!
