//! Expressions: the syntax tree that the parser builds and the evaluator reads.

use vstd::prelude::*;

verus! {

/// The mathematical form of an expression. A number is the bit pattern of a
/// 64-bit IEEE 754 value; a name is a sequence of characters.
pub enum Expr {
    Number(u64),
    Boolean(bool),
    Symbol(Seq<char>),
    List(Seq<Expr>),
    Lambda(Seq<Seq<char>>, Box<Expr>),
}

/// An expression of the language.
#[derive(Debug, PartialEq, Eq)]
pub enum LispExpression {
    /// A numeric literal, held as the bit pattern of its 64-bit IEEE 754 value.
    Number(u64),
    /// The literal `true` or `false`.
    Boolean(bool),
    /// A reference to a name.
    Symbol(String),
    /// A parenthesised form. The empty list can be written but not evaluated.
    List(Vec<LispExpression>),
    /// A function literal: parameter names and a body. The parser never
    /// builds one; functions are written as the list form `( lambda ( .. ) body )`.
    Lambda(Vec<String>, Box<LispExpression>),
}

/// The character sequences that a sequence of strings holds.
pub open spec fn names_view(names: Seq<String>) -> Seq<Seq<char>> {
    Seq::new(names.len(), |i: int| names[i]@)
}

/// The expressions that a sequence of syntax trees stands for.
pub open spec fn exprs_view(exprs: Seq<LispExpression>) -> Seq<Expr> {
    Seq::new(exprs.len(), |i: int| exprs[i]@)
}

impl LispExpression {
    /// The mathematical form of this expression.
    pub open spec fn model(self) -> Expr
        decreases self,
    {
        match self {
            LispExpression::Number(bits) => Expr::Number(bits),
            LispExpression::Boolean(b) => Expr::Boolean(b),
            LispExpression::Symbol(name) => Expr::Symbol(name@),
            LispExpression::List(items) => Expr::List(
                Seq::new(
                    items.len() as nat,
                    |i: int|
                        if 0 <= i < items.len() {
                            items[i].model()
                        } else {
                            arbitrary()
                        },
                ),
            ),
            LispExpression::Lambda(params, body) => Expr::Lambda(
                names_view(params@),
                Box::new((*body).model()),
            ),
        }
    }
}

impl View for LispExpression {
    type V = Expr;

    open spec fn view(&self) -> Expr {
        self.model()
    }
}

/// A copy of a list of names.
pub fn clone_names(names: &Vec<String>) -> (copy: Vec<String>)
    ensures
        names_view(copy@) == names_view(names@),
{
    let mut copy: Vec<String> = Vec::new();
    let mut i: usize = 0;
    while i < names.len()
        invariant
            i <= names.len(),
            copy.len() == i,
            forall|k: int| 0 <= k < i ==> copy[k]@ == names[k]@,
        decreases names.len() - i,
    {
        copy.push(names[i].clone());
        i += 1;
    }
    assert(names_view(copy@) =~= names_view(names@));
    copy
}

impl Clone for LispExpression {
    /// A copy that stands for the same expression.
    #[verifier::loop_isolation(false)]
    fn clone(&self) -> (copy: Self)
        ensures
            copy@ == self@,
        decreases self,
    {
        match self {
            LispExpression::Number(bits) => LispExpression::Number(*bits),
            LispExpression::Boolean(b) => LispExpression::Boolean(*b),
            LispExpression::Symbol(name) => LispExpression::Symbol(name.clone()),
            LispExpression::List(items) => {
                let mut copy: Vec<LispExpression> = Vec::new();
                let mut i: usize = 0;
                while i < items.len()
                    invariant
                        i <= items.len(),
                        copy.len() == i,
                        forall|k: int| 0 <= k < i ==> copy[k]@ == items[k]@,
                    decreases items.len() - i,
                {
                    copy.push(items[i].clone());
                    i += 1;
                }
                let copy = LispExpression::List(copy);
                assert(copy@->List_0 =~= self@->List_0);
                copy
            },
            LispExpression::Lambda(params, body) => {
                let body_copy: LispExpression = (**body).clone();
                LispExpression::Lambda(clone_names(params), Box::new(body_copy))
            },
        }
    }
}

} // verus!
