//! The equation tree: signed numbers, signed variable references, and
//! binary operations, together with the ghost model that the contracts of
//! the parser and the evaluator speak of.

use vstd::prelude::*;

verus! {

/// One sign token, `+` or `-`.
#[derive(Debug, PartialEq, Eq, Structural, Clone, Copy)]
pub enum Sign {
    Positive,
    Negative,
}

/// One of the four binary operators.
#[derive(Debug, PartialEq, Eq, Structural, Clone, Copy)]
pub enum Operator {
    Addition,
    Subtraction,
    Multiplication,
    Division,
}

/// A numeric literal: an effective sign and an exact non-negative
/// magnitude `num / den`.  A run of sign tokens carries no information
/// beyond the parity of its `-` signs, so only that parity is kept.
#[derive(Debug, PartialEq)]
pub struct Number {
    pub neg: bool,
    pub num: i64,
    pub den: i64,
}

/// A variable reference: an effective sign and the variable's name
/// (a run of ASCII letters).  The name is resolved only at evaluation
/// time, against the environment in force then.
#[derive(Debug, PartialEq)]
pub struct Variable {
    pub neg: bool,
    pub name: Vec<u8>,
}

/// A binary operation over two subtrees.
#[derive(Debug, PartialEq)]
pub struct Operation {
    pub left: Equation,
    pub operator: Operator,
    pub right: Equation,
}

/// The equation tree.  Immutable once built; each `Part` node owns its
/// two children.
#[derive(Debug, PartialEq)]
pub enum Equation {
    Number(Number),
    Part(Box<Operation>),
    Variable(Variable),
}

/// The mathematical model of an equation tree: the same shape over
/// unbounded integers and byte sequences.
pub ghost enum Ast {
    Num { neg: bool, num: int, den: int },
    Var { neg: bool, name: Seq<u8> },
    Bin { op: Operator, left: Box<Ast>, right: Box<Ast> },
}

impl Number {
    /// The magnitude is non-negative and the denominator positive, both
    /// within `i64` range.
    pub open spec fn wf(&self) -> bool {
        0 <= self.num && 1 <= self.den
    }
}

impl View for Number {
    type V = Ast;

    open spec fn view(&self) -> Ast {
        Ast::Num { neg: self.neg, num: self.num as int, den: self.den as int }
    }
}

impl View for Variable {
    type V = Ast;

    open spec fn view(&self) -> Ast {
        Ast::Var { neg: self.neg, name: self.name@ }
    }
}

impl View for Operation {
    type V = Ast;

    open spec fn view(&self) -> Ast
        decreases self,
    {
        Ast::Bin { op: self.operator, left: Box::new(self.left@), right: Box::new(self.right@) }
    }
}

impl View for Equation {
    type V = Ast;

    open spec fn view(&self) -> Ast
        decreases self,
    {
        match self {
            Equation::Number(n) => n@,
            Equation::Variable(v) => v@,
            Equation::Part(p) => Ast::Bin {
                op: p.operator,
                left: Box::new(p.left@),
                right: Box::new(p.right@),
            },
        }
    }
}

/// Every numeric literal in the model is a non-negative magnitude over a
/// positive denominator, both within `i64` range.
pub open spec fn ast_wf(a: Ast) -> bool
    decreases a,
{
    match a {
        Ast::Num { neg, num, den } => 0 <= num <= i64::MAX && 1 <= den <= i64::MAX,
        Ast::Var { .. } => true,
        Ast::Bin { op, left, right } => ast_wf(*left) && ast_wf(*right),
    }
}

impl Equation {
    /// Every numeric literal in the tree satisfies [`Number::wf`].
    pub open spec fn wf(&self) -> bool {
        ast_wf(self@)
    }
}

/// The height of a model tree, the measure that evaluation recurses on.
pub open spec fn ast_height(a: Ast) -> nat
    decreases a,
{
    match a {
        Ast::Num { .. } => 0,
        Ast::Var { .. } => 0,
        Ast::Bin { op, left, right } => 1 + if ast_height(*left) >= ast_height(*right) {
            ast_height(*left)
        } else {
            ast_height(*right)
        },
    }
}

} // verus!
