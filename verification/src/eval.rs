//! Evaluation of equation trees: exact rational arithmetic over `i64`
//! numerator and denominator, with a read-only variable environment and a
//! depth budget that turns a reference cycle into an error instead of
//! non-termination.

use vstd::prelude::*;

use crate::ast::{ast_height, ast_wf, Ast, Equation, Number, Operation, Operator, Variable};

verus! {

/// An exact rational result: `num / den` with `den >= 1`.
#[derive(Debug, PartialEq, Eq, Structural, Clone, Copy)]
pub struct Value {
    pub num: i64,
    pub den: i64,
}

impl Value {
    pub open spec fn wf(&self) -> bool {
        1 <= self.den
    }
}

/// Why an evaluation failed.
#[derive(Debug, PartialEq, Eq, Structural, Clone, Copy)]
pub enum EvalError {
    /// A variable reference has no binding in the environment.
    UndefinedVariable,
    /// The right operand of a division evaluated to zero.
    DivisionByZero,
    /// The chain of variable expansions exceeded the depth budget,
    /// which can only happen on a reference cycle when the budget is
    /// larger than the number of bindings.
    DepthExceeded,
    /// An intermediate numerator or denominator left `i64` range.
    Overflow,
}

/// The model of an evaluation result: an exact rational, or the reason
/// evaluation stopped.
pub ghost enum Outcome {
    Rational { num: int, den: int },
    Undefined,
    DivisionByZero,
    DepthExceeded,
    Overflow,
}

/// The model of an executable evaluation result.
pub open spec fn outcome_of(r: Result<Value, EvalError>) -> Outcome {
    match r {
        Ok(v) => Outcome::Rational { num: v.num as int, den: v.den as int },
        Err(EvalError::UndefinedVariable) => Outcome::Undefined,
        Err(EvalError::DivisionByZero) => Outcome::DivisionByZero,
        Err(EvalError::DepthExceeded) => Outcome::DepthExceeded,
        Err(EvalError::Overflow) => Outcome::Overflow,
    }
}

pub open spec fn in_i64(x: int) -> bool {
    i64::MIN <= x <= i64::MAX
}

/// `num / den` if both parts fit in `i64`, otherwise overflow.
pub open spec fn bounded_rational(num: int, den: int) -> Outcome {
    if in_i64(num) && in_i64(den) {
        Outcome::Rational { num, den }
    } else {
        Outcome::Overflow
    }
}

/// What one operator application returns on `ln/ld` and `rn/rd`.
/// Division keeps the denominator positive by moving the divisor's sign
/// to the numerator; division by zero is an error.
pub open spec fn apply_op(op: Operator, ln: int, ld: int, rn: int, rd: int) -> Outcome {
    match op {
        Operator::Addition => bounded_rational(ln * rd + rn * ld, ld * rd),
        Operator::Subtraction => bounded_rational(ln * rd - rn * ld, ld * rd),
        Operator::Multiplication => bounded_rational(ln * rn, ld * rd),
        Operator::Division => if rn == 0 {
            Outcome::DivisionByZero
        } else if rn > 0 {
            bounded_rational(ln * rd, ld * rn)
        } else {
            bounded_rational(-(ln * rd), ld * -rn)
        },
    }
}

/// The binding most recently added for `name`, if any: a later binding
/// for the same name shadows an earlier one.
pub open spec fn env_lookup(env: Seq<(Seq<u8>, Ast)>, name: Seq<u8>) -> Option<Ast>
    decreases env.len(),
{
    if env.len() == 0 {
        None
    } else if env.last().0 == name {
        Some(env.last().1)
    } else {
        env_lookup(env.drop_last(), name)
    }
}

/// Every expression bound in the environment is well formed.
pub open spec fn env_wf(env: Seq<(Seq<u8>, Ast)>) -> bool {
    forall|i: int| 0 <= i < env.len() ==> ast_wf(#[trigger] env[i].1)
}

/// What evaluating `a` under `env` returns, with `fuel` expansions of
/// variable references left.  Subtrees are evaluated left to right; the
/// first error is the result.
pub open spec fn spec_eval(a: Ast, env: Seq<(Seq<u8>, Ast)>, fuel: nat) -> Outcome
    decreases fuel, a,
{
    match a {
        Ast::Num { neg, num, den } => Outcome::Rational {
            num: if neg { -num } else { num },
            den,
        },
        Ast::Var { neg, name } => match env_lookup(env, name) {
            None => Outcome::Undefined,
            Some(bound) => if fuel == 0 {
                Outcome::DepthExceeded
            } else {
                match spec_eval(bound, env, (fuel - 1) as nat) {
                    Outcome::Rational { num, den } => if neg {
                        bounded_rational(-num, den)
                    } else {
                        Outcome::Rational { num, den }
                    },
                    stop => stop,
                }
            },
        },
        Ast::Bin { op, left, right } => match spec_eval(*left, env, fuel) {
            Outcome::Rational { num: ln, den: ld } => match spec_eval(*right, env, fuel) {
                Outcome::Rational { num: rn, den: rd } => apply_op(op, ln, ld, rn, rd),
                stop => stop,
            },
            stop => stop,
        },
    }
}

/// The variable environment: bindings in the order they were made, a
/// later binding for a name shadowing an earlier one.
pub struct Environment {
    bindings: Vec<(Vec<u8>, Equation)>,
}

impl View for Environment {
    type V = Seq<(Seq<u8>, Ast)>;

    closed spec fn view(&self) -> Seq<(Seq<u8>, Ast)> {
        self.bindings@.map_values(|b: (Vec<u8>, Equation)| (b.0@, b.1@))
    }
}

/// `true` iff the two byte strings hold the same bytes.
pub fn bytes_eq(a: &[u8], b: &[u8]) -> (r: bool)
    ensures
        r == (a@ == b@),
{
    if a.len() != b.len() {
        assert(a@.len() != b@.len());
        return false;
    }
    let mut i: usize = 0;
    while i < a.len()
        invariant
            i <= a.len(),
            a.len() == b.len(),
            forall|j: int| 0 <= j < i ==> a@[j] == b@[j],
        decreases a.len() - i,
    {
        if a[i] != b[i] {
            return false;
        }
        i += 1;
    }
    assert(a@ =~= b@);
    true
}

impl Environment {
    pub fn new() -> (r: Environment)
        ensures
            r@ == Seq::<(Seq<u8>, Ast)>::empty(),
    {
        let r = Environment { bindings: Vec::new() };
        assert(r@ =~= Seq::<(Seq<u8>, Ast)>::empty());
        r
    }

    /// Bind `name` to the unevaluated `equation`, shadowing any earlier
    /// binding for the same name.
    pub fn insert(&mut self, name: Vec<u8>, equation: Equation)
        ensures
            final(self)@ == old(self)@.push((name@, equation@)),
    {
        let ghost before = self@;
        self.bindings.push((name, equation));
        assert(self@ =~= before.push((self.bindings@.last().0@, self.bindings@.last().1@)));
    }

    pub fn len(&self) -> (r: usize)
        ensures
            r == self@.len(),
    {
        self.bindings.len()
    }

    /// The binding in force for `name`: the most recently inserted one.
    pub fn lookup<'a>(&'a self, name: &[u8]) -> (r: Option<&'a Equation>)
        ensures
            match r {
                Some(e) => env_lookup(self@, name@) == Some(e@),
                None => env_lookup(self@, name@) is None,
            },
    {
        let mut i: usize = self.bindings.len();
        assert(self@.subrange(0, i as int) =~= self@);
        while i > 0
            invariant
                i <= self.bindings.len(),
                env_lookup(self@, name@) == env_lookup(self@.subrange(0, i as int), name@),
            decreases i,
    {
            let entry = &self.bindings[i - 1];
            proof {
                assert(self@.subrange(0, i as int).last() == (entry.0@, entry.1@));
                assert(self@.subrange(0, i as int).drop_last() =~= self@.subrange(0, i - 1));
            }
            if bytes_eq(entry.0.as_slice(), name) {
                return Some(&entry.1);
            }
            i -= 1;
        }
        assert(self@.subrange(0, 0) =~= Seq::<(Seq<u8>, Ast)>::empty());
        None
    }
}

/// A product of an `i64` and a non-negative `i64` stays well inside
/// `i128` range: two such products can still be added without leaving it.
proof fn lemma_mul_bound(a: int, b: int)
    requires
        -0x8000_0000_0000_0000 <= a <= 0x7fff_ffff_ffff_ffff,
        0 <= b <= 0x7fff_ffff_ffff_ffff,
    ensures
        -0x3fff_ffff_ffff_ffff_8000_0000_0000_0000 <= a * b
            <= 0x3fff_ffff_ffff_ffff_8000_0000_0000_0000,
{
    assert(-0x3fff_ffff_ffff_ffff_8000_0000_0000_0000 <= a * b
        <= 0x3fff_ffff_ffff_ffff_8000_0000_0000_0000) by (nonlinear_arith)
        requires
            -0x8000_0000_0000_0000 <= a <= 0x7fff_ffff_ffff_ffff,
            0 <= b <= 0x7fff_ffff_ffff_ffff,
    ;
}

/// A product of two factors of magnitude at most `2^63` stays within
/// `i128` range.
proof fn lemma_mul_wide(a: int, b: int)
    requires
        -0x8000_0000_0000_0000 <= a <= 0x8000_0000_0000_0000,
        -0x8000_0000_0000_0000 <= b <= 0x8000_0000_0000_0000,
    ensures
        -0x4000_0000_0000_0000_0000_0000_0000_0000 <= a * b
            <= 0x4000_0000_0000_0000_0000_0000_0000_0000,
{
    assert(-0x4000_0000_0000_0000_0000_0000_0000_0000 <= a * b
        <= 0x4000_0000_0000_0000_0000_0000_0000_0000) by (nonlinear_arith)
        requires
            -0x8000_0000_0000_0000 <= a <= 0x8000_0000_0000_0000,
            -0x8000_0000_0000_0000 <= b <= 0x8000_0000_0000_0000,
    ;
}

/// A product of two positive `i64` values is positive.
proof fn lemma_mul_pos(a: int, b: int)
    requires
        1 <= a,
        1 <= b,
    ensures
        1 <= a * b,
{
    assert(1 <= a * b) by (nonlinear_arith)
        requires
            1 <= a,
            1 <= b,
    ;
}

/// `num / den` as a `Value` if both parts fit in `i64`, otherwise the
/// overflow error.
fn make_value(num: i128, den: i128) -> (r: Result<Value, EvalError>)
    requires
        1 <= den,
    ensures
        outcome_of(r) == bounded_rational(num as int, den as int),
        r matches Ok(v) ==> v.wf(),
{
    if num < i64::MIN as i128 || num > i64::MAX as i128 || den > i64::MAX as i128 {
        Err(EvalError::Overflow)
    } else {
        Ok(Value { num: num as i64, den: den as i64 })
    }
}

impl Operator {
    /// Apply this operator to two exact rationals.
    pub fn solve(&self, left: Value, right: Value) -> (r: Result<Value, EvalError>)
        requires
            left.wf(),
            right.wf(),
        ensures
            outcome_of(r) == apply_op(
                *self,
                left.num as int,
                left.den as int,
                right.num as int,
                right.den as int,
            ),
            r matches Ok(v) ==> v.wf(),
    {
        let ln = left.num as i128;
        let ld = left.den as i128;
        let rn = right.num as i128;
        let rd = right.den as i128;
        proof {
            lemma_mul_bound(ln as int, rd as int);
            lemma_mul_bound(rn as int, ld as int);
            lemma_mul_wide(ln as int, rn as int);
            lemma_mul_bound(ld as int, rd as int);
            lemma_mul_pos(ld as int, rd as int);
        }
        match self {
            Operator::Addition => make_value(ln * rd + rn * ld, ld * rd),
            Operator::Subtraction => make_value(ln * rd - rn * ld, ld * rd),
            Operator::Multiplication => make_value(ln * rn, ld * rd),
            Operator::Division => {
                if rn == 0 {
                    Err(EvalError::DivisionByZero)
                } else if rn > 0 {
                    proof {
                        lemma_mul_pos(ld as int, rn as int);
                        lemma_mul_wide(ld as int, rn as int);
                    }
                    make_value(ln * rd, ld * rn)
                } else {
                    proof {
                        lemma_mul_pos(ld as int, -(rn as int));
                        lemma_mul_wide(ld as int, -(rn as int));
                    }
                    make_value(-(ln * rd), ld * -rn)
                }
            },
        }
    }
}

/// In a well-formed environment every expression that lookup can return
/// is well formed.
proof fn lemma_env_lookup_wf(env: Seq<(Seq<u8>, Ast)>, name: Seq<u8>)
    requires
        env_wf(env),
    ensures
        env_lookup(env, name) matches Some(bound) ==> ast_wf(bound),
    decreases env.len(),
{
    if env.len() > 0 && env.last().0 != name {
        assert forall|i: int| 0 <= i < env.drop_last().len() implies ast_wf(
            #[trigger] env.drop_last()[i].1,
        ) by {
            assert(env.drop_last()[i] == env[i]);
        }
        lemma_env_lookup_wf(env.drop_last(), name);
    }
}

impl Number {
    /// The literal's magnitude under its effective sign.
    pub fn solve(&self) -> (r: Value)
        requires
            self.wf(),
        ensures
            r.wf(),
            r.num as int == if self.neg {
                -(self.num as int)
            } else {
                self.num as int
            },
            r.den == self.den,
    {
        Value { num: if self.neg { -self.num } else { self.num }, den: self.den }
    }
}

impl Variable {
    /// Look the name up and evaluate the bound expression under the same
    /// environment, then apply this reference's effective sign.
    pub fn solve(&self, env: &Environment, fuel: u64) -> (r: Result<Value, EvalError>)
        requires
            env_wf(env@),
        ensures
            outcome_of(r) == spec_eval(self@, env@, fuel as nat),
            r matches Ok(v) ==> v.wf(),
        decreases fuel, ast_height(self@), 0int,
    {
        match env.lookup(self.name.as_slice()) {
            None => Err(EvalError::UndefinedVariable),
            Some(bound) => {
                if fuel == 0 {
                    Err(EvalError::DepthExceeded)
                } else {
                    proof {
                        lemma_env_lookup_wf(env@, self.name@);
                    }
                    match bound.solve(env, fuel - 1) {
                        Err(e) => Err(e),
                        Ok(v) => {
                            if self.neg {
                                make_value(-(v.num as i128), v.den as i128)
                            } else {
                                Ok(v)
                            }
                        },
                    }
                }
            },
        }
    }
}

impl Operation {
    /// Evaluate both subtrees, left first, and apply the operator.
    pub fn solve(&self, env: &Environment, fuel: u64) -> (r: Result<Value, EvalError>)
        requires
            ast_wf(self@),
            env_wf(env@),
        ensures
            outcome_of(r) == spec_eval(self@, env@, fuel as nat),
            r matches Ok(v) ==> v.wf(),
        decreases fuel, ast_height(self@), 0int,
    {
        match self.left.solve(env, fuel) {
            Err(e) => Err(e),
            Ok(l) => match self.right.solve(env, fuel) {
                Err(e) => Err(e),
                Ok(rv) => self.operator.solve(l, rv),
            },
        }
    }
}

impl Equation {
    /// Evaluate the tree under `env`, with `fuel` expansions of variable
    /// references left.
    pub fn solve(&self, env: &Environment, fuel: u64) -> (r: Result<Value, EvalError>)
        requires
            self.wf(),
            env_wf(env@),
        ensures
            outcome_of(r) == spec_eval(self@, env@, fuel as nat),
            r matches Ok(v) ==> v.wf(),
        decreases fuel, ast_height(self@), 1int,
    {
        match self {
            Equation::Number(n) => Ok(n.solve()),
            Equation::Variable(v) => v.solve(env, fuel),
            Equation::Part(p) => p.solve(env, fuel),
        }
    }
}

/// A later binding for a name is the one that lookup returns, and it
/// leaves lookup of every other name unchanged.
pub proof fn lemma_env_shadowing(env: Seq<(Seq<u8>, Ast)>, name: Seq<u8>, bound: Ast, other: Seq<u8>)
    ensures
        env_lookup(env.push((name, bound)), name) == Some(bound),
        other != name ==> env_lookup(env.push((name, bound)), other) == env_lookup(env, other),
{
    assert(env.push((name, bound)).drop_last() =~= env);
}

} // verus!
