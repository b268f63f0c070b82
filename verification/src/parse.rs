//! Recursive-descent parser for the expression grammar, over bytes:
//!
//! ```text
//! additive       := multiplicative ( ('+' | '-') multiplicative )*
//! multiplicative := atom ( ('*' | '/') atom )*
//! atom           := variable | number | sign* '(' additive ')'
//! variable       := sign* alpha+
//! number         := sign* digit+ ( '.' digit+ )?
//! sign           := '+' | '-'
//! ```
//!
//! Precedence is structural: the additive level only ever combines
//! multiplicative results, so `*` and `/` bind tighter than `+` and `-`.
//! Repetitions fold left, which makes chains of equal precedence left
//! associative.  An atom tries the alternatives in the fixed order
//! variable, number, parenthesized group.
//!
//! Every function is given by a specification twin over `Seq<u8>` and
//! proved to return exactly what the twin says.  The mutual recursion of
//! the grammar levels is bounded by an explicit `fuel` budget threaded
//! through both; a caller passes `u64::MAX`, which no input that fits in
//! memory can exhaust.

use vstd::prelude::*;

use crate::ast::{ast_wf, Ast, Equation, Number, Operation, Operator, Sign, Variable};

verus! {

/// ASCII codes of the grammar's characters.
pub const PLUS: u8 = 43;

pub const MINUS: u8 = 45;

pub const STAR: u8 = 42;

pub const SLASH: u8 = 47;

pub const LPAREN: u8 = 40;

pub const RPAREN: u8 = 41;

pub const DOT: u8 = 46;

pub const EQUALS: u8 = 61;

pub const ZERO: u8 = 48;

pub const NINE: u8 = 57;

pub open spec fn is_sign_byte(b: u8) -> bool {
    b == PLUS || b == MINUS
}

pub open spec fn is_digit_byte(b: u8) -> bool {
    ZERO <= b <= NINE
}

pub open spec fn is_alpha_byte(b: u8) -> bool {
    (65 <= b <= 90) || (97 <= b <= 122)
}

/// One sign token at `i`, if any.
pub open spec fn sp_sign(s: Seq<u8>, i: int) -> Option<(Sign, int)> {
    if 0 <= i < s.len() && s[i] == PLUS {
        Some((Sign::Positive, i + 1))
    } else if 0 <= i < s.len() && s[i] == MINUS {
        Some((Sign::Negative, i + 1))
    } else {
        None
    }
}

/// The run of sign tokens starting at `i`: its effective sign (negative
/// iff the count of `-` signs is odd) and its end position.
pub open spec fn sp_signs(s: Seq<u8>, i: int) -> (bool, int)
    decreases s.len() - i,
{
    if 0 <= i < s.len() && is_sign_byte(s[i]) {
        let (neg, end) = sp_signs(s, i + 1);
        (if s[i] == MINUS { !neg } else { neg }, end)
    } else {
        (false, i)
    }
}

/// The end of the run of ASCII letters starting at `i`.
pub open spec fn alpha_run_end(s: Seq<u8>, i: int) -> int
    decreases s.len() - i,
{
    if 0 <= i < s.len() && is_alpha_byte(s[i]) {
        alpha_run_end(s, i + 1)
    } else {
        i
    }
}

/// Decimal digits folded left onto `acc`; `None` once the value would
/// leave `i64` range.
pub open spec fn sp_digits(s: Seq<u8>, i: int, acc: int) -> Option<(int, int)>
    decreases s.len() - i,
{
    if 0 <= i < s.len() && is_digit_byte(s[i]) {
        let next = acc * 10 + (s[i] - ZERO);
        if next > i64::MAX {
            None
        } else {
            sp_digits(s, i + 1, next)
        }
    } else {
        Some((acc, i))
    }
}

/// Fractional digits: the numerator keeps folding left while the
/// denominator gains a factor of ten per digit; `None` once either
/// leaves `i64` range.
pub open spec fn sp_frac(s: Seq<u8>, i: int, num: int, den: int) -> Option<(int, int, int)>
    decreases s.len() - i,
{
    if 0 <= i < s.len() && is_digit_byte(s[i]) {
        let next_num = num * 10 + (s[i] - ZERO);
        let next_den = den * 10;
        if next_num > i64::MAX || next_den > i64::MAX {
            None
        } else {
            sp_frac(s, i + 1, next_num, next_den)
        }
    } else {
        Some((num, den, i))
    }
}

/// An unsigned numeric literal at `i`: one or more digits, optionally
/// followed by `.` and one or more digits.  Yields magnitude `num/den`
/// and the end position; `None` if no digit starts at `i` or the literal
/// does not fit.
pub open spec fn sp_number(s: Seq<u8>, i: int) -> Option<(int, int, int)> {
    if 0 <= i < s.len() && is_digit_byte(s[i]) {
        match sp_digits(s, i, 0) {
            None => None,
            Some((whole, j)) => if j + 1 < s.len() && s[j] == DOT && is_digit_byte(s[j + 1]) {
                sp_frac(s, j + 1, whole, 1)
            } else {
                Some((whole, 1, j))
            },
        }
    } else {
        None
    }
}

/// A signed variable reference: a sign run, then one or more letters.
pub open spec fn sp_variable(s: Seq<u8>, i: int) -> Option<(bool, Seq<u8>, int)> {
    let (neg, j) = sp_signs(s, i);
    let e = alpha_run_end(s, j);
    if e > j {
        Some((neg, s.subrange(j, e), e))
    } else {
        None
    }
}

/// A signed numeric literal: a sign run, then an unsigned number.
pub open spec fn sp_signed_number(s: Seq<u8>, i: int) -> Option<(bool, int, int, int)> {
    let (neg, j) = sp_signs(s, i);
    match sp_number(s, j) {
        None => None,
        Some((num, den, e)) => Some((neg, num, den, e)),
    }
}

/// An additive operator token at `i`, if any.
pub open spec fn sp_add_sub_op(s: Seq<u8>, i: int) -> Option<(Operator, int)> {
    if 0 <= i < s.len() && s[i] == PLUS {
        Some((Operator::Addition, i + 1))
    } else if 0 <= i < s.len() && s[i] == MINUS {
        Some((Operator::Subtraction, i + 1))
    } else {
        None
    }
}

/// A multiplicative operator token at `i`, if any.
pub open spec fn sp_mul_div_op(s: Seq<u8>, i: int) -> Option<(Operator, int)> {
    if 0 <= i < s.len() && s[i] == STAR {
        Some((Operator::Multiplication, i + 1))
    } else if 0 <= i < s.len() && s[i] == SLASH {
        Some((Operator::Division, i + 1))
    } else {
        None
    }
}

/// An atom: a variable, a number, or a sign run and a parenthesized
/// additive expression, tried in that order.  A group under a negative
/// effective sign is wrapped as `(-1) * group`; under a positive one the
/// group's tree is used unchanged.
pub open spec fn sp_atom(s: Seq<u8>, i: int, fuel: nat) -> Option<(Ast, int)>
    decreases fuel,
{
    match sp_variable(s, i) {
        Some((neg, name, e)) => Some((Ast::Var { neg, name }, e)),
        None => match sp_signed_number(s, i) {
            Some((neg, num, den, e)) => Some((Ast::Num { neg, num, den }, e)),
            None => {
                let (neg, j) = sp_signs(s, i);
                if 0 <= j < s.len() && s[j] == LPAREN && fuel > 0 {
                    match sp_additive(s, j + 1, (fuel - 1) as nat) {
                        None => None,
                        Some((inner, k)) => if 0 <= k < s.len() && s[k] == RPAREN {
                            if neg {
                                Some(
                                    (
                                        Ast::Bin {
                                            op: Operator::Multiplication,
                                            left: Box::new(Ast::Num { neg: true, num: 1, den: 1 }),
                                            right: Box::new(inner),
                                        },
                                        k + 1,
                                    ),
                                )
                            } else {
                                Some((inner, k + 1))
                            }
                        } else {
                            None
                        },
                    }
                } else {
                    None
                }
            },
        },
    }
}

/// The left fold of `( mul_div_op atom )*` onto `acc`: if an operator is
/// present but no atom follows it, the repetition stops before the
/// operator.
pub open spec fn sp_mul_tail(s: Seq<u8>, i: int, acc: Ast, fuel: nat) -> Option<(Ast, int)>
    decreases fuel,
{
    match sp_mul_div_op(s, i) {
        None => Some((acc, i)),
        Some((op, i2)) => if fuel == 0 {
            None
        } else {
            match sp_atom(s, i2, (fuel - 1) as nat) {
                None => Some((acc, i)),
                Some((rhs, j)) => sp_mul_tail(
                    s,
                    j,
                    Ast::Bin { op, left: Box::new(acc), right: Box::new(rhs) },
                    (fuel - 1) as nat,
                ),
            }
        },
    }
}

/// The multiplicative level: an atom, then the left fold of further
/// `( mul_div_op atom )` pairs.
pub open spec fn sp_mult(s: Seq<u8>, i: int, fuel: nat) -> Option<(Ast, int)>
    decreases fuel,
{
    if fuel == 0 {
        None
    } else {
        match sp_atom(s, i, (fuel - 1) as nat) {
            None => None,
            Some((first, j)) => sp_mul_tail(s, j, first, (fuel - 1) as nat),
        }
    }
}

/// The left fold of `( add_sub_op multiplicative )*` onto `acc`.
pub open spec fn sp_add_tail(s: Seq<u8>, i: int, acc: Ast, fuel: nat) -> Option<(Ast, int)>
    decreases fuel,
{
    match sp_add_sub_op(s, i) {
        None => Some((acc, i)),
        Some((op, i2)) => if fuel == 0 {
            None
        } else {
            match sp_mult(s, i2, (fuel - 1) as nat) {
                None => Some((acc, i)),
                Some((rhs, j)) => sp_add_tail(
                    s,
                    j,
                    Ast::Bin { op, left: Box::new(acc), right: Box::new(rhs) },
                    (fuel - 1) as nat,
                ),
            }
        },
    }
}

/// The additive level, the top of the expression grammar.
pub open spec fn sp_additive(s: Seq<u8>, i: int, fuel: nat) -> Option<(Ast, int)>
    decreases fuel,
{
    if fuel == 0 {
        None
    } else {
        match sp_mult(s, i, (fuel - 1) as nat) {
            None => None,
            Some((first, j)) => sp_add_tail(s, j, first, (fuel - 1) as nat),
        }
    }
}

/// An assignment line: a variable name, `=`, and an additive expression.
pub open spec fn sp_expression(s: Seq<u8>, i: int, fuel: nat) -> Option<(Seq<u8>, Ast, int)> {
    let e = alpha_run_end(s, i);
    if e > i && 0 <= e < s.len() && s[e] == EQUALS {
        match sp_additive(s, e + 1, fuel) {
            None => None,
            Some((a, j)) => Some((s.subrange(i, e), a, j)),
        }
    } else {
        None
    }
}


/// One sign token: a single `+` or `-` character.
pub fn sign_parser(s: &[u8], pos: usize) -> (r: Option<(Sign, usize)>)
    ensures
        match r {
            Some((sign, p)) => sp_sign(s@, pos as int) == Some((sign, p as int)),
            None => sp_sign(s@, pos as int) is None,
        },
{
    if pos < s.len() && s[pos] == PLUS {
        Some((Sign::Positive, pos + 1))
    } else if pos < s.len() && s[pos] == MINUS {
        Some((Sign::Negative, pos + 1))
    } else {
        None
    }
}

/// The run of sign tokens at `pos`: effective sign and end position.
fn sign_run(s: &[u8], pos: usize) -> (r: (bool, usize))
    ensures
        (r.0, r.1 as int) == sp_signs(s@, pos as int),
        pos <= r.1,
    decreases s@.len() - pos,
{
    match sign_parser(s, pos) {
        Some((sign, next)) => {
            let (neg, end) = sign_run(s, next);
            (if matches!(sign, Sign::Negative) { !neg } else { neg }, end)
        },
        None => (false, pos),
    }
}

/// The end of the run of ASCII letters at `pos`.
fn alpha_end(s: &[u8], pos: usize) -> (r: usize)
    ensures
        r as int == alpha_run_end(s@, pos as int),
        pos <= r,
        r > pos ==> r <= s@.len(),
    decreases s@.len() - pos,
{
    if pos < s.len() && ((65 <= s[pos] && s[pos] <= 90) || (97 <= s[pos] && s[pos] <= 122)) {
        alpha_end(s, pos + 1)
    } else {
        pos
    }
}

/// The bytes of `s` from `from` (inclusive) to `to` (exclusive).
pub fn copy_bytes(s: &[u8], from: usize, to: usize) -> (v: Vec<u8>)
    requires
        from <= to <= s@.len(),
    ensures
        v@ == s@.subrange(from as int, to as int),
{
    let mut v: Vec<u8> = Vec::new();
    let mut i: usize = from;
    while i < to
        invariant
            from <= i <= to <= s@.len(),
            v@ == s@.subrange(from as int, i as int),
        decreases to - i,
    {
        v.push(s[i]);
        proof {
            assert(v@ =~= s@.subrange(from as int, i + 1));
        }
        i += 1;
    }
    v
}

/// Decimal digits folded left onto `acc`, or `None` past `i64` range.
fn digit_acc(s: &[u8], pos: usize, acc: i64) -> (r: Option<(i64, usize)>)
    requires
        0 <= acc,
    ensures
        match r {
            Some((v, p)) => sp_digits(s@, pos as int, acc as int) == Some((v as int, p as int))
                && 0 <= v,
            None => sp_digits(s@, pos as int, acc as int) is None,
        },
    decreases s@.len() - pos,
{
    if pos < s.len() && ZERO <= s[pos] && s[pos] <= NINE {
        let next: i128 = acc as i128 * 10 + (s[pos] - ZERO) as i128;
        if next > i64::MAX as i128 {
            None
        } else {
            digit_acc(s, pos + 1, next as i64)
        }
    } else {
        Some((acc, pos))
    }
}

/// Fractional digits folded onto `num` while `den` gains a factor of
/// ten per digit, or `None` past `i64` range.
fn frac_acc(s: &[u8], pos: usize, num: i64, den: i64) -> (r: Option<(i64, i64, usize)>)
    requires
        0 <= num,
        1 <= den,
    ensures
        match r {
            Some((n, d, p)) => sp_frac(s@, pos as int, num as int, den as int) == Some(
                (n as int, d as int, p as int),
            ) && 0 <= n && 1 <= d,
            None => sp_frac(s@, pos as int, num as int, den as int) is None,
        },
    decreases s@.len() - pos,
{
    if pos < s.len() && ZERO <= s[pos] && s[pos] <= NINE {
        let next_num: i128 = num as i128 * 10 + (s[pos] - ZERO) as i128;
        let next_den: i128 = den as i128 * 10;
        if next_num > i64::MAX as i128 || next_den > i64::MAX as i128 {
            None
        } else {
            frac_acc(s, pos + 1, next_num as i64, next_den as i64)
        }
    } else {
        Some((num, den, pos))
    }
}

/// An unsigned numeric literal: magnitude `num/den` and end position.
fn unsigned_number(s: &[u8], pos: usize) -> (r: Option<(i64, i64, usize)>)
    ensures
        match r {
            Some((n, d, p)) => sp_number(s@, pos as int) == Some((n as int, d as int, p as int))
                && 0 <= n && 1 <= d,
            None => sp_number(s@, pos as int) is None,
        },
{
    if pos < s.len() && ZERO <= s[pos] && s[pos] <= NINE {
        match digit_acc(s, pos, 0) {
            None => None,
            Some((whole, j)) => {
                if j < s.len() && s[j] == DOT && j + 1 < s.len() && ZERO <= s[j + 1] && s[j + 1] <= NINE {
                    frac_acc(s, j + 1, whole, 1)
                } else {
                    Some((whole, 1, j))
                }
            },
        }
    } else {
        None
    }
}

/// A signed numeric literal: sign run, then digits.
pub fn number_parser(s: &[u8], pos: usize) -> (r: Option<(Number, usize)>)
    ensures
        match r {
            Some((n, p)) => sp_signed_number(s@, pos as int) == Some(
                (n.neg, n.num as int, n.den as int, p as int),
            ) && n.wf(),
            None => sp_signed_number(s@, pos as int) is None,
        },
{
    let (neg, j) = sign_run(s, pos);
    match unsigned_number(s, j) {
        None => None,
        Some((num, den, e)) => Some((Number { neg, num, den }, e)),
    }
}

/// A signed variable reference: sign run, then letters.
pub fn variable_parser(s: &[u8], pos: usize) -> (r: Option<(Variable, usize)>)
    ensures
        match r {
            Some((v, p)) => sp_variable(s@, pos as int) == Some((v.neg, v.name@, p as int)),
            None => sp_variable(s@, pos as int) is None,
        },
{
    let (neg, j) = sign_run(s, pos);
    let e = alpha_end(s, j);
    if e > j {
        let name = copy_bytes(s, j, e);
        Some((Variable { neg, name }, e))
    } else {
        None
    }
}

/// An additive operator token.
pub fn add_sub_operator_parser(s: &[u8], pos: usize) -> (r: Option<(Operator, usize)>)
    ensures
        match r {
            Some((op, p)) => sp_add_sub_op(s@, pos as int) == Some((op, p as int)),
            None => sp_add_sub_op(s@, pos as int) is None,
        },
{
    if pos < s.len() && s[pos] == PLUS {
        Some((Operator::Addition, pos + 1))
    } else if pos < s.len() && s[pos] == MINUS {
        Some((Operator::Subtraction, pos + 1))
    } else {
        None
    }
}

/// A multiplicative operator token.
pub fn multi_div_operator_parser(s: &[u8], pos: usize) -> (r: Option<(Operator, usize)>)
    ensures
        match r {
            Some((op, p)) => sp_mul_div_op(s@, pos as int) == Some((op, p as int)),
            None => sp_mul_div_op(s@, pos as int) is None,
        },
{
    if pos < s.len() && s[pos] == STAR {
        Some((Operator::Multiplication, pos + 1))
    } else if pos < s.len() && s[pos] == SLASH {
        Some((Operator::Division, pos + 1))
    } else {
        None
    }
}

/// An atom: variable, number, or signed parenthesized group.
pub fn branching_parser(s: &[u8], pos: usize, fuel: u64) -> (r: Option<(Equation, usize)>)
    ensures
        match r {
            Some((e, p)) => sp_atom(s@, pos as int, fuel as nat) == Some((e@, p as int))
                && e.wf(),
            None => sp_atom(s@, pos as int, fuel as nat) is None,
        },
    decreases fuel,
{
    match variable_parser(s, pos) {
        Some((v, p)) => Some((Equation::Variable(v), p)),
        None => match number_parser(s, pos) {
            Some((n, p)) => Some((Equation::Number(n), p)),
            None => {
                let (neg, j) = sign_run(s, pos);
                if j < s.len() && s[j] == LPAREN && fuel > 0 {
                    match equation_parser(s, j + 1, fuel - 1) {
                        None => None,
                        Some((inner, k)) => {
                            if k < s.len() && s[k] == RPAREN {
                                if neg {
                                    let minus_one = Equation::Number(
                                        Number { neg: true, num: 1, den: 1 },
                                    );
                                    proof {
                                        assert(minus_one@ == Ast::Num { neg: true, num: 1, den: 1 });
                                        assert(ast_wf(minus_one@));
                                    }
                                    Some(
                                        (
                                            Equation::Part(
                                                Box::new(
                                                    Operation {
                                                        left: minus_one,
                                                        operator: Operator::Multiplication,
                                                        right: inner,
                                                    },
                                                ),
                                            ),
                                            k + 1,
                                        ),
                                    )
                                } else {
                                    Some((inner, k + 1))
                                }
                            } else {
                                None
                            }
                        },
                    }
                } else {
                    None
                }
            },
        },
    }
}

/// The left fold of `( mul_div_op atom )*` onto `acc`.
fn mul_tail(s: &[u8], pos: usize, acc: Equation, fuel: u64) -> (r: Option<(Equation, usize)>)
    requires
        acc.wf(),
    ensures
        match r {
            Some((e, p)) => sp_mul_tail(s@, pos as int, acc@, fuel as nat) == Some(
                (e@, p as int),
            ) && e.wf(),
            None => sp_mul_tail(s@, pos as int, acc@, fuel as nat) is None,
        },
    decreases fuel,
{
    match multi_div_operator_parser(s, pos) {
        None => Some((acc, pos)),
        Some((op, p2)) => {
            if fuel == 0 {
                None
            } else {
                match branching_parser(s, p2, fuel - 1) {
                    None => Some((acc, pos)),
                    Some((rhs, j)) => mul_tail(
                        s,
                        j,
                        Equation::Part(Box::new(Operation { left: acc, operator: op, right: rhs })),
                        fuel - 1,
                    ),
                }
            }
        },
    }
}

/// The multiplicative level: an atom and its left-folded tail.
pub fn multi_div_equation_parser(s: &[u8], pos: usize, fuel: u64) -> (r: Option<(Equation, usize)>)
    ensures
        match r {
            Some((e, p)) => sp_mult(s@, pos as int, fuel as nat) == Some((e@, p as int))
                && e.wf(),
            None => sp_mult(s@, pos as int, fuel as nat) is None,
        },
    decreases fuel,
{
    if fuel == 0 {
        None
    } else {
        match branching_parser(s, pos, fuel - 1) {
            None => None,
            Some((first, j)) => mul_tail(s, j, first, fuel - 1),
        }
    }
}

/// The left fold of `( add_sub_op multiplicative )*` onto `acc`.
fn add_tail(s: &[u8], pos: usize, acc: Equation, fuel: u64) -> (r: Option<(Equation, usize)>)
    requires
        acc.wf(),
    ensures
        match r {
            Some((e, p)) => sp_add_tail(s@, pos as int, acc@, fuel as nat) == Some(
                (e@, p as int),
            ) && e.wf(),
            None => sp_add_tail(s@, pos as int, acc@, fuel as nat) is None,
        },
    decreases fuel,
{
    match add_sub_operator_parser(s, pos) {
        None => Some((acc, pos)),
        Some((op, p2)) => {
            if fuel == 0 {
                None
            } else {
                match multi_div_equation_parser(s, p2, fuel - 1) {
                    None => Some((acc, pos)),
                    Some((rhs, j)) => add_tail(
                        s,
                        j,
                        Equation::Part(Box::new(Operation { left: acc, operator: op, right: rhs })),
                        fuel - 1,
                    ),
                }
            }
        },
    }
}

/// The additive level, the top of the expression grammar.
pub fn equation_parser(s: &[u8], pos: usize, fuel: u64) -> (r: Option<(Equation, usize)>)
    ensures
        match r {
            Some((e, p)) => sp_additive(s@, pos as int, fuel as nat) == Some((e@, p as int))
                && e.wf(),
            None => sp_additive(s@, pos as int, fuel as nat) is None,
        },
    decreases fuel,
{
    if fuel == 0 {
        None
    } else {
        match multi_div_equation_parser(s, pos, fuel - 1) {
            None => None,
            Some((first, j)) => add_tail(s, j, first, fuel - 1),
        }
    }
}

/// An assignment line: a variable name, `=`, and an additive expression.
pub fn expression_parser(s: &[u8], pos: usize, fuel: u64) -> (r: Option<(Vec<u8>, Equation, usize)>)
    ensures
        match r {
            Some((name, e, p)) => sp_expression(s@, pos as int, fuel as nat) == Some(
                (name@, e@, p as int),
            ) && e.wf(),
            None => sp_expression(s@, pos as int, fuel as nat) is None,
        },
{
    let e = alpha_end(s, pos);
    if e > pos && e < s.len() && s[e] == EQUALS {
        match equation_parser(s, e + 1, fuel) {
            None => None,
            Some((eq, j)) => {
                let name = copy_bytes(s, pos, e);
                Some((name, eq, j))
            },
        }
    } else {
        None
    }
}


/// The count of `-` tokens in `s[i..j)`.
pub open spec fn minus_count(s: Seq<u8>, i: int, j: int) -> int
    decreases j - i,
{
    if i < j {
        (if s[i] == MINUS {
            1int
        } else {
            0int
        }) + minus_count(s, i + 1, j)
    } else {
        0
    }
}

/// Sign parity: a run of sign tokens is effectively negative iff the
/// count of its `-` tokens is odd, whatever their order and however
/// many `+` tokens stand among them.
pub proof fn lemma_sign_parity(s: Seq<u8>, i: int)
    ensures
        i <= sp_signs(s, i).1,
        sp_signs(s, i).0 == (minus_count(s, i, sp_signs(s, i).1) % 2 == 1),
    decreases s.len() - i,
{
    if 0 <= i < s.len() && is_sign_byte(s[i]) {
        lemma_sign_parity(s, i + 1);
    }
}

} // verus!
