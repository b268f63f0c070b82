//! The drivers: whitespace stripping, single-expression evaluation, and
//! the line-oriented program mode that builds the variable environment
//! from assignment lines while evaluating expression lines against the
//! environment as it stands at that point.

use vstd::prelude::*;

use crate::ast::{Ast, Equation};
use crate::eval::{env_wf, spec_eval, Environment, EvalError, Outcome};
use crate::parse::{
    copy_bytes, equation_parser, expression_parser, sp_additive, sp_expression, EQUALS,
};
use crate::render::render_value;

verus! {

pub const SPACE: u8 = 32;

pub const NEWLINE: u8 = 10;

pub const CARRIAGE_RETURN: u8 = 13;

/// Why processing an input failed.
#[derive(Debug, PartialEq, Eq, Structural, Clone, Copy)]
pub enum CalcError {
    /// The input does not match the grammar, or a line was not consumed
    /// to its end.
    Syntax,
    UndefinedVariable,
    DivisionByZero,
    DepthExceeded,
    Overflow,
}

/// The bytes of an ASCII text, code point for code point.
pub open spec fn ascii_bytes(s: Seq<char>) -> Seq<u8> {
    Seq::new(s.len(), |i: int| s[i] as u8)
}

/// The parser's fuel budget: effectively unbounded for any input that
/// fits in memory.
pub open spec fn parse_fuel() -> nat {
    u64::MAX as nat
}

pub open spec fn strip_from(s: Seq<u8>, i: int, acc: Seq<u8>) -> Seq<u8>
    decreases s.len() - i,
{
    if 0 <= i < s.len() {
        strip_from(s, i + 1, if s[i] == SPACE {
            acc
        } else {
            acc.push(s[i])
        })
    } else {
        acc
    }
}

/// The input with every space removed: whitespace is insignificant to
/// the grammar.
pub open spec fn sp_strip(s: Seq<u8>) -> Seq<u8> {
    strip_from(s, 0, Seq::empty())
}

/// Remove every space byte.
fn strip_spaces(s: &[u8]) -> (v: Vec<u8>)
    ensures
        v@ == sp_strip(s@),
{
    let mut v: Vec<u8> = Vec::new();
    let mut i: usize = 0;
    while i < s.len()
        invariant
            i <= s@.len(),
            sp_strip(s@) == strip_from(s@, i as int, v@),
        decreases s@.len() - i,
    {
        if s[i] != SPACE {
            v.push(s[i]);
        }
        i += 1;
    }
    v
}

/// The position of the first newline at or after `i`, or the length.
pub open spec fn nl_pos(s: Seq<u8>, i: int) -> int
    decreases s.len() - i,
{
    if 0 <= i < s.len() {
        if s[i] == NEWLINE {
            i
        } else {
            nl_pos(s, i + 1)
        }
    } else {
        s.len() as int
    }
}

proof fn lemma_nl_pos_bounds(s: Seq<u8>, i: int)
    requires
        0 <= i <= s.len(),
    ensures
        i <= nl_pos(s, i) <= s.len(),
    decreases s.len() - i,
{
    if i < s.len() && s[i] != NEWLINE {
        lemma_nl_pos_bounds(s, i + 1);
    }
}

/// Mirror of [`nl_pos`].
fn find_nl(s: &[u8], pos: usize) -> (r: usize)
    requires
        pos <= s@.len(),
    ensures
        r as int == nl_pos(s@, pos as int),
        pos <= r <= s@.len(),
    decreases s@.len() - pos,
{
    if pos < s.len() {
        if s[pos] == NEWLINE {
            pos
        } else {
            find_nl(s, pos + 1)
        }
    } else {
        pos
    }
}

/// A line with a trailing carriage return dropped, as `str::lines`
/// treats a `\r\n` ending.
pub open spec fn strip_cr(l: Seq<u8>) -> Seq<u8> {
    if l.len() > 0 && l.last() == CARRIAGE_RETURN {
        l.drop_last()
    } else {
        l
    }
}

/// Whether the line holds an `=` and is therefore an assignment line.
pub open spec fn has_eq(l: Seq<u8>) -> bool {
    exists|k: int| 0 <= k < l.len() && l[k] == EQUALS
}

/// Mirror of [`has_eq`].
fn contains_eq(l: &[u8]) -> (r: bool)
    ensures
        r == has_eq(l@),
{
    let mut i: usize = 0;
    while i < l.len()
        invariant
            i <= l@.len(),
            forall|k: int| 0 <= k < i ==> l@[k] != EQUALS,
        decreases l@.len() - i,
    {
        if l[i] == EQUALS {
            return true;
        }
        i += 1;
    }
    false
}

/// The translation of an evaluation error.
pub open spec fn calc_of_eval(o: Outcome) -> CalcError {
    match o {
        Outcome::Rational { .. } => CalcError::Syntax,  // never used for a success
        Outcome::Undefined => CalcError::UndefinedVariable,
        Outcome::DivisionByZero => CalcError::DivisionByZero,
        Outcome::DepthExceeded => CalcError::DepthExceeded,
        Outcome::Overflow => CalcError::Overflow,
    }
}

/// What the program mode returns on the space-stripped input from
/// position `i`, with the bindings in `env`: each line up to a newline
/// (a trailing carriage return dropped, an empty line skipped) is
/// either an assignment `name=<expression>`, which binds the
/// unevaluated expression, or an expression, which is evaluated under
/// the bindings in force at that line with a depth budget equal to
/// their number, and whose rendering is appended to the output.  A line
/// that does not match the grammar, or is not consumed to its end, is a
/// syntax error; the first error ends the run.
/// What one non-empty line contributes: an assignment line binds its
/// unevaluated expression and appends nothing; an expression line is
/// evaluated under the bindings in force, with a depth budget equal to
/// their number, and appends its rendering.  A line that does not match
/// the grammar, or is not consumed to its end, is a syntax error.
#[verifier::opaque]
pub open spec fn sp_line(line: Seq<u8>, env: Seq<(Seq<u8>, Ast)>) -> Result<
    (Seq<u8>, Seq<(Seq<u8>, Ast)>),
    CalcError,
> {
    if has_eq(line) {
        match sp_expression(line, 0, parse_fuel()) {
            None => Err(CalcError::Syntax),
            Some((name, a, p)) => if p != line.len() {
                Err(CalcError::Syntax)
            } else {
                Ok((Seq::empty(), env.push((name, a))))
            },
        }
    } else {
        match sp_additive(line, 0, parse_fuel()) {
            None => Err(CalcError::Syntax),
            Some((a, p)) => if p != line.len() {
                Err(CalcError::Syntax)
            } else {
                match spec_eval(a, env, env.len()) {
                    Outcome::Rational { num, den } => Ok((render_value(num, den), env)),
                    stop => Err(calc_of_eval(stop)),
                }
            },
        }
    }
}

#[verifier::opaque]
pub open spec fn sp_run(b: Seq<u8>, i: int, env: Seq<(Seq<u8>, Ast)>) -> Result<
    Seq<u8>,
    CalcError,
>
    decreases b.len() - i + 1,
        via sp_run_decreases
{
    if !(0 <= i < b.len()) {
        Ok(Seq::empty())
    } else {
        let j = nl_pos(b, i);
        let line = strip_cr(b.subrange(i, j));
        if line.len() == 0 {
            sp_run(b, j + 1, env)
        } else {
            match sp_line(line, env) {
                Err(e) => Err(e),
                Ok((add, env2)) => match sp_run(b, j + 1, env2) {
                    Ok(rest) => Ok(add + rest),
                    Err(e) => Err(e),
                },
            }
        }
    }
}

#[via_fn]
proof fn sp_run_decreases(b: Seq<u8>, i: int, env: Seq<(Seq<u8>, Ast)>) {
    if 0 <= i < b.len() {
        lemma_nl_pos_bounds(b, i);
    }
}

/// What evaluating one whole expression returns on the raw ASCII bytes
/// of the input: strip spaces, parse the full string as one additive
/// expression, evaluate it with no variables in scope, and render the
/// result.
pub open spec fn sp_calc(b: Seq<u8>) -> Result<Seq<u8>, CalcError> {
    let c = sp_strip(b);
    match sp_additive(c, 0, parse_fuel()) {
        None => Err(CalcError::Syntax),
        Some((a, p)) => if p != c.len() {
            Err(CalcError::Syntax)
        } else {
            match spec_eval(a, Seq::empty(), 0) {
                Outcome::Rational { num, den } => Ok(render_value(num, den)),
                stop => Err(calc_of_eval(stop)),
            }
        },
    }
}

/// Relies on `String::from_utf8`: a sequence of ASCII bytes is valid
/// UTF-8 and decodes to the characters with the same code points.
#[verifier::external_body]
fn ascii_to_string(bytes: Vec<u8>) -> (r: String)
    requires
        forall|i: int| 0 <= i < bytes@.len() ==> bytes@[i] < 128,
    ensures
        r@ == bytes@.map_values(|b: u8| b as char),
{
    String::from_utf8(bytes).unwrap()
}

/// Evaluate one expression string, reporting any failure as an error.
pub fn try_process(input: &str) -> (r: Result<String, CalcError>)
    ensures
        vstd::string::is_ascii(input) ==> match r {
            Ok(out) => sp_calc(ascii_bytes(input@)) matches Ok(bts) && out@ == bts.map_values(
                |b: u8| b as char,
            ),
            Err(e) => sp_calc(ascii_bytes(input@)) == Err::<Seq<u8>, CalcError>(e),
        },
        !vstd::string::is_ascii(input) ==> r == Err::<String, CalcError>(CalcError::Syntax),
{
    if !input.is_ascii() {
        return Err(CalcError::Syntax);
    }
    let bytes = input.as_bytes_vec();
    proof {
        broadcast use vstd::string::is_ascii_spec_bytes;

        assert(bytes@ =~= ascii_bytes(input@));
    }
    let clean = strip_spaces(bytes.as_slice());
    match equation_parser(clean.as_slice(), 0, u64::MAX) {
        None => Err(CalcError::Syntax),
        Some((eq, p)) => {
            if p != clean.len() {
                Err(CalcError::Syntax)
            } else {
                let env = Environment::new();
                match eq.solve(&env, 0) {
                    Ok(v) => {
                        let out = v.render_bytes();
                        Ok(ascii_to_string(out))
                    },
                    Err(EvalError::UndefinedVariable) => Err(CalcError::UndefinedVariable),
                    Err(EvalError::DivisionByZero) => Err(CalcError::DivisionByZero),
                    Err(EvalError::DepthExceeded) => Err(CalcError::DepthExceeded),
                    Err(EvalError::Overflow) => Err(CalcError::Overflow),
                }
            }
        },
    }
}

/// Evaluate one expression string that is known to be well formed.
pub fn process(input: &str) -> (r: String)
    requires
        vstd::string::is_ascii(input),
        sp_calc(ascii_bytes(input@)) is Ok,
    ensures
        sp_calc(ascii_bytes(input@)) matches Ok(bts) && r@ == bts.map_values(|b: u8| b as char),
{
    match try_process(input) {
        Ok(out) => out,
        Err(_) => vstd::pervasive::unreached(),
    }
}

/// Parse one expression string to its equation tree, ignoring what
/// follows the parsed prefix.
pub fn test_process(input: &str) -> (r: Equation)
    requires
        vstd::string::is_ascii(input),
        sp_additive(sp_strip(ascii_bytes(input@)), 0, parse_fuel()) is Some,
    ensures
        sp_additive(sp_strip(ascii_bytes(input@)), 0, parse_fuel()) matches Some((a, p)) && r@
            == a,
        r.wf(),
{
    let bytes = input.as_bytes_vec();
    proof {
        broadcast use vstd::string::is_ascii_spec_bytes;

        assert(bytes@ =~= ascii_bytes(input@));
    }
    let clean = strip_spaces(bytes.as_slice());
    match equation_parser(clean.as_slice(), 0, u64::MAX) {
        Some((eq, _p)) => eq,
        None => vstd::pervasive::unreached(),
    }
}

/// One non-empty line, mirroring [`sp_line`]: bind an assignment, or
/// evaluate an expression and append its rendering to `out`.
fn run_line(line: &[u8], env: &mut Environment, out: &mut Vec<u8>) -> (r: Result<(), CalcError>)
    requires
        env_wf(old(env)@),
        forall|i: int| 0 <= i < old(out)@.len() ==> old(out)@[i] < 128,
    ensures
        env_wf(final(env)@),
        forall|i: int| 0 <= i < final(out)@.len() ==> final(out)@[i] < 128,
        match r {
            Ok(u) => sp_line(line@, old(env)@) matches Ok((add, env2)) && final(env)@ == env2
                && final(out)@ == old(out)@ + add,
            Err(e) => sp_line(line@, old(env)@) == Err::<
                (Seq<u8>, Seq<(Seq<u8>, Ast)>),
                CalcError,
            >(e),
        },
{
    proof {
        reveal(sp_line);
    }
    if contains_eq(line) {
        match expression_parser(line, 0, u64::MAX) {
            None => Err(CalcError::Syntax),
            Some((name, eq, p)) => {
                if p != line.len() {
                    Err(CalcError::Syntax)
                } else {
                    let ghost env_before = env@;
                    env.insert(name, eq);
                    proof {
                        assert forall|i: int| 0 <= i < env@.len() implies crate::ast::ast_wf(
                            #[trigger] env@[i].1,
                        ) by {
                            if i < env_before.len() {
                                assert(env@[i] == env_before[i]);
                            }
                        }
                        assert(out@ + Seq::<u8>::empty() =~= out@);
                    }
                    Ok(())
                }
            },
        }
    } else {
        match equation_parser(line, 0, u64::MAX) {
            None => Err(CalcError::Syntax),
            Some((eq, p)) => {
                if p != line.len() {
                    Err(CalcError::Syntax)
                } else {
                    match eq.solve(env, env.len() as u64) {
                        Ok(v) => {
                            let mut rendered = v.render_bytes();
                            out.append(&mut rendered);
                            Ok(())
                        },
                        Err(EvalError::UndefinedVariable) => Err(CalcError::UndefinedVariable),
                        Err(EvalError::DivisionByZero) => Err(CalcError::DivisionByZero),
                        Err(EvalError::DepthExceeded) => Err(CalcError::DepthExceeded),
                        Err(EvalError::Overflow) => Err(CalcError::Overflow),
                    }
                }
            },
        }
    }
}

/// Run a whole program: assignment lines bind expressions, expression
/// lines evaluate under the bindings made so far, and the rendered
/// results are concatenated without a separator.
#[verifier::rlimit(100)]
pub fn run_program(input: &str) -> (r: Result<String, CalcError>)
    ensures
        vstd::string::is_ascii(input) ==> match r {
            Ok(out) => sp_run(sp_strip(ascii_bytes(input@)), 0, Seq::empty()) matches Ok(bts)
                && out@ == bts.map_values(|b: u8| b as char),
            Err(e) => sp_run(sp_strip(ascii_bytes(input@)), 0, Seq::empty()) == Err::<
                Seq<u8>,
                CalcError,
            >(e),
        },
        !vstd::string::is_ascii(input) ==> r == Err::<String, CalcError>(CalcError::Syntax),
{
    if !input.is_ascii() {
        return Err(CalcError::Syntax);
    }
    let bytes = input.as_bytes_vec();
    proof {
        broadcast use vstd::string::is_ascii_spec_bytes;

        assert(bytes@ =~= ascii_bytes(input@));
    }
    let clean = strip_spaces(bytes.as_slice());
    let ghost b = clean@;
    let mut env = Environment::new();
    let mut out: Vec<u8> = Vec::new();
    let mut pos: usize = 0;
    proof {
        match sp_run(b, 0, Seq::<(Seq<u8>, Ast)>::empty()) {
            Ok(rest) => {
                assert(Seq::<u8>::empty() + rest =~= rest);
            },
            Err(_) => {},
        }
    }
    while pos < clean.len()
        invariant
            vstd::string::is_ascii(input),
            b == sp_strip(ascii_bytes(input@)),
            pos <= b.len(),
            clean@ == b,
            env_wf(env@),
            forall|i: int| 0 <= i < out@.len() ==> out@[i] < 128,
            (match sp_run(b, pos as int, env@) {
                Ok(rest) => sp_run(b, 0, Seq::empty()) == Ok::<Seq<u8>, CalcError>(out@ + rest),
                Err(e) => sp_run(b, 0, Seq::empty()) == Err::<Seq<u8>, CalcError>(e),
            }),
        decreases b.len() - pos,
    {
        let j = find_nl(clean.as_slice(), pos);
        let line_end = if j > pos && clean[j - 1] == CARRIAGE_RETURN {
            j - 1
        } else {
            j
        };
        let line = copy_bytes(clean.as_slice(), pos, line_end);
        proof {
            assert(line@ =~= strip_cr(b.subrange(pos as int, j as int)));
        }
        let next = if j < clean.len() {
            j + 1
        } else {
            j
        };
        proof {
            reveal(sp_run);
            assert(sp_run(b, next as int, env@) == sp_run(b, j as int + 1, env@));
        }
        if line.len() == 0 {
            pos = next;
            continue ;
        }
        let ghost out_before = out@;
        let ghost env_before = env@;
        match run_line(line.as_slice(), &mut env, &mut out) {
            Err(e) => {
                proof {
                    reveal(sp_run);
                    assert(sp_run(b, pos as int, env_before) == Err::<Seq<u8>, CalcError>(e));
                }
                return Err(e);
            },
            Ok(()) => {
                proof {
                    reveal(sp_run);
                    let step = sp_line(line@, env_before);
                    assert(step matches Ok((add, env2)) && env@ == env2 && out@ == out_before
                        + add);
                    match step {
                        Ok((add, env2)) => {
                            match sp_run(b, j as int + 1, env2) {
                                Ok(rest) => {
                                    assert(out_before + (add + rest) =~= out@ + rest);
                                },
                                Err(_) => {},
                            }
                        },
                        Err(_) => {},
                    }
                }
            },
        }
        pos = next;
    }
    proof {
        reveal(sp_run);
        assert(sp_run(b, pos as int, env@) == Ok::<Seq<u8>, CalcError>(Seq::empty()));
        assert(out@ + Seq::<u8>::empty() =~= out@);
    }
    Ok(ascii_to_string(out))
}

} // verus!
