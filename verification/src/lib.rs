//! A verified calculator for textual arithmetic expressions.
//!
//! The library parses an expression string (integer or decimal literals,
//! runs of unary `+`/`-` signs, the four basic operators, parentheses, and
//! variable references bound by `name=<expression>` lines) into an
//! [`ast::Equation`] tree, and evaluates that tree to an exact rational
//! number.  Results are rendered in decimal form where the decimal
//! expansion terminates, and as a reduced fraction `p/q` otherwise.
//!
//! Design decisions this crate fixes (the behaviour is stated in the
//! contracts):
//! - Arithmetic is exact rational arithmetic over `i64` numerator and
//!   denominator; an intermediate outside that range is reported as
//!   [`eval::EvalError::Overflow`].
//! - Division by zero is a hard error, [`eval::EvalError::DivisionByZero`].
//! - Variable resolution is lazy: an assignment binds the unevaluated
//!   expression, and a reference is expanded at evaluation time.  A chain
//!   of nested expansions longer than the number of bindings can only
//!   arise from a reference cycle, so evaluation carries a depth budget
//!   equal to the number of bindings and reports a longer chain as
//!   [`eval::EvalError::DepthExceeded`].

pub mod ast;
pub mod eval;
pub mod parse;
pub mod render;
pub mod run;

pub use run::{process, run_program, test_process, try_process, CalcError};
