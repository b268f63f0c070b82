use calculator::ast::{Equation, Number, Operation, Operator};
use calculator::eval::Environment;
use calculator::{run_program, test_process, try_process, CalcError};

#[test]
fn precedence() {
    assert_eq!(try_process("2 + 1 * 3 / 3"), Ok("3".to_string()));
    assert_eq!(try_process("2 * 2 * 3 + 1"), Ok("13".to_string()));
}

#[test]
fn left_associativity() {
    assert_eq!(try_process("7 - 5 + 1 - 3"), Ok("0".to_string()));
    assert_eq!(try_process("8 / 2 / 2"), Ok("2".to_string()));
}

#[test]
fn sign_parity() {
    assert_eq!(try_process("-(3 - 2)"), Ok("-1".to_string()));
    assert_eq!(try_process("1 - -(5)"), Ok("6".to_string()));
    assert_eq!(try_process("--5"), Ok("5".to_string()));
    assert_eq!(try_process("---5"), Ok("-5".to_string()));
    assert_eq!(try_process("+-+-5"), Ok("5".to_string()));
    assert_eq!(try_process("--(2 + 3)"), Ok("5".to_string()));
}

#[test]
fn parenthesis_grouping() {
    assert_eq!(try_process("5 + (3 + 7) * 99"), Ok("995".to_string()));
}

#[test]
fn fractional_division() {
    assert_eq!(try_process("2 / 4"), Ok("0.5".to_string()));
    assert_eq!(try_process("1 / 8"), Ok("0.125".to_string()));
    assert_eq!(try_process("3 / 100"), Ok("0.03".to_string()));
}

#[test]
fn nonterminating_expansion_as_fraction() {
    assert_eq!(try_process("1 / 3"), Ok("1/3".to_string()));
    assert_eq!(try_process("8 / 89"), Ok("8/89".to_string()));
}

#[test]
fn decimal_literals() {
    assert_eq!(try_process("0.5 + 0.25"), Ok("0.75".to_string()));
    assert_eq!(try_process("1.5 * 2"), Ok("3".to_string()));
}

#[test]
fn left_deep_round_trip() {
    let five_seven = Equation::Part(Box::new(Operation {
        left: Equation::Number(Number { neg: false, num: 5, den: 1 }),
        operator: Operator::Addition,
        right: Equation::Number(Number { neg: false, num: 7, den: 1 }),
    }));
    let minus_three = Equation::Part(Box::new(Operation {
        left: five_seven,
        operator: Operator::Subtraction,
        right: Equation::Number(Number { neg: false, num: 3, den: 1 }),
    }));
    let plus_two = Equation::Part(Box::new(Operation {
        left: minus_three,
        operator: Operator::Addition,
        right: Equation::Number(Number { neg: false, num: 2, den: 1 }),
    }));
    assert_eq!(test_process("5 + 7 - 3 + 2"), plus_two);
}

#[test]
fn variable_resolution() {
    assert_eq!(run_program("x=2+3\nx*2"), Ok("10".to_string()));
}

#[test]
fn lazy_forward_reference() {
    assert_eq!(run_program("a=b\nb=5\na"), Ok("5".to_string()));
}

#[test]
fn reassignment_changes_later_lookups_only() {
    assert_eq!(run_program("a=1+2\na*2\na=10\na+1"), Ok("611".to_string()));
}

#[test]
fn undefined_variable() {
    assert_eq!(run_program("y*2"), Err(CalcError::UndefinedVariable));
    assert_eq!(try_process("x"), Err(CalcError::UndefinedVariable));
}

#[test]
fn reference_cycle_is_caught() {
    assert_eq!(run_program("a=a\na"), Err(CalcError::DepthExceeded));
    assert_eq!(run_program("a=b\nb=a\na+1"), Err(CalcError::DepthExceeded));
}

#[test]
fn division_by_zero() {
    assert_eq!(try_process("1 / 0"), Err(CalcError::DivisionByZero));
    assert_eq!(run_program("x=0\n5/x"), Err(CalcError::DivisionByZero));
}

#[test]
fn overflow_is_reported() {
    assert_eq!(try_process("9223372036854775807 + 1"), Err(CalcError::Overflow));
    assert_eq!(try_process("9223372036854775808"), Err(CalcError::Syntax));
}

#[test]
fn syntax_errors() {
    assert_eq!(try_process(""), Err(CalcError::Syntax));
    assert_eq!(try_process("2 +"), Err(CalcError::Syntax));
    assert_eq!(try_process("(5"), Err(CalcError::Syntax));
    assert_eq!(try_process("2 * "), Err(CalcError::Syntax));
    assert_eq!(try_process("5)"), Err(CalcError::Syntax));
    assert_eq!(run_program("a=\n1"), Err(CalcError::Syntax));
}

#[test]
fn program_lines_and_blank_lines() {
    assert_eq!(run_program("a = 1 + 2\n\na * 2\r\na = 10\na + 1\n"), Ok("611".to_string()));
    assert_eq!(run_program(""), Ok("".to_string()));
}

#[test]
fn negative_results_render_with_sign() {
    assert_eq!(try_process("5 - 7"), Ok("-2".to_string()));
    assert_eq!(try_process("-1 / 2"), Ok("-0.5".to_string()));
}

#[test]
fn direct_environment_evaluation() {
    let mut env = Environment::new();
    env.insert(b"x".to_vec(), test_process("2 + 3"));
    let equation = test_process("x * 2");
    let value = equation.solve(&env, 1).unwrap();
    assert_eq!((value.num, value.den), (10, 1));
    assert_eq!(String::from_utf8(value.render_bytes()).unwrap(), "10");
}
