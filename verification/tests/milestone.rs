use calculator::ast::{Equation, Number, Operation, Operator};
use calculator::{process, test_process};

fn num(value: i64) -> Equation {
    Equation::Number(Number { neg: false, num: value, den: 1 })
}

fn part(left: Equation, operator: Operator, right: Equation) -> Equation {
    Equation::Part(Box::new(Operation { left, operator, right }))
}

#[test]
fn milestone_1() {
    assert_eq!(test_process("5"), num(5));
    assert_eq!(test_process("(5)"), num(5));
    assert_eq!(test_process("5 + 7"), part(num(5), Operator::Addition, num(7)));
    assert_eq!(test_process("(5 + 7)"), part(num(5), Operator::Addition, num(7)));
    assert_eq!(
        test_process("5 + 7 - 3"),
        part(part(num(5), Operator::Addition, num(7)), Operator::Subtraction, num(3))
    );
    assert_eq!(
        test_process("(5 + 7) - 3"),
        part(part(num(5), Operator::Addition, num(7)), Operator::Subtraction, num(3))
    );
    assert_eq!(
        test_process("5 + (7 - 3)"),
        part(num(5), Operator::Addition, part(num(7), Operator::Subtraction, num(3)))
    );
    assert_eq!(
        test_process("5 + ((7 + 1) - 3)"),
        part(
            num(5),
            Operator::Addition,
            part(
                part(num(7), Operator::Addition, num(1)),
                Operator::Subtraction,
                num(3)
            )
        )
    );
    assert_eq!(
        test_process("5 * (7 - 3)"),
        part(num(5), Operator::Multiplication, part(num(7), Operator::Subtraction, num(3)))
    );
    assert_eq!(
        test_process("5 + 7 - 3 + 2"),
        part(
            part(
                part(num(5), Operator::Addition, num(7)),
                Operator::Subtraction,
                num(3)
            ),
            Operator::Addition,
            num(2)
        )
    );
    assert_eq!(process("5 + 5 + 5 + 5"), "20".to_string());
    assert_eq!(process("7 - 5 + 1 - 3"), "0".to_string());
    assert_eq!(process("5 - 7"), "-2".to_string());
    assert_eq!(process("2 * 3"), "6".to_string());
    assert_eq!(process("2 * 3 + 1"), "7".to_string());
    assert_eq!(process("2 * 2 * 3 + 1"), "13".to_string());
    assert_eq!(process("2 + 1 * 3 / 3"), "3".to_string());
    assert_eq!(process("8 / 2"), "4".to_string());
    assert_eq!(process("-(3 - 2)"), "-1".to_string());
    assert_eq!(process("1 - -(5)"), "6".to_string());
    assert_eq!(process("5 + (3 + 7) * 99"), "995".to_string());
    assert_eq!(process("2 / 4"), "0.5".to_string());
}
