use std::collections::HashMap;

use jcalc::eval::EvalAction;
use jcalc::eval::EvalError;
use jcalc::eval::EvalMachine;
use jcalc::eval::method_for_operator;
use jcalc::eval::run_with_replies;
use jcalc::parse::parse_input;
use jcalc::parse::Expression;
use jcalc::parse::Operator;

/// Reference big-integer evaluation of a postfix program, truncating
/// division toward zero as the target's arbitrary-precision type does.
fn reference_eval(program: &[Expression]) -> i128 {
    let mut stack: Vec<i128> = Vec::new();
    for instr in program {
        match instr {
            Expression::Number(n) => stack.push(*n as i128),
            Expression::Binary(op) => {
                let b = stack.pop().expect("underflow");
                let a = stack.pop().expect("underflow");
                stack.push(match op {
                    Operator::Add => a + b,
                    Operator::Subtract => a - b,
                    Operator::Multiply => a * b,
                    Operator::Divide => a / b,
                });
            }
        }
    }
    assert_eq!(stack.len(), 1);
    stack[0]
}

#[test]
fn test_postfix_matches_infix_reference() {
    let cases: Vec<(&str, i128)> = vec![
        ("3 + 5 * (2 - 8)", 3 + 5 * (2 - 8)),
        ("2*3+4", 2 * 3 + 4),
        ("(1+2)*(3+4)", (1 + 2) * (3 + 4)),
        ("100-7*7", 100 - 7 * 7),
        ("1+2+3+4+5", 1 + 2 + 3 + 4 + 5),
        ("10 - 2 - 3", 10 - 2 - 3),
        ("2*(3+(4-1))*5", 2 * (3 + (4 - 1)) * 5),
        ("9223372036854775807 + 9223372036854775807", 9223372036854775807i128 * 2),
    ];
    for (text, expected) in cases {
        let program = parse_input(text).expect("parse");
        let got = reference_eval(&program);
        assert_eq!(format!("{}", got), format!("{}", expected), "input: {}", text);
    }
}

/// Drives the evaluator machine against a local simulation of the target:
/// each requested remote operation is performed on big integers held under
/// fresh handles, as the target itself would.
fn evaluate_against_simulated_target(text: &str) -> String {
    let program = parse_input(text).expect("parse");
    let mut machine = EvalMachine::new(program);
    let mut heap: HashMap<u64, i128> = HashMap::new();
    let mut next_handle: u64 = 100;
    loop {
        match machine.next_action().expect("stack discipline violated") {
            EvalAction::MakeOperand { literal } => {
                let h = next_handle;
                next_handle += 1;
                heap.insert(h, literal as i128);
                machine.apply_result(h);
            }
            EvalAction::Combine { op, left, right } => {
                let a = heap[&left];
                let b = heap[&right];
                let v = match op {
                    Operator::Add => a + b,
                    Operator::Subtract => a - b,
                    Operator::Multiply => a * b,
                    Operator::Divide => a / b,
                };
                let h = next_handle;
                next_handle += 1;
                heap.insert(h, v);
                machine.apply_result(h);
            }
            EvalAction::Finish { result } => {
                return format!("{}", heap[&result]);
            }
        }
    }
}

#[test]
fn test_evaluate_end_to_end() {
    assert_eq!(evaluate_against_simulated_target("2*3+4"), "10");
}

#[test]
fn test_evaluate_twice_same_result() {
    let first = evaluate_against_simulated_target("3 + 5 * (2 - 8)");
    let second = evaluate_against_simulated_target("3 + 5 * (2 - 8)");
    assert_eq!(first, "-27");
    assert_eq!(first, second);
}

#[test]
fn test_run_with_replies_is_deterministic() {
    let program = parse_input("1+2*3").expect("parse");
    let replies: Vec<u64> = vec![11, 12, 13, 14, 15];
    let first = run_with_replies(&program, &replies);
    let second = run_with_replies(&program, &replies);
    assert_eq!(first, second);
    // one reply per instruction: N1 N2 N3 Mul Add -> the final combine's
    // reply is the 15.
    assert_eq!(first, Ok(15));
}

#[test]
fn test_run_with_replies_underflow() {
    let program = vec![Expression::Binary(Operator::Add)];
    let replies: Vec<u64> = vec![1];
    assert_eq!(run_with_replies(&program, &replies), Err(EvalError::StackUnderflow));
}

#[test]
fn test_run_with_replies_missing_reply() {
    let program = parse_input("1+2").expect("parse");
    let replies: Vec<u64> = vec![7];
    assert_eq!(run_with_replies(&program, &replies), Err(EvalError::MissingReply));
}

#[test]
fn test_method_for_operator() {
    assert_eq!(method_for_operator(Operator::Add, 1, 2, 3, 4), 1);
    assert_eq!(method_for_operator(Operator::Subtract, 1, 2, 3, 4), 2);
    assert_eq!(method_for_operator(Operator::Multiply, 1, 2, 3, 4), 3);
    assert_eq!(method_for_operator(Operator::Divide, 1, 2, 3, 4), 4);
}

#[test]
fn test_machine_reports_underflow_on_ill_formed_program() {
    let machine = EvalMachine::new(vec![Expression::Binary(Operator::Multiply)]);
    assert_eq!(machine.next_action(), Err(EvalError::StackUnderflow));
}

#[test]
fn test_machine_requires_single_final_value() {
    // two literals and no operator: at the end two handles remain.
    let mut machine = EvalMachine::new(vec![Expression::Number(1), Expression::Number(2)]);
    match machine.next_action().expect("literal step") {
        EvalAction::MakeOperand { literal } => {
            assert_eq!(literal, 1);
            machine.apply_result(41);
        }
        _ => panic!("expected an operand request"),
    }
    match machine.next_action().expect("literal step") {
        EvalAction::MakeOperand { literal } => {
            assert_eq!(literal, 2);
            machine.apply_result(42);
        }
        _ => panic!("expected an operand request"),
    }
    assert_eq!(machine.next_action(), Err(EvalError::StackUnderflow));
}
