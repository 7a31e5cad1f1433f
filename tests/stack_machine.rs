use powchain::interpreter::{ExecutionError, Instruction, Interpreter};
use powchain::interpreter::Instruction::{
    Value, ADD, AND, DIV, EQ, GT, JUMP, JUMPI, LT, MUL, OR, PUSH, STOP, SUB,
};

fn run(code: Vec<Instruction>) -> Result<i32, ExecutionError> {
    let mut i = Interpreter::new();
    i.run_code(code)
}

#[test]
fn add_and_stop() {
    assert_eq!(run(vec![PUSH, Value(2), PUSH, Value(3), ADD, STOP]), Ok(5));
}

#[test]
fn operand_order() {
    assert_eq!(run(vec![PUSH, Value(2), PUSH, Value(5), SUB, STOP]), Ok(3));
    assert_eq!(run(vec![PUSH, Value(2), PUSH, Value(10), DIV, STOP]), Ok(5));
    assert_eq!(run(vec![PUSH, Value(2), PUSH, Value(10), MUL, STOP]), Ok(20));
    assert_eq!(run(vec![PUSH, Value(2), PUSH, Value(1), LT, STOP]), Ok(1));
    assert_eq!(run(vec![PUSH, Value(2), PUSH, Value(1), GT, STOP]), Ok(0));
    assert_eq!(run(vec![PUSH, Value(2), PUSH, Value(2), EQ, STOP]), Ok(1));
    assert_eq!(run(vec![PUSH, Value(0), PUSH, Value(2), AND, STOP]), Ok(0));
    assert_eq!(run(vec![PUSH, Value(0), PUSH, Value(2), OR, STOP]), Ok(1));
}

#[test]
fn errors() {
    assert_eq!(run(vec![]), Err(ExecutionError::ProgramComplete));
    assert_eq!(run(vec![PUSH, Value(1)]), Err(ExecutionError::ProgramComplete));
    assert_eq!(run(vec![STOP]), Err(ExecutionError::FinishedEmptyStack));
    assert_eq!(run(vec![PUSH, Value(1), ADD]), Err(ExecutionError::EmptyStack));
    assert_eq!(run(vec![PUSH]), Err(ExecutionError::PushLast));
    assert_eq!(run(vec![PUSH, ADD]), Err(ExecutionError::PushLast));
    assert_eq!(run(vec![PUSH, Value(-1), JUMP]), Err(ExecutionError::InvalidJump));
    assert_eq!(run(vec![JUMP]), Err(ExecutionError::EmptyStack));
    assert_eq!(run(vec![PUSH, Value(0), JUMP]), Err(ExecutionError::LimitExceeded));
    assert_eq!(run(vec![PUSH, Value(0), PUSH, Value(1), DIV]), Err(ExecutionError::InvalidArithmetic));
    assert_eq!(
        run(vec![PUSH, Value(1), PUSH, Value(i32::MAX), ADD]),
        Err(ExecutionError::InvalidArithmetic)
    );
}

#[test]
fn conditional_jump() {
    assert_eq!(
        run(vec![PUSH, Value(6), PUSH, Value(1), JUMPI, STOP, PUSH, Value(9), STOP]),
        Ok(9)
    );
    assert_eq!(
        run(vec![PUSH, Value(6), PUSH, Value(0), JUMPI, PUSH, Value(4), STOP, PUSH, Value(9), STOP]),
        Ok(4)
    );
}
