//! A small stack machine, independent of the ledger. Programs are sequences
//! of instructions over a stack of `i32` values.
use vstd::prelude::*;

verus! {

#[derive(Debug, Clone, Copy, PartialEq, Eq)]
pub enum ExecutionError {
    ProgramComplete,
    InvalidJump,
    EmptyStack,
    LimitExceeded,
    PushLast,
    FinishedEmptyStack,
    /// An arithmetic instruction overflowed or divided by zero.
    InvalidArithmetic,
}

#[allow(non_camel_case_types)]
#[derive(Debug, Clone, Copy, PartialEq, Eq)]
pub enum Instruction {
    STOP,
    ADD,
    PUSH,
    SUB,
    MUL,
    DIV,
    AND,
    OR,
    GT,
    LT,
    EQ,
    JUMP,
    JUMPI,
    Value(i32),
}

/// The number of steps a fresh interpreter may take.
pub const EXECUTION_LIMIT: i32 = 100000;

/// The abstract state of an interpreter.
pub struct MachineState {
    pub stack: Seq<i32>,
    pub code: Seq<Instruction>,
    pub pc: int,
    pub limit: int,
    pub count: int,
}

/// The instructions that pop two operands and push one result.
pub open spec fn is_binary(op: Instruction) -> bool {
    match op {
        Instruction::ADD | Instruction::SUB | Instruction::MUL | Instruction::DIV
        | Instruction::AND | Instruction::OR | Instruction::GT | Instruction::LT
        | Instruction::EQ => true,
        _ => false,
    }
}

/// The result of a binary instruction on `a` (popped first) and `b`;
/// `None` on overflow or division by zero.
pub open spec fn binary_result(op: Instruction, a: i32, b: i32) -> Option<i32> {
    match op {
        Instruction::ADD => a.checked_add(b),
        Instruction::SUB => a.checked_sub(b),
        Instruction::MUL => a.checked_mul(b),
        Instruction::DIV => a.checked_div(b),
        Instruction::AND => Some(if a != 0 && b != 0 { 1i32 } else { 0i32 }),
        Instruction::OR => Some(if a != 0 || b != 0 { 1i32 } else { 0i32 }),
        Instruction::GT => Some(if a > b { 1i32 } else { 0i32 }),
        Instruction::LT => Some(if a < b { 1i32 } else { 0i32 }),
        _ => Some(if a == b { 1i32 } else { 0i32 }),
    }
}

/// Pops a destination and moves there: the state after, and the error if
/// the stack was empty or the destination negative.
pub open spec fn jump_step(s: MachineState) -> (MachineState, Option<ExecutionError>) {
    if s.stack.len() == 0 {
        (s, Some(ExecutionError::EmptyStack))
    } else {
        let dest = s.stack.last();
        let popped = MachineState { stack: s.stack.drop_last(), ..s };
        if dest < 0 {
            (popped, Some(ExecutionError::InvalidJump))
        } else {
            (MachineState { pc: dest as int, ..popped }, None)
        }
    }
}

/// One instruction, the one at `s.pc`: the state after, and the outcome
/// when the run ends there.
pub open spec fn step(s: MachineState) -> (MachineState, Option<Result<i32, ExecutionError>>) {
    let op = s.code[s.pc];
    let next = MachineState { pc: s.pc + 1, ..s };
    if op == Instruction::STOP {
        if s.stack.len() > 0 {
            (s, Some(Ok(s.stack.last())))
        } else {
            (s, Some(Err(ExecutionError::FinishedEmptyStack)))
        }
    } else if is_binary(op) {
        if s.stack.len() == 0 {
            (s, Some(Err(ExecutionError::EmptyStack)))
        } else if s.stack.len() == 1 {
            (MachineState { stack: Seq::empty(), ..s }, Some(Err(ExecutionError::EmptyStack)))
        } else {
            let a = s.stack.last();
            let b = s.stack.drop_last().last();
            let rest = s.stack.drop_last().drop_last();
            match binary_result(op, a, b) {
                Some(v) => (MachineState { stack: rest.push(v), ..next }, None),
                None => (
                    MachineState { stack: rest, ..s },
                    Some(Err(ExecutionError::InvalidArithmetic)),
                ),
            }
        }
    } else if op == Instruction::PUSH {
        if s.pc + 1 < s.code.len() && s.code[s.pc + 1] is Value {
            (
                MachineState { stack: s.stack.push(s.code[s.pc + 1]->Value_0), pc: s.pc + 2, ..s },
                None,
            )
        } else {
            (next, Some(Err(ExecutionError::PushLast)))
        }
    } else if op == Instruction::JUMP {
        let (j, e) = jump_step(s);
        match e {
            Some(err) => (j, Some(Err(err))),
            None => (j, None),
        }
    } else if op == Instruction::JUMPI {
        if s.stack.len() == 0 {
            (s, Some(Err(ExecutionError::EmptyStack)))
        } else {
            let popped = MachineState { stack: s.stack.drop_last(), ..s };
            if s.stack.last() != 0 {
                let (j, e) = jump_step(popped);
                match e {
                    Some(err) => (j, Some(Err(err))),
                    None => (j, None),
                }
            } else {
                (MachineState { pc: s.pc + 1, ..popped }, None)
            }
        }
    } else {
        (next, None)
    }
}

/// Runs from `s` until an instruction ends the run, the program counter
/// leaves the code, or the step count passes the limit.
pub open spec fn run(s: MachineState) -> (MachineState, Result<i32, ExecutionError>)
    decreases s.limit - s.count,
{
    if s.pc < 0 || s.pc >= s.code.len() {
        (s, Err(ExecutionError::ProgramComplete))
    } else {
        let counted = MachineState { count: s.count + 1, ..s };
        if counted.count > s.limit {
            (counted, Err(ExecutionError::LimitExceeded))
        } else {
            let (t, outcome) = step(counted);
            match outcome {
                Some(r) => (t, r),
                None => run(MachineState { count: counted.count, ..t }),
            }
        }
    }
}

/// The result of a binary instruction; `None` on overflow or division by
/// zero.
fn apply_binary(op: Instruction, a: i32, b: i32) -> (r: Option<i32>)
    requires
        is_binary(op),
    ensures
        r == binary_result(op, a, b),
{
    match op {
        Instruction::ADD => a.checked_add(b),
        Instruction::SUB => a.checked_sub(b),
        Instruction::MUL => a.checked_mul(b),
        Instruction::DIV => a.checked_div(b),
        Instruction::AND => Some(if a != 0 && b != 0 { 1 } else { 0 }),
        Instruction::OR => Some(if a != 0 || b != 0 { 1 } else { 0 }),
        Instruction::GT => Some(if a > b { 1 } else { 0 }),
        Instruction::LT => Some(if a < b { 1 } else { 0 }),
        _ => Some(if a == b { 1 } else { 0 }),
    }
}

pub struct Interpreter {
    stack: Vec<i32>,
    code: Vec<Instruction>,
    program_counter: i32,
    execution_limit: i32,
    execution_count: i32,
}

impl View for Interpreter {
    type V = MachineState;

    closed spec fn view(&self) -> MachineState {
        MachineState {
            stack: self.stack@,
            code: self.code@,
            pc: self.program_counter as int,
            limit: self.execution_limit as int,
            count: self.execution_count as int,
        }
    }
}

impl Interpreter {
    /// The states that `run_code` accepts.
    pub open spec fn wf(&self) -> bool {
        &&& self@.pc >= 0
        &&& 0 <= self@.count < i32::MAX
        &&& 0 <= self@.limit < i32::MAX
    }

    /// An interpreter with no code, an empty stack and the default limit.
    pub fn new() -> (r: Interpreter)
        ensures
            r@ == (MachineState {
                stack: Seq::empty(),
                code: Seq::empty(),
                pc: 0,
                limit: EXECUTION_LIMIT as int,
                count: 0,
            }),
            r.wf(),
    {
        let r = Interpreter {
            code: Vec::new(),
            stack: Vec::new(),
            program_counter: 0,
            execution_limit: EXECUTION_LIMIT,
            execution_count: 0,
        };
        assert(r@.stack =~= Seq::<i32>::empty());
        assert(r@.code =~= Seq::<Instruction>::empty());
        r
    }

    fn pop_stack(&mut self) -> (r: Option<i32>)
        ensures
            r == (if old(self)@.stack.len() > 0 {
                Some(old(self)@.stack.last())
            } else {
                None::<i32>
            }),
            final(self)@ == (MachineState {
                stack: if old(self)@.stack.len() > 0 {
                    old(self)@.stack.drop_last()
                } else {
                    old(self)@.stack
                },
                ..old(self)@
            }),
    {
        let r = self.stack.pop();
        proof {
            if old(self)@.stack.len() > 0 {
                assert(self.stack@ =~= old(self)@.stack.drop_last());
            }
        }
        r
    }

    /// Pops a destination and sets the program counter to one before it, so
    /// that the usual advance lands on it.
    fn jump(&mut self) -> (r: Result<(), ExecutionError>)
        requires
            old(self)@.pc >= 0,
        ensures
            ({
                let (j, e) = jump_step(old(self)@);
                &&& e is None ==> r is Ok && final(self)@ == (MachineState { pc: j.pc - 1, ..j })
                &&& e matches Some(err) ==> r == Err::<(), ExecutionError>(err) && final(self)@ == j
            }),
    {
        let destination = self.pop_stack();
        match destination {
            Some(destination) => {
                if destination < 0 {
                    Err(ExecutionError::InvalidJump)
                } else {
                    self.program_counter = destination - 1;
                    Ok(())
                }
            },
            None => Err(ExecutionError::EmptyStack),
        }
    }

    /// Loads `new_code` and runs it from the current program counter, stack
    /// and step count.
    pub fn run_code(&mut self, new_code: Vec<Instruction>) -> (r: Result<i32, ExecutionError>)
        requires
            old(self).wf(),
            new_code@.len() < i32::MAX,
        ensures
            (final(self)@, r) == run(MachineState { code: new_code@, ..old(self)@ }),
    {
        self.code = new_code;
        self.execute()
    }

    /// Runs the loaded code.
    fn execute(&mut self) -> (r: Result<i32, ExecutionError>)
        requires
            old(self).wf(),
            old(self)@.code.len() < i32::MAX,
        ensures
            (final(self)@, r) == run(old(self)@),
    {
        while self.program_counter < self.code.len() as i32
            invariant
                self@.code == old(self)@.code,
                self@.limit == old(self)@.limit,
                self@.code.len() < i32::MAX,
                0 <= self@.limit < i32::MAX,
                self@.pc >= 0,
                0 <= self@.count,
                self@.count <= old(self)@.count || self@.count <= self@.limit,
                old(self)@.count < i32::MAX,
                run(self@) == run(old(self)@),
            decreases i32::MAX - self@.count,
        {
            let ghost cur = self@;
            let op_code = self.code[self.program_counter as usize];
            self.execution_count += 1;
            if self.execution_count > self.execution_limit {
                return Err(ExecutionError::LimitExceeded);
            }
            let ghost counted = self@;
            assert(counted == MachineState { count: cur.count + 1, ..cur });
            match op_code {
                Instruction::STOP => {
                    if self.stack.len() > 0 {
                        return Ok(self.stack[self.stack.len() - 1]);
                    } else {
                        return Err(ExecutionError::FinishedEmptyStack);
                    }
                },
                Instruction::ADD | Instruction::SUB | Instruction::MUL | Instruction::DIV
                | Instruction::AND | Instruction::OR | Instruction::GT | Instruction::LT
                | Instruction::EQ => {
                    let a = self.pop_stack();
                    let b = self.pop_stack();
                    match (a, b) {
                        (Some(a), Some(b)) => {
                            match apply_binary(op_code, a, b) {
                                Some(v) => self.stack.push(v),
                                None => return Err(ExecutionError::InvalidArithmetic),
                            }
                        },
                        _ => {
                            proof {
                                if counted.stack.len() == 1 {
                                    assert(self@.stack =~= Seq::<i32>::empty());
                                }
                            }
                            return Err(ExecutionError::EmptyStack);
                        },
                    }
                },
                Instruction::PUSH => {
                    self.program_counter += 1;
                    if (self.program_counter as usize) < self.code.len() {
                        match self.code[self.program_counter as usize] {
                            Instruction::Value(value) => self.stack.push(value),
                            _ => return Err(ExecutionError::PushLast),
                        }
                    } else {
                        return Err(ExecutionError::PushLast);
                    }
                },
                Instruction::JUMP => match self.jump() {
                    Ok(_) => {},
                    Err(error) => return Err(error),
                },
                Instruction::JUMPI => {
                    let condition = self.pop_stack();
                    match condition {
                        Some(condition) => {
                            if condition != 0 {
                                match self.jump() {
                                    Ok(_) => {},
                                    Err(error) => return Err(error),
                                }
                            }
                        },
                        None => return Err(ExecutionError::EmptyStack),
                    }
                },
                Instruction::Value(_value) => {},
            }
            self.program_counter += 1;
            proof {
                let (t, outcome) = step(counted);
                assert(outcome is None);
                assert(self@.stack =~= t.stack);
                assert(self@ == MachineState { count: counted.count, ..t });
            }
        }
        Err(ExecutionError::ProgramComplete)
    }
}

} // verus!
