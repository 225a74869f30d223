//! The evaluator: a stack machine over remote object handles that executes
//! a postfix program by asking the target to do the arithmetic. The machine
//! itself never computes on numbers — it only decides, step by step, which
//! remote invocation to perform next and what to do with the handle that
//! comes back; the values live inside the target as arbitrary-precision
//! integers.
//!
//! For a well-formed program — and the parser emits nothing else — the
//! machine is proved never to underflow: every binary step finds its two
//! operands, and exactly one handle remains at the end.

use vstd::prelude::*;

use crate::parse::Expression;
use crate::parse::Operator;
use crate::postfix::run_depth;
use crate::postfix::wf_postfix;
use crate::postfix::lemma_run_depth;

verus! {

/// A violation of the evaluator's stack discipline: a binary instruction
/// found fewer than two operands, or the program ended with other than one
/// value. The parser's output never causes this.
#[derive(Debug, PartialEq, Eq, Structural, Clone, Copy)]
pub enum EvalError {
    StackUnderflow,
    /// The supplied sequence of remote results ended before the program did
    /// (only the recorded-replies model can report this).
    MissingReply,
}

/// The remote work the machine asks for next. The caller performs it and
/// hands the resulting handle back with `apply_result`.
#[derive(Debug, PartialEq, Eq, Structural, Clone, Copy)]
pub enum EvalAction {
    /// Build the target's arbitrary-precision value of a literal and return
    /// its handle.
    MakeOperand { literal: i64 },
    /// Invoke the operator's method on `left` with `right` as the single
    /// argument, and return the result's handle.
    Combine { op: Operator, left: u64, right: u64 },
    /// The program is done: `result` is the final value's handle; read its
    /// decimal text with a `toString` invocation.
    Finish { result: u64 },
}

/// The evaluator's state: the postfix program, the next instruction, and
/// the operand stack of remote handles.
#[derive(Debug, Clone)]
pub struct EvalMachine {
    pub program: Vec<Expression>,
    pub pc: usize,
    pub stack: Vec<u64>,
}

impl EvalMachine {
    /// The remaining program, run on a stack of this depth, finishes with
    /// exactly one value. Holds initially for every well-formed program and
    /// is preserved by every step.
    pub open spec fn consistent(self) -> bool {
        &&& self.pc <= self.program@.len()
        &&& run_depth(self.program@.skip(self.pc as int), self.stack@.len() as int) == Some(1int)
    }

    /// A machine at the start of a program with an empty stack.
    pub fn new(program: Vec<Expression>) -> (m: EvalMachine)
        ensures
            m.program == program,
            m.pc == 0,
            m.stack@ == Seq::<u64>::empty(),
            wf_postfix(program@) ==> m.consistent(),
    {
        proof {
            if wf_postfix(program@) {
                lemma_run_depth(program@, Seq::<int>::empty());
                assert(program@.skip(0) =~= program@);
            }
        }
        EvalMachine { program, pc: 0, stack: Vec::new() }
    }

    /// The next remote action, decided from the current instruction and the
    /// stack. In a consistent machine this never fails.
    pub fn next_action(&self) -> (r: Result<EvalAction, EvalError>)
        ensures
            self.pc < self.program@.len() ==> (match self.program@[self.pc as int] {
                Expression::Number(n) => r == Ok::<EvalAction, EvalError>(
                    EvalAction::MakeOperand { literal: n },
                ),
                Expression::Binary(op) => r == (if self.stack@.len() >= 2 {
                    Ok::<EvalAction, EvalError>(
                        EvalAction::Combine {
                            op,
                            left: self.stack@[self.stack@.len() - 2],
                            right: self.stack@[self.stack@.len() - 1],
                        },
                    )
                } else {
                    Err::<EvalAction, EvalError>(EvalError::StackUnderflow)
                }),
            }),
            self.pc >= self.program@.len() ==> r == (if self.stack@.len() == 1 {
                Ok::<EvalAction, EvalError>(EvalAction::Finish { result: self.stack@[0] })
            } else {
                Err::<EvalAction, EvalError>(EvalError::StackUnderflow)
            }),
            self.consistent() ==> r is Ok,
    {
        proof {
            if self.consistent() && self.pc < self.program@.len() {
                assert(self.program@.skip(self.pc as int)[0] == self.program@[self.pc as int]);
            }
            if self.consistent() && self.pc >= self.program@.len() {
                assert(self.program@.skip(self.pc as int) =~= Seq::<Expression>::empty());
            }
        }
        if self.pc < self.program.len() {
            match self.program[self.pc] {
                Expression::Number(n) => Ok(EvalAction::MakeOperand { literal: n }),
                Expression::Binary(op) => {
                    if self.stack.len() >= 2 {
                        Ok(
                            EvalAction::Combine {
                                op,
                                left: self.stack[self.stack.len() - 2],
                                right: self.stack[self.stack.len() - 1],
                            },
                        )
                    } else {
                        Err(EvalError::StackUnderflow)
                    }
                },
            }
        } else {
            if self.stack.len() == 1 {
                Ok(EvalAction::Finish { result: self.stack[0] })
            } else {
                Err(EvalError::StackUnderflow)
            }
        }
    }

    /// Consumes the current instruction, given the handle the remote action
    /// produced: a literal's handle is pushed; a combination's handle
    /// replaces its two operands. Consistency is preserved.
    pub fn apply_result(&mut self, handle: u64)
        requires
            old(self).pc < old(self).program@.len(),
            old(self).program@[old(self).pc as int] is Binary ==> old(self).stack@.len() >= 2,
        ensures
            final(self).program == old(self).program,
            final(self).pc == old(self).pc + 1,
            old(self).program@[old(self).pc as int] is Number ==> final(self).stack@ == old(
                self,
            ).stack@.push(handle),
            old(self).program@[old(self).pc as int] is Binary ==> final(self).stack@ == old(
                self,
            ).stack@.drop_last().drop_last().push(handle),
            old(self).consistent() ==> final(self).consistent(),
    {
        proof {
            if old(self).consistent() {
                assert(old(self).program@.skip(old(self).pc as int)[0] == old(self).program@[old(
                    self,
                ).pc as int]);
                assert(old(self).program@.skip(old(self).pc as int).drop_first() =~= old(
                    self,
                ).program@.skip(old(self).pc as int + 1));
            }
        }
        let len = self.program.len();
        match self.program[self.pc] {
            Expression::Number(_) => {
                self.stack.push(handle);
            },
            Expression::Binary(_) => {
                let _right = self.stack.pop();
                let _left = self.stack.pop();
                self.stack.push(handle);
                proof {
                    assert(self.stack@ =~= old(self).stack@.drop_last().drop_last().push(handle));
                }
            },
        }
        proof {
            assert(self.pc < len);
        }
        self.pc = self.pc + 1;
    }
}

/// The remote `Method` object that performs an operator, chosen from the
/// four operation handles resolved once per session.
pub fn method_for_operator(op: Operator, add: u64, subtract: u64, multiply: u64, divide: u64) -> (r:
    u64)
    ensures
        op is Add ==> r == add,
        op is Subtract ==> r == subtract,
        op is Multiply ==> r == multiply,
        op is Divide ==> r == divide,
{
    match op {
        Operator::Add => add,
        Operator::Subtract => subtract,
        Operator::Multiply => multiply,
        Operator::Divide => divide,
    }
}

/// The outcome of a whole evaluation against a recorded sequence of remote
/// results, one handle per instruction: the final value's handle, or the
/// stack-discipline violation that stopped it. A pure function of the
/// program and the results alone.
pub open spec fn spec_run_session(
    prog: Seq<Expression>,
    replies: Seq<u64>,
    i: int,
    stack: Seq<u64>,
) -> Result<u64, EvalError>
    decreases prog.len() - i,
{
    if !(0 <= i && i < prog.len()) {
        if stack.len() == 1 {
            Ok(stack[0])
        } else {
            Err(EvalError::StackUnderflow)
        }
    } else if i >= replies.len() {
        Err(EvalError::MissingReply)
    } else {
        match prog[i] {
            Expression::Number(_) => spec_run_session(prog, replies, i + 1, stack.push(replies[i])),
            Expression::Binary(_) => {
                if stack.len() >= 2 {
                    spec_run_session(
                        prog,
                        replies,
                        i + 1,
                        stack.drop_last().drop_last().push(replies[i]),
                    )
                } else {
                    Err(EvalError::StackUnderflow)
                }
            },
        }
    }
}

/// Runs a whole program against a recorded sequence of remote results, one
/// handle per instruction, exactly as the live machine would consume them.
/// The outcome is pinned to a pure function of the two arguments.
pub fn run_with_replies(program: &Vec<Expression>, replies: &Vec<u64>) -> (r: Result<
    u64,
    EvalError,
>)
    ensures
        r == spec_run_session(program@, replies@, 0, Seq::<u64>::empty()),
{
    let mut stack: Vec<u64> = Vec::new();
    let mut i: usize = 0;
    while i < program.len()
        invariant
            i <= program@.len(),
            spec_run_session(program@, replies@, 0, Seq::<u64>::empty()) == spec_run_session(
                program@,
                replies@,
                i as int,
                stack@,
            ),
        decreases program@.len() - i,
    {
        if i >= replies.len() {
            return Err(EvalError::MissingReply);
        }
        match program[i] {
            Expression::Number(_) => {
                stack.push(replies[i]);
            },
            Expression::Binary(_) => {
                if stack.len() < 2 {
                    return Err(EvalError::StackUnderflow);
                }
                let _right = stack.pop();
                let _left = stack.pop();
                let ghost popped = stack@;
                stack.push(replies[i]);
                proof {
                    assert(stack@ =~= popped.push(replies@[i as int]));
                }
            },
        }
        i = i + 1;
    }
    if stack.len() == 1 {
        Ok(stack[0])
    } else {
        Err(EvalError::StackUnderflow)
    }
}

/// LAW. Evaluation is idempotent on the client's side: two evaluations of
/// the same program against the same sequence of remote results deliver the
/// same outcome — the machine keeps no hidden state between runs.
pub proof fn lemma_evaluation_idempotent(
    prog: Seq<Expression>,
    replies: Seq<u64>,
    first: Result<u64, EvalError>,
    second: Result<u64, EvalError>,
)
    requires
        first == spec_run_session(prog, replies, 0, Seq::<u64>::empty()),
        second == spec_run_session(prog, replies, 0, Seq::<u64>::empty()),
    ensures
        first == second,
{
}

/// LAW. A well-formed program never violates the stack discipline: started
/// on an empty stack, a consistent machine's next action is always
/// available, and consistency is what `EvalMachine::new` establishes for
/// every program the parser emits.
pub proof fn lemma_wf_program_never_underflows(m: EvalMachine)
    requires
        wf_postfix(m.program@),
        m.pc == 0,
        m.stack@ == Seq::<u64>::empty(),
    ensures
        m.consistent(),
{
    lemma_run_depth(m.program@, Seq::<int>::empty());
    assert(m.program@.skip(0) =~= m.program@);
}

} // verus!
