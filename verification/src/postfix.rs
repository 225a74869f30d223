//! Semantics of the flat postfix instruction sequence that the parser emits
//! and the evaluator consumes: a stack machine over unbounded integers, the
//! reference against which both are specified.

use vstd::prelude::*;

use crate::parse::Expression;
use crate::parse::Operator;

verus! {

/// Division as the target's arbitrary-precision integers perform it:
/// the quotient is truncated toward zero. Division by zero never reaches
/// this function in a run that succeeds (the target raises a remote
/// exception instead); its value here is arbitrary.
pub open spec fn quot(a: int, b: int) -> int {
    if b == 0 {
        0
    } else if (a >= 0) == (b >= 0) {
        (vstd::math::abs(a) / vstd::math::abs(b)) as int
    } else {
        -((vstd::math::abs(a) / vstd::math::abs(b)) as int)
    }
}

/// The integer a binary instruction leaves on the stack, given its left
/// and right operands.
pub open spec fn apply_operator(op: Operator, a: int, b: int) -> int {
    match op {
        Operator::Add => a + b,
        Operator::Subtract => a - b,
        Operator::Multiply => a * b,
        Operator::Divide => quot(a, b),
    }
}

/// Runs a postfix program on a stack of unbounded integers. `None` means the
/// program popped from a stack with fewer than two entries.
pub open spec fn run_postfix(prog: Seq<Expression>, stack: Seq<int>) -> Option<Seq<int>>
    decreases prog.len(),
{
    if prog.len() == 0 {
        Some(stack)
    } else {
        match prog[0] {
            Expression::Number(n) => run_postfix(prog.drop_first(), stack.push(n as int)),
            Expression::Binary(op) => {
                if stack.len() >= 2 {
                    let a = stack[stack.len() - 2];
                    let b = stack[stack.len() - 1];
                    run_postfix(
                        prog.drop_first(),
                        stack.drop_last().drop_last().push(apply_operator(op, a, b)),
                    )
                } else {
                    None
                }
            },
        }
    }
}

/// A program is well formed when, started on an empty stack, it never
/// underflows and leaves exactly one value.
pub open spec fn wf_postfix(prog: Seq<Expression>) -> bool {
    match run_postfix(prog, Seq::empty()) {
        Some(stack) => stack.len() == 1,
        None => false,
    }
}

/// Depth-only abstraction of `run_postfix`: tracks the stack's length alone.
pub open spec fn run_depth(prog: Seq<Expression>, depth: int) -> Option<int>
    decreases prog.len(),
{
    if prog.len() == 0 {
        Some(depth)
    } else {
        match prog[0] {
            Expression::Number(_) => run_depth(prog.drop_first(), depth + 1),
            Expression::Binary(_) => {
                if depth >= 2 {
                    run_depth(prog.drop_first(), depth - 1)
                } else {
                    None
                }
            },
        }
    }
}

/// Running a concatenation is running the two halves in order.
pub proof fn lemma_run_append(p1: Seq<Expression>, p2: Seq<Expression>, stack: Seq<int>)
    ensures
        run_postfix(p1 + p2, stack) == (match run_postfix(p1, stack) {
            Some(mid) => run_postfix(p2, mid),
            None => None,
        }),
    decreases p1.len(),
{
    if p1.len() == 0 {
        assert(p1 + p2 =~= p2);
    } else {
        assert((p1 + p2).drop_first() =~= p1.drop_first() + p2);
        assert((p1 + p2)[0] == p1[0]);
        match p1[0] {
            Expression::Number(n) => {
                lemma_run_append(p1.drop_first(), p2, stack.push(n as int));
            },
            Expression::Binary(op) => {
                if stack.len() >= 2 {
                    let a = stack[stack.len() - 2];
                    let b = stack[stack.len() - 1];
                    lemma_run_append(
                        p1.drop_first(),
                        p2,
                        stack.drop_last().drop_last().push(apply_operator(op, a, b)),
                    );
                }
            },
        }
    }
}

/// A single literal instruction pushes its value.
pub proof fn lemma_run_number(n: i64, stack: Seq<int>)
    ensures
        run_postfix(seq![Expression::Number(n)], stack) == Some(stack.push(n as int)),
{
    let prog = seq![Expression::Number(n)];
    assert(prog.drop_first() =~= Seq::<Expression>::empty());
    assert(run_postfix(prog.drop_first(), stack.push(n as int)) == Some(stack.push(n as int)));
}

/// A single binary instruction pops its two operands and pushes the result.
pub proof fn lemma_run_binary(op: Operator, stack: Seq<int>)
    requires
        stack.len() >= 2,
    ensures
        run_postfix(seq![Expression::Binary(op)], stack) == Some(
            stack.drop_last().drop_last().push(
                apply_operator(op, stack[stack.len() - 2], stack[stack.len() - 1]),
            ),
        ),
{
    let prog = seq![Expression::Binary(op)];
    let folded = stack.drop_last().drop_last().push(
        apply_operator(op, stack[stack.len() - 2], stack[stack.len() - 1]),
    );
    assert(prog[0] == Expression::Binary(op));
    assert(prog.drop_first() =~= Seq::<Expression>::empty());
    assert(run_postfix(Seq::<Expression>::empty(), folded) == Some(folded));
}

/// The stack machine's success and the length of what it leaves depend only
/// on the starting stack's length.
pub proof fn lemma_run_depth(prog: Seq<Expression>, stack: Seq<int>)
    ensures
        run_postfix(prog, stack) matches Some(out) ==> run_depth(prog, stack.len() as int)
            == Some(out.len() as int),
        run_postfix(prog, stack) is None ==> run_depth(prog, stack.len() as int) is None,
    decreases prog.len(),
{
    if prog.len() == 0 {
    } else {
        match prog[0] {
            Expression::Number(n) => {
                lemma_run_depth(prog.drop_first(), stack.push(n as int));
            },
            Expression::Binary(op) => {
                if stack.len() >= 2 {
                    let a = stack[stack.len() - 2];
                    let b = stack[stack.len() - 1];
                    lemma_run_depth(
                        prog.drop_first(),
                        stack.drop_last().drop_last().push(apply_operator(op, a, b)),
                    );
                }
            },
        }
    }
}

} // verus!
