//! Recursive-descent parser for infix arithmetic over unsigned decimal
//! literals and `+ - * / ( )`, emitting a flat postfix instruction sequence.
//!
//! The grammar, with standard precedence and left associativity:
//! `expr := term (('+'|'-') term)*`; `term := primary (('*'|'/') primary)*`;
//! `primary := INTEGER | '(' expr ')'`. Whitespace may appear anywhere
//! between tokens.
//!
//! Each executable function is specified against a specification-level
//! parser (`sp_*`), and the specification parser is proved faithful: the
//! instruction sequence it emits, run on the reference stack machine over
//! unbounded integers, leaves exactly the value that grammar-directed infix
//! evaluation assigns to the input.

use vstd::prelude::*;
use vstd::string::StringSliceAdditionalSpecFns;

use crate::postfix::apply_operator;
use crate::postfix::run_postfix;
use crate::postfix::wf_postfix;
use crate::postfix::lemma_run_append;
use crate::postfix::lemma_run_binary;
use crate::postfix::lemma_run_number;

verus! {

/// A binary operator of the expression language.
#[derive(Debug, PartialEq, Eq, Structural, Clone, Copy)]
pub enum Operator {
    Add,
    Subtract,
    Multiply,
    Divide,
}

/// One postfix instruction: push a literal, or combine the two topmost
/// stack entries with an operator.
#[derive(Debug, PartialEq, Eq, Structural, Clone, Copy)]
pub enum Expression {
    Number(i64),
    Binary(Operator),
}

/// Why parsing failed.
#[derive(Debug, PartialEq, Eq, Structural, Clone, Copy)]
pub enum ParseError {
    /// A number was expected and no digit was found.
    ExpectedNumber,
    /// An opened parenthesis was never closed.
    ExpectedCloseParen,
    /// Non-whitespace input remained after the top-level expression.
    TrailingInput,
    /// A digit run denotes a value that no literal instruction can carry.
    NumberTooLarge,
}

/// Result of a specification-level parsing step. `pos` is the position just
/// past what was consumed; `emitted` the instructions produced (on failure:
/// produced before the failure); `value` the parsed subexpression's value.
pub enum ParseStep {
    Good { pos: int, emitted: Seq<Expression>, value: int },
    Bad { err: ParseError, emitted: Seq<Expression> },
}

/// ASCII whitespace between tokens.
pub open spec fn is_space_byte(b: u8) -> bool {
    b == 32 || b == 9 || b == 10 || b == 13
}

/// An ASCII decimal digit.
pub open spec fn is_digit_byte(b: u8) -> bool {
    48 <= b && b <= 57
}

/// First position at or after `pos` that holds no whitespace.
pub open spec fn skip_spaces(s: Seq<u8>, pos: int) -> int
    decreases s.len() - pos,
{
    if 0 <= pos && pos < s.len() && is_space_byte(s[pos]) {
        skip_spaces(s, pos + 1)
    } else {
        pos
    }
}

/// First position at or after `pos` that holds no digit.
pub open spec fn digit_run_end(s: Seq<u8>, pos: int) -> int
    decreases s.len() - pos,
{
    if 0 <= pos && pos < s.len() && is_digit_byte(s[pos]) {
        digit_run_end(s, pos + 1)
    } else {
        pos
    }
}

/// Value of the digit run `s[start..end]`, most significant digit first.
pub open spec fn digits_value(s: Seq<u8>, start: int, end: int) -> int
    decreases end - start,
{
    if end <= start {
        0
    } else {
        digits_value(s, start, end - 1) * 10 + (s[end - 1] - 48)
    }
}

pub proof fn lemma_skip_spaces(s: Seq<u8>, pos: int)
    requires
        0 <= pos <= s.len(),
    ensures
        pos <= skip_spaces(s, pos) <= s.len(),
        skip_spaces(s, pos) < s.len() ==> !is_space_byte(s[skip_spaces(s, pos)]),
    decreases s.len() - pos,
{
    if pos < s.len() && is_space_byte(s[pos]) {
        lemma_skip_spaces(s, pos + 1);
    }
}

pub proof fn lemma_digit_run_end(s: Seq<u8>, pos: int)
    requires
        0 <= pos <= s.len(),
    ensures
        pos <= digit_run_end(s, pos) <= s.len(),
        digit_run_end(s, pos) < s.len() ==> !is_digit_byte(s[digit_run_end(s, pos)]),
        forall|k: int| pos <= k < digit_run_end(s, pos) ==> is_digit_byte(s[k]),
    decreases s.len() - pos,
{
    if pos < s.len() && is_digit_byte(s[pos]) {
        lemma_digit_run_end(s, pos + 1);
    }
}

pub proof fn lemma_digits_value_nonneg(s: Seq<u8>, start: int, end: int)
    requires
        start <= end,
        forall|k: int| start <= k < end ==> is_digit_byte(s[k]),
    ensures
        0 <= digits_value(s, start, end),
    decreases end - start,
{
    if start < end {
        lemma_digits_value_nonneg(s, start, end - 1);
    }
}

/// Extending a digit run never shrinks its value.
pub proof fn lemma_digits_value_monotone(s: Seq<u8>, start: int, a: int, b: int)
    requires
        start <= a <= b,
        forall|k: int| start <= k < b ==> is_digit_byte(s[k]),
    ensures
        digits_value(s, start, a) <= digits_value(s, start, b),
    decreases b - a,
{
    if a < b {
        lemma_digits_value_monotone(s, start, a, b - 1);
        lemma_digits_value_nonneg(s, start, b - 1);
    }
}

/// Specification-level `primary := INTEGER | '(' expr ')'`.
pub open spec fn sp_primary(s: Seq<u8>, pos: int) -> ParseStep
    decreases s.len() - pos, 0int,
{
    if !(0 <= pos && pos <= s.len()) {
        ParseStep::Bad { err: ParseError::ExpectedNumber, emitted: Seq::empty() }
    } else {
        let t = skip_spaces(s, pos);
        if !(pos <= t && t <= s.len()) {
            ParseStep::Bad { err: ParseError::ExpectedNumber, emitted: Seq::empty() }
        } else if t < s.len() && s[t] == 40 {  // '('
            match sp_add_sub(s, t + 1) {
                ParseStep::Bad { err, emitted } => ParseStep::Bad { err, emitted },
                ParseStep::Good { pos: q, emitted, value } => {
                    if 0 <= q && q <= s.len() {
                        let u = skip_spaces(s, q);
                        if u < s.len() && s[u] == 41 {  // ')'
                            ParseStep::Good { pos: u + 1, emitted, value }
                        } else {
                            ParseStep::Bad { err: ParseError::ExpectedCloseParen, emitted }
                        }
                    } else {
                        ParseStep::Bad { err: ParseError::ExpectedCloseParen, emitted }
                    }
                },
            }
        } else {
            let e = digit_run_end(s, t);
            if e == t {
                ParseStep::Bad { err: ParseError::ExpectedNumber, emitted: Seq::empty() }
            } else if digits_value(s, t, e) > i64::MAX as int {
                ParseStep::Bad { err: ParseError::NumberTooLarge, emitted: Seq::empty() }
            } else {
                ParseStep::Good {
                    pos: e,
                    emitted: seq![Expression::Number(digits_value(s, t, e) as i64)],
                    value: digits_value(s, t, e),
                }
            }
        }
    }
}

/// Specification-level tail of `term`: zero or more `('*'|'/') primary`,
/// folded left onto the value `lhs`. `emitted` holds only the tail's own
/// instructions.
pub open spec fn sp_mul_div_more(s: Seq<u8>, pos: int, lhs: int) -> ParseStep
    decreases s.len() - pos, 1int,
{
    if !(0 <= pos && pos <= s.len()) {
        ParseStep::Good { pos, emitted: Seq::empty(), value: lhs }
    } else {
        let t = skip_spaces(s, pos);
        if pos <= t && t < s.len() && (s[t] == 42 || s[t] == 47) {  // '*' '/'
            let op = if s[t] == 42 {
                Operator::Multiply
            } else {
                Operator::Divide
            };
            match sp_primary(s, t + 1) {
                ParseStep::Bad { err, emitted } => ParseStep::Bad { err, emitted },
                ParseStep::Good { pos: q2, emitted, value } => {
                    let folded = apply_operator(op, lhs, value);
                    if pos < q2 && q2 <= s.len() {
                        match sp_mul_div_more(s, q2, folded) {
                            ParseStep::Bad { err, emitted: tail } => ParseStep::Bad {
                                err,
                                emitted: emitted + seq![Expression::Binary(op)] + tail,
                            },
                            ParseStep::Good { pos: q3, emitted: tail, value: v3 } => ParseStep::Good {
                                pos: q3,
                                emitted: emitted + seq![Expression::Binary(op)] + tail,
                                value: v3,
                            },
                        }
                    } else {
                        ParseStep::Good {
                            pos: q2,
                            emitted: emitted + seq![Expression::Binary(op)],
                            value: folded,
                        }
                    }
                },
            }
        } else {
            ParseStep::Good { pos, emitted: Seq::empty(), value: lhs }
        }
    }
}

/// Specification-level `term := primary (('*'|'/') primary)*`.
pub open spec fn sp_mul_div(s: Seq<u8>, pos: int) -> ParseStep
    decreases s.len() - pos, 2int,
{
    if !(0 <= pos && pos <= s.len()) {
        ParseStep::Bad { err: ParseError::ExpectedNumber, emitted: Seq::empty() }
    } else {
        match sp_primary(s, pos) {
            ParseStep::Bad { err, emitted } => ParseStep::Bad { err, emitted },
            ParseStep::Good { pos: q, emitted, value } => {
                if pos < q && q <= s.len() {
                    match sp_mul_div_more(s, q, value) {
                        ParseStep::Bad { err, emitted: tail } => ParseStep::Bad {
                            err,
                            emitted: emitted + tail,
                        },
                        ParseStep::Good { pos: q3, emitted: tail, value: v3 } => ParseStep::Good {
                            pos: q3,
                            emitted: emitted + tail,
                            value: v3,
                        },
                    }
                } else {
                    ParseStep::Good { pos: q, emitted, value }
                }
            },
        }
    }
}

/// Specification-level tail of `expr`: zero or more `('+'|'-') term`.
pub open spec fn sp_add_sub_more(s: Seq<u8>, pos: int, lhs: int) -> ParseStep
    decreases s.len() - pos, 3int,
{
    if !(0 <= pos && pos <= s.len()) {
        ParseStep::Good { pos, emitted: Seq::empty(), value: lhs }
    } else {
        let t = skip_spaces(s, pos);
        if pos <= t && t < s.len() && (s[t] == 43 || s[t] == 45) {  // '+' '-'
            let op = if s[t] == 43 {
                Operator::Add
            } else {
                Operator::Subtract
            };
            match sp_mul_div(s, t + 1) {
                ParseStep::Bad { err, emitted } => ParseStep::Bad { err, emitted },
                ParseStep::Good { pos: q2, emitted, value } => {
                    let folded = apply_operator(op, lhs, value);
                    if pos < q2 && q2 <= s.len() {
                        match sp_add_sub_more(s, q2, folded) {
                            ParseStep::Bad { err, emitted: tail } => ParseStep::Bad {
                                err,
                                emitted: emitted + seq![Expression::Binary(op)] + tail,
                            },
                            ParseStep::Good { pos: q3, emitted: tail, value: v3 } => ParseStep::Good {
                                pos: q3,
                                emitted: emitted + seq![Expression::Binary(op)] + tail,
                                value: v3,
                            },
                        }
                    } else {
                        ParseStep::Good {
                            pos: q2,
                            emitted: emitted + seq![Expression::Binary(op)],
                            value: folded,
                        }
                    }
                },
            }
        } else {
            ParseStep::Good { pos, emitted: Seq::empty(), value: lhs }
        }
    }
}

/// Specification-level `expr := term (('+'|'-') term)*`.
pub open spec fn sp_add_sub(s: Seq<u8>, pos: int) -> ParseStep
    decreases s.len() - pos, 4int,
{
    if !(0 <= pos && pos <= s.len()) {
        ParseStep::Bad { err: ParseError::ExpectedNumber, emitted: Seq::empty() }
    } else {
        match sp_mul_div(s, pos) {
            ParseStep::Bad { err, emitted } => ParseStep::Bad { err, emitted },
            ParseStep::Good { pos: q, emitted, value } => {
                if pos < q && q <= s.len() {
                    match sp_add_sub_more(s, q, value) {
                        ParseStep::Bad { err, emitted: tail } => ParseStep::Bad {
                            err,
                            emitted: emitted + tail,
                        },
                        ParseStep::Good { pos: q3, emitted: tail, value: v3 } => ParseStep::Good {
                            pos: q3,
                            emitted: emitted + tail,
                            value: v3,
                        },
                    }
                } else {
                    ParseStep::Good { pos: q, emitted, value }
                }
            },
        }
    }
}

/// Specification-level whole-line parse: a top-level expression followed by
/// nothing but whitespace.
pub open spec fn sp_parse(s: Seq<u8>) -> ParseStep {
    match sp_add_sub(s, 0) {
        ParseStep::Bad { err, emitted } => ParseStep::Bad { err, emitted },
        ParseStep::Good { pos: q, emitted, value } => {
            if 0 <= q && q <= s.len() && skip_spaces(s, q) == s.len() {
                ParseStep::Good { pos: s.len() as int, emitted, value }
            } else {
                ParseStep::Bad { err: ParseError::TrailingInput, emitted }
            }
        },
    }
}

/// A successful `primary` consumes at least one byte, and its instructions
/// push exactly its value onto any stack.
pub proof fn lemma_sp_primary(s: Seq<u8>, pos: int, stack: Seq<int>)
    requires
        0 <= pos <= s.len(),
    ensures
        sp_primary(s, pos) matches ParseStep::Good { pos: q, .. } ==> pos < q && q <= s.len(),
        sp_primary(s, pos) matches ParseStep::Good { emitted, value, .. } ==> run_postfix(
            emitted,
            stack,
        ) == Some(stack.push(value)),
    decreases s.len() - pos, 0int,
{
    lemma_skip_spaces(s, pos);
    let t = skip_spaces(s, pos);
    if t < s.len() && s[t] == 40 {
        lemma_sp_add_sub(s, t + 1, stack);
        match sp_add_sub(s, t + 1) {
            ParseStep::Good { pos: q, emitted, value } => {
                lemma_skip_spaces(s, q);
            },
            ParseStep::Bad { .. } => {},
        }
    } else {
        lemma_digit_run_end(s, t);
        let e = digit_run_end(s, t);
        if e > t && digits_value(s, t, e) <= i64::MAX as int {
            lemma_digits_value_nonneg(s, t, e);
            lemma_run_number(digits_value(s, t, e) as i64, stack);
        }
    }
}

/// The tail instructions of a `term` transform a stack ending in `lhs` into
/// the same stack ending in the folded value.
pub proof fn lemma_sp_mul_div_more(s: Seq<u8>, pos: int, lhs: int, stack: Seq<int>)
    requires
        0 <= pos <= s.len(),
    ensures
        sp_mul_div_more(s, pos, lhs) matches ParseStep::Good { pos: q, .. } ==> pos <= q
            && q <= s.len(),
        sp_mul_div_more(s, pos, lhs) matches ParseStep::Good { emitted, value, .. }
            ==> run_postfix(emitted, stack.push(lhs)) == Some(stack.push(value)),
    decreases s.len() - pos, 1int,
{
    lemma_skip_spaces(s, pos);
    let t = skip_spaces(s, pos);
    if t < s.len() && (s[t] == 42 || s[t] == 47) {
        let op = if s[t] == 42 {
            Operator::Multiply
        } else {
            Operator::Divide
        };
        lemma_sp_primary(s, t + 1, stack.push(lhs));
        match sp_primary(s, t + 1) {
            ParseStep::Bad { .. } => {},
            ParseStep::Good { pos: q2, emitted, value } => {
                let folded = apply_operator(op, lhs, value);
                let one_op = seq![Expression::Binary(op)];
                lemma_run_binary(op, stack.push(lhs).push(value));
                assert(stack.push(lhs).push(value).drop_last().drop_last() =~= stack);
                lemma_run_append(emitted, one_op, stack.push(lhs));
                assert(run_postfix(emitted + one_op, stack.push(lhs)) == Some(
                    stack.push(folded),
                ));
                lemma_sp_mul_div_more(s, q2, folded, stack);
                match sp_mul_div_more(s, q2, folded) {
                    ParseStep::Good { pos: q3, emitted: tail, value: v3 } => {
                        lemma_run_append(emitted + one_op, tail, stack.push(lhs));
                    },
                    ParseStep::Bad { .. } => {},
                }
            },
        }
    }
}

/// A successful `term` consumes at least one byte, and its instructions push
/// exactly its value onto any stack.
pub proof fn lemma_sp_mul_div(s: Seq<u8>, pos: int, stack: Seq<int>)
    requires
        0 <= pos <= s.len(),
    ensures
        sp_mul_div(s, pos) matches ParseStep::Good { pos: q, .. } ==> pos < q && q <= s.len(),
        sp_mul_div(s, pos) matches ParseStep::Good { emitted, value, .. } ==> run_postfix(
            emitted,
            stack,
        ) == Some(stack.push(value)),
    decreases s.len() - pos, 2int,
{
    lemma_sp_primary(s, pos, stack);
    match sp_primary(s, pos) {
        ParseStep::Bad { .. } => {},
        ParseStep::Good { pos: q, emitted, value } => {
            lemma_sp_mul_div_more(s, q, value, stack);
            match sp_mul_div_more(s, q, value) {
                ParseStep::Good { pos: q3, emitted: tail, value: v3 } => {
                    lemma_run_append(emitted, tail, stack);
                },
                ParseStep::Bad { .. } => {},
            }
        },
    }
}

/// The tail instructions of an `expr` transform a stack ending in `lhs` into
/// the same stack ending in the folded value.
pub proof fn lemma_sp_add_sub_more(s: Seq<u8>, pos: int, lhs: int, stack: Seq<int>)
    requires
        0 <= pos <= s.len(),
    ensures
        sp_add_sub_more(s, pos, lhs) matches ParseStep::Good { pos: q, .. } ==> pos <= q
            && q <= s.len(),
        sp_add_sub_more(s, pos, lhs) matches ParseStep::Good { emitted, value, .. }
            ==> run_postfix(emitted, stack.push(lhs)) == Some(stack.push(value)),
    decreases s.len() - pos, 3int,
{
    lemma_skip_spaces(s, pos);
    let t = skip_spaces(s, pos);
    if t < s.len() && (s[t] == 43 || s[t] == 45) {
        let op = if s[t] == 43 {
            Operator::Add
        } else {
            Operator::Subtract
        };
        lemma_sp_mul_div(s, t + 1, stack.push(lhs));
        match sp_mul_div(s, t + 1) {
            ParseStep::Bad { .. } => {},
            ParseStep::Good { pos: q2, emitted, value } => {
                let folded = apply_operator(op, lhs, value);
                let one_op = seq![Expression::Binary(op)];
                lemma_run_binary(op, stack.push(lhs).push(value));
                assert(stack.push(lhs).push(value).drop_last().drop_last() =~= stack);
                lemma_run_append(emitted, one_op, stack.push(lhs));
                assert(run_postfix(emitted + one_op, stack.push(lhs)) == Some(
                    stack.push(folded),
                ));
                lemma_sp_add_sub_more(s, q2, folded, stack);
                match sp_add_sub_more(s, q2, folded) {
                    ParseStep::Good { pos: q3, emitted: tail, value: v3 } => {
                        lemma_run_append(emitted + one_op, tail, stack.push(lhs));
                    },
                    ParseStep::Bad { .. } => {},
                }
            },
        }
    }
}

/// A successful `expr` consumes at least one byte, and its instructions push
/// exactly its value onto any stack.
pub proof fn lemma_sp_add_sub(s: Seq<u8>, pos: int, stack: Seq<int>)
    requires
        0 <= pos <= s.len(),
    ensures
        sp_add_sub(s, pos) matches ParseStep::Good { pos: q, .. } ==> pos < q && q <= s.len(),
        sp_add_sub(s, pos) matches ParseStep::Good { emitted, value, .. } ==> run_postfix(
            emitted,
            stack,
        ) == Some(stack.push(value)),
    decreases s.len() - pos, 4int,
{
    lemma_sp_mul_div(s, pos, stack);
    match sp_mul_div(s, pos) {
        ParseStep::Bad { .. } => {},
        ParseStep::Good { pos: q, emitted, value } => {
            lemma_sp_add_sub_more(s, q, value, stack);
            match sp_add_sub_more(s, q, value) {
                ParseStep::Good { pos: q3, emitted: tail, value: v3 } => {
                    lemma_run_append(emitted, tail, stack);
                },
                ParseStep::Bad { .. } => {},
            }
        },
    }
}

/// LAW. Parsing is faithful to infix evaluation: whenever a whole line
/// parses, running the emitted postfix program on the reference stack
/// machine over unbounded integers, from an empty stack, terminates without
/// underflow and leaves exactly one value — the value that standard infix
/// evaluation (precedence and left associativity as the grammar gives them)
/// assigns to the input.
pub proof fn lemma_parse_postfix_faithful(s: Seq<u8>)
    ensures
        sp_parse(s) matches ParseStep::Good { emitted, value, .. } ==> run_postfix(
            emitted,
            Seq::empty(),
        ) == Some(seq![value]),
        sp_parse(s) matches ParseStep::Good { emitted, .. } ==> wf_postfix(emitted),
{
    lemma_sp_add_sub(s, 0, Seq::empty());
    match sp_add_sub(s, 0) {
        ParseStep::Good { pos: q, emitted, value } => {
            assert(Seq::<int>::empty().push(value) =~= seq![value]);
        },
        ParseStep::Bad { .. } => {},
    }
}

/// Reports whether a byte is ASCII whitespace.
fn byte_is_space(b: u8) -> (r: bool)
    ensures
        r == is_space_byte(b),
{
    b == 32 || b == 9 || b == 10 || b == 13
}

/// Reports whether a byte is an ASCII decimal digit.
fn byte_is_digit(b: u8) -> (r: bool)
    ensures
        r == is_digit_byte(b),
{
    48 <= b && b <= 57
}

/// Advances past ASCII whitespace.
fn skip_spaces_exec(input: &[u8], pos: usize) -> (r: usize)
    requires
        pos <= input@.len(),
    ensures
        r as int == skip_spaces(input@, pos as int),
        pos <= r <= input@.len(),
{
    let mut i: usize = pos;
    while i < input.len() && byte_is_space(input[i])
        invariant
            pos <= i <= input@.len(),
            skip_spaces(input@, pos as int) == skip_spaces(input@, i as int),
        decreases input@.len() - i,
    {
        i = i + 1;
    }
    i
}

/// Advances past ASCII digits.
fn digit_run_end_exec(input: &[u8], pos: usize) -> (r: usize)
    requires
        pos <= input@.len(),
    ensures
        r as int == digit_run_end(input@, pos as int),
        pos <= r <= input@.len(),
{
    let mut i: usize = pos;
    while i < input.len() && byte_is_digit(input[i])
        invariant
            pos <= i <= input@.len(),
            digit_run_end(input@, pos as int) == digit_run_end(input@, i as int),
        decreases input@.len() - i,
    {
        i = i + 1;
    }
    i
}

/// Parses `primary := INTEGER | '(' expr ')'` starting at `pos`, appending
/// the emitted instructions to `exprs`. Returns the position just past what
/// was consumed.
pub fn parse_primary(input: &[u8], pos: usize, exprs: &mut Vec<Expression>) -> (r: Result<
    usize,
    ParseError,
>)
    requires
        pos <= input@.len(),
    ensures
        sp_primary(input@, pos as int) matches ParseStep::Good { pos: q, emitted, .. } ==> (
        r matches Ok(p) && p as int == q && final(exprs)@ == old(exprs)@ + emitted),
        sp_primary(input@, pos as int) matches ParseStep::Bad { err, emitted } ==> (r matches Err(
            e2,
        ) && e2 == err && final(exprs)@ == old(exprs)@ + emitted),
    decreases input@.len() - pos, 0int,
{
    proof {
        lemma_skip_spaces(input@, pos as int);
    }
    let t = skip_spaces_exec(input, pos);
    if t < input.len() && input[t] == 40 {
        match parse_expression(input, t + 1, exprs) {
            Err(e) => {
                Err(e)
            },
            Ok(q) => {
                proof {
                    lemma_sp_add_sub(input@, (t + 1) as int, Seq::empty());
                    lemma_skip_spaces(input@, q as int);
                }
                let u = skip_spaces_exec(input, q);
                if u < input.len() && input[u] == 41 {
                    Ok(u + 1)
                } else {
                    Err(ParseError::ExpectedCloseParen)
                }
            },
        }
    } else {
        proof {
            lemma_digit_run_end(input@, t as int);
        }
        let e = digit_run_end_exec(input, t);
        if e == t {
            proof {
                assert(exprs@ =~= old(exprs)@ + Seq::<Expression>::empty());
            }
            Err(ParseError::ExpectedNumber)
        } else {
            let mut acc: i64 = 0;
            let mut i: usize = t;
            while i < e
                invariant
                    pos <= t <= i <= e <= input@.len(),
                    t as int == skip_spaces(input@, pos as int),
                    !(t < input@.len() && input@[t as int] == 40),
                    e as int == digit_run_end(input@, t as int),
                    forall|k: int| t <= k < e ==> is_digit_byte(input@[k]),
                    0 <= acc,
                    acc as int == digits_value(input@, t as int, i as int),
                    exprs@ == old(exprs)@,
                decreases e - i,
            {
                let d = (input[i] - 48) as i64;
                proof {
                    assert(digits_value(input@, t as int, i as int + 1) == digits_value(
                        input@,
                        t as int,
                        i as int,
                    ) * 10 + (input@[i as int] - 48));
                }
                // appending this digit would push the value past the
                // largest literal a `Number` instruction can carry
                if acc > 922337203685477580 || (acc == 922337203685477580 && d > 7) {
                    proof {
                        assert(acc as int * 10 + d as int > i64::MAX as int);
                        lemma_digits_value_monotone(input@, t as int, i as int + 1, e as int);
                        assert(exprs@ =~= old(exprs)@ + Seq::<Expression>::empty());
                    }
                    return Err(ParseError::NumberTooLarge);
                }
                proof {
                    assert(acc as int * 10 + d as int <= i64::MAX as int);
                }
                acc = acc * 10 + d;
                i = i + 1;
            }
            exprs.push(Expression::Number(acc));
            proof {
                assert(exprs@ =~= old(exprs)@ + seq![Expression::Number(acc)]);
            }
            Ok(e)
        }
    }
}

/// Parses the tail of a `term`: zero or more `('*'|'/') primary`.
fn parse_mul_div_more(
    input: &[u8],
    pos: usize,
    exprs: &mut Vec<Expression>,
    lhs: Ghost<int>,
) -> (r: Result<usize, ParseError>)
    requires
        pos <= input@.len(),
    ensures
        sp_mul_div_more(input@, pos as int, lhs@) matches ParseStep::Good {
            pos: q,
            emitted,
            ..
        } ==> (r matches Ok(p) && p as int == q && final(exprs)@ == old(exprs)@ + emitted),
        sp_mul_div_more(input@, pos as int, lhs@) matches ParseStep::Bad { err, emitted } ==> (
        r matches Err(e2) && e2 == err && final(exprs)@ == old(exprs)@ + emitted),
    decreases input@.len() - pos, 1int,
{
    proof {
        lemma_skip_spaces(input@, pos as int);
    }
    let t = skip_spaces_exec(input, pos);
    if t < input.len() && (input[t] == 42 || input[t] == 47) {
        let op = if input[t] == 42 {
            Operator::Multiply
        } else {
            Operator::Divide
        };
        match parse_primary(input, t + 1, exprs) {
            Err(e) => {
                Err(e)
            },
            Ok(q2) => {
                proof {
                    lemma_sp_primary(input@, (t + 1) as int, Seq::empty());
                }
                let ghost sub_emitted = sp_primary(input@, (t + 1) as int)->Good_emitted;
                let ghost sub_value = sp_primary(input@, (t + 1) as int)->Good_value;
                let ghost folded = apply_operator(op, lhs@, sub_value);
                exprs.push(Expression::Binary(op));
                let ghost mid = exprs@;
                proof {
                    assert(mid =~= old(exprs)@ + (sub_emitted + seq![Expression::Binary(op)]));
                }
                let r3 = parse_mul_div_more(input, q2, exprs, Ghost(folded));
                proof {
                    match sp_mul_div_more(input@, q2 as int, folded) {
                        ParseStep::Good { pos: q3, emitted: tail, value: v3 } => {
                            assert(mid + tail =~= old(exprs)@ + (sub_emitted + seq![
                                Expression::Binary(op),
                            ] + tail));
                        },
                        ParseStep::Bad { err, emitted: tail } => {
                            assert(mid + tail =~= old(exprs)@ + (sub_emitted + seq![
                                Expression::Binary(op),
                            ] + tail));
                        },
                    }
                }
                r3
            },
        }
    } else {
        proof {
            assert(exprs@ =~= old(exprs)@ + Seq::<Expression>::empty());
        }
        Ok(pos)
    }
}

/// Parses `term := primary (('*'|'/') primary)*`.
pub fn parse_mul_div(input: &[u8], pos: usize, exprs: &mut Vec<Expression>) -> (r: Result<
    usize,
    ParseError,
>)
    requires
        pos <= input@.len(),
    ensures
        sp_mul_div(input@, pos as int) matches ParseStep::Good { pos: q, emitted, .. } ==> (
        r matches Ok(p) && p as int == q && final(exprs)@ == old(exprs)@ + emitted),
        sp_mul_div(input@, pos as int) matches ParseStep::Bad { err, emitted } ==> (r matches Err(
            e2,
        ) && e2 == err && final(exprs)@ == old(exprs)@ + emitted),
    decreases input@.len() - pos, 2int,
{
    match parse_primary(input, pos, exprs) {
        Err(e) => {
            Err(e)
        },
        Ok(q) => {
            proof {
                lemma_sp_primary(input@, pos as int, Seq::empty());
            }
            let ghost head = sp_primary(input@, pos as int)->Good_emitted;
            let ghost v1 = sp_primary(input@, pos as int)->Good_value;
            let ghost mid = exprs@;
            let r2 = parse_mul_div_more(input, q, exprs, Ghost(v1));
            proof {
                match sp_mul_div_more(input@, q as int, v1) {
                    ParseStep::Good { pos: q3, emitted: tail, value: v3 } => {
                        assert(mid + tail =~= old(exprs)@ + (head + tail));
                    },
                    ParseStep::Bad { err, emitted: tail } => {
                        assert(mid + tail =~= old(exprs)@ + (head + tail));
                    },
                }
            }
            r2
        },
    }
}

/// Parses the tail of an `expr`: zero or more `('+'|'-') term`.
fn parse_add_sub_more(
    input: &[u8],
    pos: usize,
    exprs: &mut Vec<Expression>,
    lhs: Ghost<int>,
) -> (r: Result<usize, ParseError>)
    requires
        pos <= input@.len(),
    ensures
        sp_add_sub_more(input@, pos as int, lhs@) matches ParseStep::Good {
            pos: q,
            emitted,
            ..
        } ==> (r matches Ok(p) && p as int == q && final(exprs)@ == old(exprs)@ + emitted),
        sp_add_sub_more(input@, pos as int, lhs@) matches ParseStep::Bad { err, emitted } ==> (
        r matches Err(e2) && e2 == err && final(exprs)@ == old(exprs)@ + emitted),
    decreases input@.len() - pos, 3int,
{
    proof {
        lemma_skip_spaces(input@, pos as int);
    }
    let t = skip_spaces_exec(input, pos);
    if t < input.len() && (input[t] == 43 || input[t] == 45) {
        let op = if input[t] == 43 {
            Operator::Add
        } else {
            Operator::Subtract
        };
        match parse_mul_div(input, t + 1, exprs) {
            Err(e) => {
                Err(e)
            },
            Ok(q2) => {
                proof {
                    lemma_sp_mul_div(input@, (t + 1) as int, Seq::empty());
                }
                let ghost sub_emitted = sp_mul_div(input@, (t + 1) as int)->Good_emitted;
                let ghost sub_value = sp_mul_div(input@, (t + 1) as int)->Good_value;
                let ghost folded = apply_operator(op, lhs@, sub_value);
                exprs.push(Expression::Binary(op));
                let ghost mid = exprs@;
                proof {
                    assert(mid =~= old(exprs)@ + (sub_emitted + seq![Expression::Binary(op)]));
                }
                let r3 = parse_add_sub_more(input, q2, exprs, Ghost(folded));
                proof {
                    match sp_add_sub_more(input@, q2 as int, folded) {
                        ParseStep::Good { pos: q3, emitted: tail, value: v3 } => {
                            assert(mid + tail =~= old(exprs)@ + (sub_emitted + seq![
                                Expression::Binary(op),
                            ] + tail));
                        },
                        ParseStep::Bad { err, emitted: tail } => {
                            assert(mid + tail =~= old(exprs)@ + (sub_emitted + seq![
                                Expression::Binary(op),
                            ] + tail));
                        },
                    }
                }
                r3
            },
        }
    } else {
        proof {
            assert(exprs@ =~= old(exprs)@ + Seq::<Expression>::empty());
        }
        Ok(pos)
    }
}

/// Parses `expr := term (('+'|'-') term)*`.
pub fn parse_add_sub(input: &[u8], pos: usize, exprs: &mut Vec<Expression>) -> (r: Result<
    usize,
    ParseError,
>)
    requires
        pos <= input@.len(),
    ensures
        sp_add_sub(input@, pos as int) matches ParseStep::Good { pos: q, emitted, .. } ==> (
        r matches Ok(p) && p as int == q && final(exprs)@ == old(exprs)@ + emitted),
        sp_add_sub(input@, pos as int) matches ParseStep::Bad { err, emitted } ==> (r matches Err(
            e2,
        ) && e2 == err && final(exprs)@ == old(exprs)@ + emitted),
    decreases input@.len() - pos, 4int,
{
    match parse_mul_div(input, pos, exprs) {
        Err(e) => {
            Err(e)
        },
        Ok(q) => {
            proof {
                lemma_sp_mul_div(input@, pos as int, Seq::empty());
            }
            let ghost head = sp_mul_div(input@, pos as int)->Good_emitted;
            let ghost v1 = sp_mul_div(input@, pos as int)->Good_value;
            let ghost mid = exprs@;
            let r2 = parse_add_sub_more(input, q, exprs, Ghost(v1));
            proof {
                match sp_add_sub_more(input@, q as int, v1) {
                    ParseStep::Good { pos: q3, emitted: tail, value: v3 } => {
                        assert(mid + tail =~= old(exprs)@ + (head + tail));
                    },
                    ParseStep::Bad { err, emitted: tail } => {
                        assert(mid + tail =~= old(exprs)@ + (head + tail));
                    },
                }
            }
            r2
        },
    }
}

/// Parses a whole expression starting at `pos`. The entry point of the
/// grammar; equal to `parse_add_sub`.
pub fn parse_expression(input: &[u8], pos: usize, exprs: &mut Vec<Expression>) -> (r: Result<
    usize,
    ParseError,
>)
    requires
        pos <= input@.len(),
    ensures
        sp_add_sub(input@, pos as int) matches ParseStep::Good { pos: q, emitted, .. } ==> (
        r matches Ok(p) && p as int == q && final(exprs)@ == old(exprs)@ + emitted),
        sp_add_sub(input@, pos as int) matches ParseStep::Bad { err, emitted } ==> (r matches Err(
            e2,
        ) && e2 == err && final(exprs)@ == old(exprs)@ + emitted),
    decreases input@.len() - pos, 5int,
{
    parse_add_sub(input, pos, exprs)
}

/// Parses one input line into its postfix instruction sequence. Fails with
/// `TrailingInput` when non-whitespace input remains after the top-level
/// expression; the emitted program of a successful parse is well formed and
/// evaluates, on the reference stack machine, to the input's infix value.
pub fn parse_input(input: &str) -> (r: Result<Vec<Expression>, ParseError>)
    ensures
        sp_parse(input.spec_bytes()) matches ParseStep::Good { emitted, .. } ==> (r matches Ok(v)
            && v@ == emitted),
        sp_parse(input.spec_bytes()) matches ParseStep::Bad { err, .. } ==> (r matches Err(e2)
            && e2 == err),
        r matches Ok(v) ==> wf_postfix(v@),
        r matches Ok(v) ==> run_postfix(v@, Seq::empty()) == Some(
            seq![sp_parse(input.spec_bytes())->Good_value],
        ),
{
    let bytes: &[u8] = input.as_bytes();
    let mut exprs: Vec<Expression> = Vec::new();
    proof {
        lemma_parse_postfix_faithful(input.spec_bytes());
    }
    match parse_expression(bytes, 0, &mut exprs) {
        Err(e) => {
            Err(e)
        },
        Ok(q) => {
            proof {
                lemma_sp_add_sub(input.spec_bytes(), 0, Seq::empty());
                lemma_skip_spaces(input.spec_bytes(), q as int);
                match sp_add_sub(input.spec_bytes(), 0) {
                    ParseStep::Good { emitted, .. } => {
                        assert(Seq::<Expression>::empty() + emitted =~= emitted);
                    },
                    ParseStep::Bad { .. } => {},
                }
            }
            let u = skip_spaces_exec(bytes, q);
            if u == bytes.len() {
                Ok(exprs)
            } else {
                Err(ParseError::TrailingInput)
            }
        },
    }
}

} // verus!
