//! Verified core of a debug-wire-protocol calculator client: an expression
//! parser that compiles infix arithmetic to a postfix program, the stack
//! machine that drives remote evaluation of that program, and the framing,
//! correlation and lookup rules of the wire session.

pub mod barrier;
pub mod engine;
pub mod errors;
pub mod eval;
pub mod lookup;
pub mod packets;
pub mod parse;
pub mod postfix;
pub mod wire;
