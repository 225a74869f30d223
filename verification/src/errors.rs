//! Session-level error taxonomy.

use vstd::prelude::*;

verus! {

/// Everything that can go wrong between the client and the target, beyond
/// parsing (`crate::parse::ParseError`) and the evaluator's own stack
/// discipline (`crate::eval::EvalError`).
#[derive(Debug, PartialEq, Eq, Clone)]
pub enum ClientError {
    /// The fourteen banner bytes read back differ from the banner sent.
    HandshakeMismatch,
    /// A framed packet could not be decoded after the protocol context was
    /// installed; fatal for the session.
    ProtocolDecodeFailure,
    /// The target announced its own termination while a command was
    /// outstanding.
    TargetTerminated,
    /// The packet stream ended while a reply was awaited.
    ChannelClosed,
    /// A reply arrived whose shape does not belong to the command it
    /// answers; treated as a fatal contract violation.
    UnexpectedReply,
    /// No loaded class carries the requested signature.
    ClassNotFound,
    /// No declared method matches the requested name and signature exactly.
    MethodNotFound,
    /// No declared field matches the requested name and signature exactly.
    FieldNotFound,
    /// A reflective call returned a value kind the caller cannot accept.
    UnexpectedReturnType,
    /// A reflective call raised an exception inside the target; carries the
    /// message text read back from the target's own exception object.
    RemoteException { message: Vec<u8> },
}

} // verus!
