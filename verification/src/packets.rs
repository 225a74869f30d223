//! Plain-value models of the wire units the session logic reads and writes.
//!
//! The byte-level catalog of packet layouts is the business of an outside
//! codec; the session logic only ever inspects the fields modeled here.
//! Remote handles are connection-scoped opaque identifiers and appear as
//! plain `u64` values, wide enough for every negotiated identifier width.

use vstd::prelude::*;

verus! {

/// Kind tag of an asynchronous event notification, reduced to the kinds the
/// session logic distinguishes.
#[derive(Debug, PartialEq, Eq, Structural, Clone, Copy)]
pub enum EventKind {
    /// A class matching an armed watch became ready for use.
    ClassPrepare,
    /// The target's virtual machine terminated.
    VmDeath,
    /// Any event kind the session logic does not inspect.
    Other,
}

/// A typed wire value, as carried in invocation arguments and returns.
/// Kinds the session logic never reads collapse into `Other`.
#[derive(Debug, PartialEq, Eq, Structural, Clone, Copy)]
pub enum WireValue {
    Object(u64),
    ClassObject(u64),
    Array(u64),
    StringRef(u64),
    Long(i64),
    Other,
}

/// The four identifier widths, in bytes, negotiated once per session.
#[derive(Debug, PartialEq, Eq, Structural, Clone, Copy)]
pub struct IdSizes {
    pub object: u32,
    pub reference_type: u32,
    pub method: u32,
    pub field: u32,
}

impl IdSizes {
    /// Every width is positive; decoding is impossible otherwise.
    pub open spec fn wf(self) -> bool {
        self.object >= 1 && self.reference_type >= 1 && self.method >= 1 && self.field >= 1
    }
}

/// One declared member (method or field) of a class, as listed by the
/// target: its handle, name, and full descriptor signature.
#[derive(Debug, PartialEq, Eq, Clone)]
pub struct MemberInfo {
    pub id: u64,
    pub name: Vec<u8>,
    pub signature: Vec<u8>,
}

/// An outbound command payload: what the session decides to send. Encoding
/// to bytes is the codec's business.
#[derive(Debug, PartialEq, Eq, Clone)]
pub enum Command {
    /// The bootstrap query for `IdSizes`; always the first command issued.
    IdSizes,
    /// Arms a watch for an event kind, keyed on a source file name pattern.
    EventRequestSet { event_kind: u8, suspend_policy: u8, source_name_pattern: Vec<u8> },
    /// Releases the target's execution.
    Resume,
    /// Enumerates all live threads.
    AllThreads,
    /// Looks loaded classes up by signature.
    ClassesBySignature { signature: Vec<u8> },
    /// Lists the declared methods of a class.
    Methods { ref_type: u64 },
    /// Lists the declared fields of a class.
    Fields { ref_type: u64 },
    /// Reads static field values of a class.
    GetStaticValues { ref_type: u64, fields: Vec<u64> },
    /// Creates a string object inside the target.
    CreateString { text: Vec<u8> },
    /// Invokes a static method.
    StaticInvoke { clazz: u64, method: u64, thread: u64, args: Vec<WireValue>, options: u32 },
    /// Invokes an instance method.
    VirtualInvoke {
        object: u64,
        clazz: u64,
        method: u64,
        thread: u64,
        args: Vec<WireValue>,
        options: u32,
    },
    /// Allocates a new array instance.
    NewArray { arr_type: u64, length: u32 },
    /// Writes a run of array elements starting at an index.
    SetArrayValues { array: u64, first_index: u32, values: Vec<WireValue> },
    /// Reads the contents of a remote string.
    StringValue { string_object: u64 },
}

/// A decoded reply payload: what the session logic reads out of the answer
/// to a command.
#[derive(Debug, PartialEq, Eq, Clone)]
pub enum Reply {
    IdSizes(IdSizes),
    Classes { type_ids: Vec<u64> },
    Methods { declared: Vec<MemberInfo> },
    Fields { declared: Vec<MemberInfo> },
    Threads { threads: Vec<u64> },
    StaticValues { values: Vec<WireValue> },
    CreatedString { string_object: u64 },
    StaticInvoke { return_value: WireValue, exception: u64 },
    VirtualInvoke { return_value: WireValue, exception: u64 },
    NewArray { new_array: u64 },
    StringValue { text: Vec<u8> },
    /// A reply carrying nothing the session logic reads (acknowledgements).
    Ack,
}

/// One decoded inbound packet: either an asynchronous event notification
/// (a batch of event kinds) or the reply to a command.
#[derive(Debug, PartialEq, Eq, Clone)]
pub enum Packet {
    Event(Vec<EventKind>),
    Reply(Reply),
}

} // verus!
