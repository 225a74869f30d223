//! Interpretation of command replies: resolving classes, methods, fields and
//! threads from what the target lists, and unwrapping the results of
//! reflective invocations. Each function reads one decoded reply; the
//! matching of members is exact and case-sensitive on both the declared name
//! and the full descriptor signature.

use vstd::prelude::*;

use crate::errors::ClientError;
use crate::packets::Command;
use crate::packets::IdSizes;
use crate::packets::MemberInfo;
use crate::packets::Reply;
use crate::packets::WireValue;

verus! {

/// Outcome of an instance-method invocation: a returned object handle, or
/// the handle of the exception object the call raised inside the target.
#[derive(Debug, PartialEq, Eq, Structural, Clone, Copy)]
pub enum InvokeOutcome {
    Returned(u64),
    Threw(u64),
}

/// A member matches when name and signature both match, byte for byte.
pub open spec fn member_matches(m: MemberInfo, name: Seq<u8>, signature: Seq<u8>) -> bool {
    m.name@ == name && m.signature@ == signature
}

/// The object handle a static invocation's return value carries, if its
/// kind is one a static call may produce for the callers here.
pub open spec fn static_handle_of(v: WireValue) -> Option<u64> {
    match v {
        WireValue::Object(h) => Some(h),
        WireValue::ClassObject(h) => Some(h),
        _ => None,
    }
}

/// The object handle an instance invocation's return value carries, if its
/// kind is object-like: object, array, class object or string.
pub open spec fn object_handle_of(v: WireValue) -> Option<u64> {
    match v {
        WireValue::Object(h) => Some(h),
        WireValue::Array(h) => Some(h),
        WireValue::ClassObject(h) => Some(h),
        WireValue::StringRef(h) => Some(h),
        _ => None,
    }
}

/// Byte-for-byte equality of two byte strings.
pub fn bytes_eq(a: &[u8], b: &[u8]) -> (r: bool)
    ensures
        r == (a@ == b@),
{
    if a.len() != b.len() {
        return false;
    }
    let mut i: usize = 0;
    while i < a.len()
        invariant
            a@.len() == b@.len(),
            i <= a@.len(),
            forall|k: int| 0 <= k < i ==> a@[k] == b@[k],
        decreases a@.len() - i,
    {
        if a[i] != b[i] {
            return false;
        }
        i = i + 1;
    }
    proof {
        assert(a@ =~= b@);
    }
    true
}

/// Finds the first declared member whose name and signature both match,
/// returning its handle.
pub fn find_member(declared: &Vec<MemberInfo>, name: &[u8], signature: &[u8]) -> (r: Option<u64>)
    ensures
        r is Some <==> exists|k: int|
            0 <= k < declared@.len() && member_matches(declared@[k], name@, signature@),
        r matches Some(id) ==> exists|k: int|
            0 <= k < declared@.len() && member_matches(declared@[k], name@, signature@) && id
                == declared@[k].id && (forall|j: int|
                0 <= j < k ==> !member_matches(declared@[j], name@, signature@)),
{
    let mut i: usize = 0;
    while i < declared.len()
        invariant
            i <= declared@.len(),
            forall|j: int| 0 <= j < i ==> !member_matches(declared@[j], name@, signature@),
        decreases declared@.len() - i,
    {
        let m = &declared[i];
        if bytes_eq(m.name.as_slice(), name) && bytes_eq(m.signature.as_slice(), signature) {
            return Some(m.id);
        }
        i = i + 1;
    }
    None
}

/// Reads the negotiated identifier widths out of the bootstrap reply;
/// widths of zero cannot be decoded with and are refused.
pub fn interpret_id_sizes(reply: Reply) -> (r: Result<IdSizes, ClientError>)
    ensures
        reply matches Reply::IdSizes(sizes) ==> r == (if sizes.wf() {
            Ok::<IdSizes, ClientError>(sizes)
        } else {
            Err::<IdSizes, ClientError>(ClientError::UnexpectedReply)
        }),
        !(reply is IdSizes) ==> r == Err::<IdSizes, ClientError>(ClientError::UnexpectedReply),
{
    match reply {
        Reply::IdSizes(sizes) => {
            if sizes.object >= 1 && sizes.reference_type >= 1 && sizes.method >= 1 && sizes.field
                >= 1 {
                Ok(sizes)
            } else {
                Err(ClientError::UnexpectedReply)
            }
        },
        _ => Err(ClientError::UnexpectedReply),
    }
}

/// Resolves a class lookup reply: the handle of the first match, or
/// `ClassNotFound` when no loaded class carries the signature.
pub fn interpret_find_class(reply: Reply) -> (r: Result<u64, ClientError>)
    ensures
        reply matches Reply::Classes { type_ids } ==> r == (if type_ids@.len() > 0 {
            Ok::<u64, ClientError>(type_ids@[0])
        } else {
            Err::<u64, ClientError>(ClientError::ClassNotFound)
        }),
        !(reply is Classes) ==> r == Err::<u64, ClientError>(ClientError::UnexpectedReply),
{
    match reply {
        Reply::Classes { type_ids } => {
            if type_ids.len() > 0 {
                Ok(type_ids[0])
            } else {
                Err(ClientError::ClassNotFound)
            }
        },
        _ => Err(ClientError::UnexpectedReply),
    }
}

/// Resolves a method by exact name and signature from a declared-methods
/// reply.
pub fn interpret_find_method(reply: Reply, name: &[u8], signature: &[u8]) -> (r: Result<
    u64,
    ClientError,
>)
    ensures
        reply matches Reply::Methods { declared } ==> ((r matches Ok(id) && exists|k: int|
            0 <= k < declared@.len() && member_matches(declared@[k], name@, signature@) && id
                == declared@[k].id && (forall|j: int|
                0 <= j < k ==> !member_matches(declared@[j], name@, signature@))) || (r == Err::<
            u64,
            ClientError,
        >(ClientError::MethodNotFound) && forall|k: int|
            0 <= k < declared@.len() ==> !member_matches(declared@[k], name@, signature@))),
        !(reply is Methods) ==> r == Err::<u64, ClientError>(ClientError::UnexpectedReply),
{
    match reply {
        Reply::Methods { declared } => {
            match find_member(&declared, name, signature) {
                Some(id) => Ok(id),
                None => Err(ClientError::MethodNotFound),
            }
        },
        _ => Err(ClientError::UnexpectedReply),
    }
}

/// Resolves a field by exact name and signature from a declared-fields
/// reply.
pub fn interpret_find_field(reply: Reply, name: &[u8], signature: &[u8]) -> (r: Result<
    u64,
    ClientError,
>)
    ensures
        reply matches Reply::Fields { declared } ==> ((r matches Ok(id) && exists|k: int|
            0 <= k < declared@.len() && member_matches(declared@[k], name@, signature@) && id
                == declared@[k].id && (forall|j: int|
                0 <= j < k ==> !member_matches(declared@[j], name@, signature@))) || (r == Err::<
            u64,
            ClientError,
        >(ClientError::FieldNotFound) && forall|k: int|
            0 <= k < declared@.len() ==> !member_matches(declared@[k], name@, signature@))),
        !(reply is Fields) ==> r == Err::<u64, ClientError>(ClientError::UnexpectedReply),
{
    match reply {
        Reply::Fields { declared } => {
            match find_member(&declared, name, signature) {
                Some(id) => Ok(id),
                None => Err(ClientError::FieldNotFound),
            }
        },
        _ => Err(ClientError::UnexpectedReply),
    }
}

/// The first live thread the target reports; every later invocation reuses
/// it.
pub fn first_thread(reply: Reply) -> (r: Result<u64, ClientError>)
    ensures
        reply matches Reply::Threads { threads } ==> r == (if threads@.len() > 0 {
            Ok::<u64, ClientError>(threads@[0])
        } else {
            Err::<u64, ClientError>(ClientError::UnexpectedReply)
        }),
        !(reply is Threads) ==> r == Err::<u64, ClientError>(ClientError::UnexpectedReply),
{
    match reply {
        Reply::Threads { threads } => {
            if threads.len() > 0 {
                Ok(threads[0])
            } else {
                Err(ClientError::UnexpectedReply)
            }
        },
        _ => Err(ClientError::UnexpectedReply),
    }
}

/// The object handle a remote string creation returned.
pub fn interpret_created_string(reply: Reply) -> (r: Result<u64, ClientError>)
    ensures
        reply matches Reply::CreatedString { string_object } ==> r == Ok::<u64, ClientError>(
            string_object,
        ),
        !(reply is CreatedString) ==> r == Err::<u64, ClientError>(ClientError::UnexpectedReply),
{
    match reply {
        Reply::CreatedString { string_object } => Ok(string_object),
        _ => Err(ClientError::UnexpectedReply),
    }
}

/// The handle of a freshly allocated array instance.
pub fn interpret_new_array(reply: Reply) -> (r: Result<u64, ClientError>)
    ensures
        reply matches Reply::NewArray { new_array } ==> r == Ok::<u64, ClientError>(new_array),
        !(reply is NewArray) ==> r == Err::<u64, ClientError>(ClientError::UnexpectedReply),
{
    match reply {
        Reply::NewArray { new_array } => Ok(new_array),
        _ => Err(ClientError::UnexpectedReply),
    }
}

/// The text carried by a string-contents reply.
pub fn interpret_string_value(reply: Reply) -> (r: Result<Vec<u8>, ClientError>)
    ensures
        reply matches Reply::StringValue { text } ==> (r matches Ok(v) && v@ == text@),
        !(reply is StringValue) ==> r == Err::<Vec<u8>, ClientError>(ClientError::UnexpectedReply),
{
    match reply {
        Reply::StringValue { text } => Ok(text),
        _ => Err(ClientError::UnexpectedReply),
    }
}

/// The class object held by the first of the requested static fields.
pub fn interpret_static_field_object(reply: Reply) -> (r: Result<u64, ClientError>)
    ensures
        reply matches Reply::StaticValues { values } ==> r == (if values@.len() > 0 {
            match static_handle_of(values@[0]) {
                Some(h) => Ok::<u64, ClientError>(h),
                None => Err::<u64, ClientError>(ClientError::UnexpectedReturnType),
            }
        } else {
            Err::<u64, ClientError>(ClientError::UnexpectedReply)
        }),
        !(reply is StaticValues) ==> r == Err::<u64, ClientError>(ClientError::UnexpectedReply),
{
    match reply {
        Reply::StaticValues { values } => {
            if values.len() > 0 {
                match values[0] {
                    WireValue::Object(h) => Ok(h),
                    WireValue::ClassObject(h) => Ok(h),
                    _ => Err(ClientError::UnexpectedReturnType),
                }
            } else {
                Err(ClientError::UnexpectedReply)
            }
        },
        _ => Err(ClientError::UnexpectedReply),
    }
}

/// Unwraps a static invocation's reply: the returned handle must be an
/// object or a class object.
pub fn interpret_invoke_static(reply: Reply) -> (r: Result<u64, ClientError>)
    ensures
        reply matches Reply::StaticInvoke { return_value, .. } ==> r == (
        match static_handle_of(return_value) {
            Some(h) => Ok::<u64, ClientError>(h),
            None => Err::<u64, ClientError>(ClientError::UnexpectedReturnType),
        }),
        !(reply is StaticInvoke) ==> r == Err::<u64, ClientError>(ClientError::UnexpectedReply),
{
    match reply {
        Reply::StaticInvoke { return_value, exception: _ } => {
            match return_value {
                WireValue::Object(h) => Ok(h),
                WireValue::ClassObject(h) => Ok(h),
                _ => Err(ClientError::UnexpectedReturnType),
            }
        },
        _ => Err(ClientError::UnexpectedReply),
    }
}

/// Unwraps an instance invocation's reply. A non-null exception slot means
/// the call failed inside the target: the exception object's handle is
/// surfaced so the caller can read its message with further invocations.
pub fn interpret_invoke_virtual(reply: Reply) -> (r: Result<InvokeOutcome, ClientError>)
    ensures
        reply matches Reply::VirtualInvoke { return_value, exception } ==> r == (if exception != 0 {
            Ok::<InvokeOutcome, ClientError>(InvokeOutcome::Threw(exception))
        } else {
            match object_handle_of(return_value) {
                Some(h) => Ok::<InvokeOutcome, ClientError>(InvokeOutcome::Returned(h)),
                None => Err::<InvokeOutcome, ClientError>(ClientError::UnexpectedReturnType),
            }
        }),
        !(reply is VirtualInvoke) ==> r == Err::<InvokeOutcome, ClientError>(
            ClientError::UnexpectedReply,
        ),
{
    match reply {
        Reply::VirtualInvoke { return_value, exception } => {
            if exception != 0 {
                Ok(InvokeOutcome::Threw(exception))
            } else {
                match return_value {
                    WireValue::Object(h) => Ok(InvokeOutcome::Returned(h)),
                    WireValue::Array(h) => Ok(InvokeOutcome::Returned(h)),
                    WireValue::ClassObject(h) => Ok(InvokeOutcome::Returned(h)),
                    WireValue::StringRef(h) => Ok(InvokeOutcome::Returned(h)),
                    _ => Err(ClientError::UnexpectedReturnType),
                }
            }
        },
        _ => Err(ClientError::UnexpectedReply),
    }
}

/// Builds the command that fills a freshly allocated remote array: the
/// whole array is written in one call, starting at index zero.
pub fn make_fill_array_command(array: u64, values: Vec<WireValue>) -> (c: Command)
    ensures
        c == (Command::SetArrayValues { array, first_index: 0u32, values }),
{
    Command::SetArrayValues { array, first_index: 0, values }
}

/// Builds a static-method invocation command; invocation options are always
/// zero here.
pub fn make_static_invoke(clazz: u64, method: u64, thread: u64, args: Vec<WireValue>) -> (c:
    Command)
    ensures
        c == (Command::StaticInvoke { clazz, method, thread, args, options: 0u32 }),
{
    Command::StaticInvoke { clazz, method, thread, args, options: 0 }
}

/// Builds an instance-method invocation command; invocation options are
/// always zero here.
pub fn make_virtual_invoke(
    object: u64,
    clazz: u64,
    method: u64,
    thread: u64,
    args: Vec<WireValue>,
) -> (c: Command)
    ensures
        c == (Command::VirtualInvoke { object, clazz, method, thread, args, options: 0u32 }),
{
    Command::VirtualInvoke { object, clazz, method, thread, args, options: 0 }
}

} // verus!
