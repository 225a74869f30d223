//! The synchronization barrier's rules: arming a watch for the moment a
//! class from the designated source file becomes ready (with the target
//! suspended when it fires), and recognising that moment in the event
//! stream. The barrier runs outside the request/reply pattern: it inspects
//! every event batch itself for the kind it watches for.

use vstd::prelude::*;

use crate::packets::Command;
use crate::packets::EventKind;
use crate::packets::Packet;

verus! {

/// The wire protocol's tag for the "class becomes ready" event kind.
pub const EVENT_KIND_CLASS_PREPARE: u8 = 8;

/// The event-request policy that suspends the target's whole virtual
/// machine when the watched event fires.
pub const SUSPEND_POLICY_ALL: u8 = 2;

/// Builds the watch for a class from the given source file becoming ready,
/// with the target suspended when it fires.
pub fn make_class_prepare_request(source_name_pattern: Vec<u8>) -> (c: Command)
    ensures
        c == (Command::EventRequestSet {
            event_kind: EVENT_KIND_CLASS_PREPARE,
            suspend_policy: SUSPEND_POLICY_ALL,
            source_name_pattern,
        }),
{
    Command::EventRequestSet {
        event_kind: EVENT_KIND_CLASS_PREPARE,
        suspend_policy: SUSPEND_POLICY_ALL,
        source_name_pattern,
    }
}

/// Whether an event batch contains a given kind. The kind is the caller's
/// to choose, so a new watched kind needs no change here.
pub fn batch_contains(events: &Vec<EventKind>, kind: EventKind) -> (r: bool)
    ensures
        r == events@.contains(kind),
{
    let mut i: usize = 0;
    while i < events.len()
        invariant
            i <= events@.len(),
            forall|j: int| 0 <= j < i ==> events@[j] != kind,
        decreases events@.len() - i,
    {
        if events[i] == kind {
            return true;
        }
        i = i + 1;
    }
    false
}

/// Whether a packet is the batch the barrier waits for: an event batch
/// containing the "class becomes ready" kind. Every other packet is ignored
/// and waiting continues.
pub open spec fn spec_barrier_reached(p: Packet) -> bool {
    p matches Packet::Event(events) && events@.contains(EventKind::ClassPrepare)
}

/// Decides whether a packet releases the barrier.
pub fn barrier_reached(p: &Packet) -> (r: bool)
    ensures
        r == spec_barrier_reached(*p),
{
    match p {
        Packet::Event(events) => batch_contains(events, EventKind::ClassPrepare),
        Packet::Reply(_) => false,
    }
}

} // verus!
