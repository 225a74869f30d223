//! The correlation engine's decision rules: what the receive loop does with
//! each inbound packet, how a pending command's reply is told apart from the
//! asynchronous event stream, and the per-session command bookkeeping
//! (monotonic command ids, the bootstrap ordering, termination).
//!
//! The engine issues commands one at a time: a caller never sends a new
//! command before the previous one's reply or error has been produced. Under
//! that discipline the reply to a command is, by definition, the first
//! non-event packet that arrives after the command's bytes are written.

use vstd::prelude::*;

use crate::barrier::batch_contains;
use crate::errors::ClientError;
use crate::packets::Command;
use crate::packets::EventKind;
use crate::packets::IdSizes;
use crate::packets::Packet;
use crate::packets::Reply;

verus! {

/// What the receive loop does with one inbound packet.
#[derive(Debug, PartialEq, Eq, Clone, Copy)]
pub enum RecvAction {
    /// Decoded: forward it, in arrival order, to the dispatch side.
    Forward,
    /// Undecodable before the protocol context is known: drop it silently.
    Discard,
    /// Undecodable after the context is known: a fatal protocol violation.
    Fatal,
}

/// What the dispatch loop does with one packet while a reply is awaited.
#[derive(Debug, PartialEq, Eq, Clone, Copy)]
pub enum WaitVerdict {
    /// A non-event packet: the reply to the command in flight.
    Deliver,
    /// An event batch announcing the target's termination.
    Terminated,
    /// Any other event batch: absorb it and keep waiting.
    Drain,
}

/// Result of scanning an arrival sequence for the pending command's reply.
pub enum AwaitOutcome {
    /// The first non-event packet, the reply.
    Delivered(Reply),
    /// A termination event arrived before any reply.
    Terminated,
    /// The sequence ended with neither.
    Exhausted,
}

/// The receive loop's rule for one inbound packet, given whether the
/// protocol context is installed and whether the packet decoded.
pub open spec fn spec_inbound_action(context_ready: bool, decoded: bool) -> RecvAction {
    if decoded {
        RecvAction::Forward
    } else if context_ready {
        RecvAction::Fatal
    } else {
        RecvAction::Discard
    }
}

/// Decides what the receive loop does with one inbound packet.
pub fn classify_inbound(context_ready: bool, decoded: bool) -> (r: RecvAction)
    ensures
        r == spec_inbound_action(context_ready, decoded),
{
    if decoded {
        RecvAction::Forward
    } else if context_ready {
        RecvAction::Fatal
    } else {
        RecvAction::Discard
    }
}

/// LAW. Before the protocol context is installed, no decode failure is
/// fatal: stray bytes arriving ahead of the bootstrap exchange are dropped.
pub proof fn lemma_no_decode_fatality_before_bootstrap(decoded: bool)
    ensures
        spec_inbound_action(false, decoded) != RecvAction::Fatal,
{
}

/// An event batch that announces nothing fatal: it is drained and waiting
/// continues.
pub open spec fn spec_benign_event(p: Packet) -> bool {
    p matches Packet::Event(events) && !events@.contains(EventKind::VmDeath)
}

/// The dispatch loop's rule for one packet taken from the queue while a
/// command's reply is awaited.
pub open spec fn spec_classify_packet(p: Packet) -> WaitVerdict {
    match p {
        Packet::Reply(_) => WaitVerdict::Deliver,
        Packet::Event(events) => {
            if events@.contains(EventKind::VmDeath) {
                WaitVerdict::Terminated
            } else {
                WaitVerdict::Drain
            }
        },
    }
}

/// Decides what the dispatch loop does with one packet while waiting.
pub fn classify_packet(p: &Packet) -> (r: WaitVerdict)
    ensures
        r == spec_classify_packet(*p),
{
    match p {
        Packet::Reply(_) => WaitVerdict::Deliver,
        Packet::Event(events) => {
            if batch_contains(events, EventKind::VmDeath) {
                WaitVerdict::Terminated
            } else {
                WaitVerdict::Drain
            }
        },
    }
}

/// The reply that scanning the arrivals from `start` onward produces: the
/// first non-event packet, unless a termination event comes first or the
/// arrivals run out.
pub open spec fn spec_await(packets: Seq<Packet>, start: int) -> AwaitOutcome
    decreases packets.len() - start,
{
    if !(0 <= start && start < packets.len()) {
        AwaitOutcome::Exhausted
    } else {
        match packets[start] {
            Packet::Reply(rep) => AwaitOutcome::Delivered(rep),
            Packet::Event(events) => {
                if events@.contains(EventKind::VmDeath) {
                    AwaitOutcome::Terminated
                } else {
                    spec_await(packets, start + 1)
                }
            },
        }
    }
}

/// Scanning from just past an inserted packet behaves as scanning the
/// original sequence from the insertion point.
proof fn lemma_await_shift(packets: Seq<Packet>, extra: Packet, j: int, m: int)
    requires
        0 <= j <= packets.len(),
        j <= m <= packets.len(),
    ensures
        spec_await(packets.insert(j, extra), m + 1) == spec_await(packets, m),
    decreases packets.len() - m,
{
    let ins = packets.insert(j, extra);
    if m < packets.len() {
        assert(ins[m + 1] == packets[m]);
        match packets[m] {
            Packet::Reply(_) => {},
            Packet::Event(events) => {
                if !events@.contains(EventKind::VmDeath) {
                    lemma_await_shift(packets, extra, j, m + 1);
                }
            },
        }
    }
}

/// LAW. Correlation is unaffected by interleaved events: inserting any
/// benign event batch anywhere at or after the scan's start changes neither
/// which reply is delivered, nor a termination or exhaustion outcome. Under
/// the one-command-in-flight discipline, the reply each caller observes is
/// therefore the reply to the most recently sent command, however many
/// asynchronous event packets arrive between send and reply.
pub proof fn lemma_correlation_ignores_events(
    packets: Seq<Packet>,
    start: int,
    j: int,
    events: Vec<EventKind>,
)
    requires
        0 <= start <= packets.len(),
        start <= j <= packets.len(),
        !events@.contains(EventKind::VmDeath),
    ensures
        spec_await(packets.insert(j, Packet::Event(events)), start) == spec_await(packets, start),
    decreases j - start,
{
    let ins = packets.insert(j, Packet::Event(events));
    if start == j {
        assert(ins[start] == Packet::Event(events));
        lemma_await_shift(packets, Packet::Event(events), j, start);
    } else {
        assert(ins[start] == packets[start]);
        match packets[start] {
            Packet::Reply(_) => {},
            Packet::Event(es) => {
                if !es@.contains(EventKind::VmDeath) {
                    lemma_correlation_ignores_events(packets, start + 1, j, events);
                }
            },
        }
    }
}

/// Scans a recorded arrival sequence from `start` for the pending command's
/// reply, draining benign event batches, exactly as the dispatch loop does
/// on the live queue. Returns the index of the delivered reply.
pub fn await_reply(packets: &Vec<Packet>, start: usize) -> (r: Result<usize, ClientError>)
    requires
        start <= packets@.len(),
    ensures
        spec_await(packets@, start as int) matches AwaitOutcome::Delivered(rep) ==> (r matches Ok(
            i,
        ) && start <= i < packets@.len() && packets@[i as int] == Packet::Reply(rep) && (forall|
            j: int,
        |
            start <= j < i ==> spec_benign_event(packets@[j]))),
        spec_await(packets@, start as int) is Terminated ==> r == Err::<usize, ClientError>(
            ClientError::TargetTerminated,
        ),
        spec_await(packets@, start as int) is Exhausted ==> r == Err::<usize, ClientError>(
            ClientError::ChannelClosed,
        ),
{
    let mut i: usize = start;
    while i < packets.len()
        invariant
            start <= i <= packets@.len(),
            spec_await(packets@, start as int) == spec_await(packets@, i as int),
            forall|j: int| start <= j < i ==> spec_benign_event(packets@[j]),
        decreases packets@.len() - i,
    {
        match classify_packet(&packets[i]) {
            WaitVerdict::Deliver => {
                return Ok(i);
            },
            WaitVerdict::Terminated => {
                return Err(ClientError::TargetTerminated);
            },
            WaitVerdict::Drain => {
                i = i + 1;
            },
        }
    }
    Err(ClientError::ChannelClosed)
}

/// The per-session parameters needed to decode identifier-bearing fields:
/// empty at connection start, installed exactly once from the bootstrap
/// reply, never mutated again.
#[derive(Debug, PartialEq, Eq, Clone, Copy)]
pub struct ProtocolContext {
    pub id_sizes: Option<IdSizes>,
}

impl ProtocolContext {
    /// Whether the widths have been installed.
    pub open spec fn is_ready(self) -> bool {
        self.id_sizes is Some
    }

    /// A context with no widths yet.
    pub fn new() -> (r: ProtocolContext)
        ensures
            !r.is_ready(),
    {
        ProtocolContext { id_sizes: None }
    }
}

/// The dispatch side's command bookkeeping: the monotonic command id, the
/// history of issued commands (kept for diagnostics, and here the record
/// over which the bootstrap ordering is stated), the protocol context, and
/// whether the session saw the target terminate.
#[derive(Debug, Clone)]
pub struct SessionCore {
    pub context: ProtocolContext,
    pub next_id: u64,
    pub history: Vec<Command>,
    pub terminated: bool,
}

impl SessionCore {
    /// Command ids are the history's indices — issued from zero, strictly
    /// increasing, never reused — and until the protocol context is
    /// installed the history holds nothing but the identifier-size query.
    pub open spec fn wf(self) -> bool {
        &&& self.next_id as int == self.history@.len()
        &&& !self.context.is_ready() ==> (forall|k: int|
            0 <= k < self.history@.len() ==> self.history@[k] is IdSizes)
    }

    /// A fresh session: nothing issued, context empty, target alive.
    pub fn new() -> (r: SessionCore)
        ensures
            r.wf(),
            r.history@.len() == 0,
            r.next_id == 0,
            !r.context.is_ready(),
            !r.terminated,
    {
        SessionCore { context: ProtocolContext::new(), next_id: 0, history: Vec::new(), terminated: false }
    }

    /// Records one issued command and hands out its id. Until the context
    /// is installed only the identifier-size query may be issued, and
    /// nothing may be issued after the target terminated.
    pub fn begin_command(&mut self, cmd: Command) -> (id: u64)
        requires
            old(self).wf(),
            !old(self).terminated,
            old(self).context.is_ready() || cmd is IdSizes,
            old(self).history@.len() < u64::MAX,
        ensures
            final(self).wf(),
            id == old(self).next_id,
            final(self).next_id == old(self).next_id + 1,
            final(self).history@ == old(self).history@.push(cmd),
            final(self).context == old(self).context,
            final(self).terminated == old(self).terminated,
    {
        let id = self.next_id;
        self.history.push(cmd);
        self.next_id = self.next_id + 1;
        id
    }

    /// Installs the negotiated widths, exactly once, from the bootstrap
    /// reply.
    pub fn complete_bootstrap(&mut self, sizes: IdSizes)
        requires
            old(self).wf(),
            !old(self).context.is_ready(),
            sizes.wf(),
        ensures
            final(self).wf(),
            final(self).context.id_sizes == Some(sizes),
            final(self).context.is_ready(),
            final(self).next_id == old(self).next_id,
            final(self).history@ == old(self).history@,
            final(self).terminated == old(self).terminated,
    {
        self.context = ProtocolContext { id_sizes: Some(sizes) };
    }

    /// Marks the target as terminated; no command can be issued afterwards.
    pub fn mark_terminated(&mut self)
        requires
            old(self).wf(),
        ensures
            final(self).wf(),
            final(self).terminated,
            final(self).context == old(self).context,
            final(self).next_id == old(self).next_id,
            final(self).history@ == old(self).history@,
    {
        self.terminated = true;
    }
}

/// LAW. Bootstrap ordering: in any well-formed session whose protocol
/// context is not yet installed, every command ever issued is the
/// identifier-size query — no other command precedes the bootstrap
/// exchange.
pub proof fn lemma_bootstrap_only_id_sizes(s: SessionCore)
    requires
        s.wf(),
        !s.context.is_ready(),
    ensures
        forall|k: int| 0 <= k < s.history@.len() ==> s.history@[k] is IdSizes,
{
}

} // verus!
