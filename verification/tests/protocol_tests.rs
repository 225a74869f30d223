use jcalc::barrier::barrier_reached;
use jcalc::barrier::batch_contains;
use jcalc::barrier::make_class_prepare_request;
use jcalc::engine::await_reply;
use jcalc::engine::classify_inbound;
use jcalc::engine::classify_packet;
use jcalc::engine::RecvAction;
use jcalc::engine::SessionCore;
use jcalc::engine::WaitVerdict;
use jcalc::errors::ClientError;
use jcalc::lookup::bytes_eq;
use jcalc::lookup::find_member;
use jcalc::lookup::first_thread;
use jcalc::lookup::interpret_created_string;
use jcalc::lookup::interpret_find_class;
use jcalc::lookup::interpret_find_field;
use jcalc::lookup::interpret_find_method;
use jcalc::lookup::interpret_id_sizes;
use jcalc::lookup::interpret_invoke_static;
use jcalc::lookup::interpret_invoke_virtual;
use jcalc::lookup::interpret_new_array;
use jcalc::lookup::interpret_static_field_object;
use jcalc::lookup::interpret_string_value;
use jcalc::lookup::make_fill_array_command;
use jcalc::lookup::make_static_invoke;
use jcalc::lookup::make_virtual_invoke;
use jcalc::lookup::InvokeOutcome;
use jcalc::packets::Command;
use jcalc::packets::EventKind;
use jcalc::packets::IdSizes;
use jcalc::packets::MemberInfo;
use jcalc::packets::Packet;
use jcalc::packets::Reply;
use jcalc::packets::WireValue;
use jcalc::wire::frame_total_length;
use jcalc::wire::handshake_bytes;
use jcalc::wire::handshake_matches;
use jcalc::wire::payload_length;
use jcalc::wire::FrameError;

fn sizes() -> IdSizes {
    IdSizes { object: 8, reference_type: 8, method: 8, field: 8 }
}

#[test]
fn test_handshake_banner() {
    let banner = handshake_bytes();
    assert_eq!(banner.as_slice(), b"JDWP-Handshake");
    assert_eq!(banner.len(), 14);
    assert!(handshake_matches(b"JDWP-Handshake"));
    assert!(!handshake_matches(b"JDWP-Handshakf"));
    assert!(!handshake_matches(b"JDWP-Handshak"));
    assert!(!handshake_matches(b""));
}

#[test]
fn test_frame_lengths() {
    assert_eq!(frame_total_length(10), Ok(14));
    assert_eq!(frame_total_length(0), Ok(4));
    assert_eq!(frame_total_length(u32::MAX as usize), Err(FrameError::PayloadTooLong));
    assert_eq!(payload_length(14), Ok(10));
    assert_eq!(payload_length(4), Ok(0));
    assert_eq!(payload_length(3), Err(FrameError::LengthFieldTooSmall));
    assert_eq!(payload_length(0), Err(FrameError::LengthFieldTooSmall));
}

#[test]
fn test_inbound_classification() {
    assert_eq!(classify_inbound(false, true), RecvAction::Forward);
    assert_eq!(classify_inbound(true, true), RecvAction::Forward);
    assert_eq!(classify_inbound(false, false), RecvAction::Discard);
    assert_eq!(classify_inbound(true, false), RecvAction::Fatal);
}

#[test]
fn test_packet_classification() {
    assert_eq!(classify_packet(&Packet::Reply(Reply::Ack)), WaitVerdict::Deliver);
    assert_eq!(
        classify_packet(&Packet::Event(vec![EventKind::Other, EventKind::ClassPrepare])),
        WaitVerdict::Drain
    );
    assert_eq!(
        classify_packet(&Packet::Event(vec![EventKind::Other, EventKind::VmDeath])),
        WaitVerdict::Terminated
    );
    assert_eq!(classify_packet(&Packet::Event(vec![])), WaitVerdict::Drain);
}

#[test]
fn test_await_reply_drains_interleaved_events() {
    let packets = vec![
        Packet::Event(vec![EventKind::Other]),
        Packet::Event(vec![EventKind::ClassPrepare]),
        Packet::Reply(Reply::Ack),
        Packet::Event(vec![EventKind::Other]),
        Packet::Reply(Reply::CreatedString { string_object: 9 }),
    ];
    assert_eq!(await_reply(&packets, 0), Ok(2));
    assert_eq!(await_reply(&packets, 3), Ok(4));
}

#[test]
fn test_await_reply_termination() {
    let packets = vec![
        Packet::Event(vec![EventKind::Other]),
        Packet::Event(vec![EventKind::VmDeath]),
        Packet::Reply(Reply::Ack),
    ];
    assert_eq!(await_reply(&packets, 0), Err(ClientError::TargetTerminated));
}

#[test]
fn test_await_reply_exhausted() {
    let packets = vec![
        Packet::Event(vec![EventKind::Other]),
        Packet::Event(vec![EventKind::ClassPrepare]),
    ];
    assert_eq!(await_reply(&packets, 0), Err(ClientError::ChannelClosed));
}

#[test]
fn test_session_bootstrap_ordering() {
    let mut session = SessionCore::new();
    let first = session.begin_command(Command::IdSizes);
    assert_eq!(first, 0);
    session.complete_bootstrap(sizes());
    let second = session.begin_command(Command::Resume);
    assert_eq!(second, 1);
    let third = session.begin_command(Command::AllThreads);
    assert_eq!(third, 2);
    assert_eq!(session.history.len(), 3);
    assert_eq!(session.next_id, 3);
}

#[test]
fn test_session_termination_flag() {
    let mut session = SessionCore::new();
    session.begin_command(Command::IdSizes);
    session.mark_terminated();
    assert!(session.terminated);
}

#[test]
fn test_barrier_request_and_release() {
    let request = make_class_prepare_request(b"Main.java".to_vec());
    assert_eq!(
        request,
        Command::EventRequestSet {
            event_kind: 8,
            suspend_policy: 2,
            source_name_pattern: b"Main.java".to_vec(),
        }
    );
    assert!(!barrier_reached(&Packet::Event(vec![EventKind::Other])));
    assert!(barrier_reached(&Packet::Event(vec![EventKind::Other, EventKind::ClassPrepare])));
    assert!(!barrier_reached(&Packet::Reply(Reply::Ack)));
    assert!(batch_contains(&vec![EventKind::VmDeath], EventKind::VmDeath));
    assert!(!batch_contains(&vec![], EventKind::VmDeath));
}

#[test]
fn test_bytes_eq() {
    assert!(bytes_eq(b"add", b"add"));
    assert!(!bytes_eq(b"add", b"Add"));
    assert!(!bytes_eq(b"add", b"addx"));
    assert!(bytes_eq(b"", b""));
}

#[test]
fn test_interpret_id_sizes() {
    assert_eq!(interpret_id_sizes(Reply::IdSizes(sizes())), Ok(sizes()));
    let degenerate = IdSizes { object: 0, reference_type: 8, method: 8, field: 8 };
    assert_eq!(
        interpret_id_sizes(Reply::IdSizes(degenerate)),
        Err(ClientError::UnexpectedReply)
    );
    assert_eq!(interpret_id_sizes(Reply::Ack), Err(ClientError::UnexpectedReply));
}

#[test]
fn test_interpret_find_class() {
    assert_eq!(interpret_find_class(Reply::Classes { type_ids: vec![7, 9] }), Ok(7));
    assert_eq!(
        interpret_find_class(Reply::Classes { type_ids: vec![] }),
        Err(ClientError::ClassNotFound)
    );
    assert_eq!(interpret_find_class(Reply::Ack), Err(ClientError::UnexpectedReply));
}

fn member(id: u64, name: &str, signature: &str) -> MemberInfo {
    MemberInfo { id, name: name.as_bytes().to_vec(), signature: signature.as_bytes().to_vec() }
}

#[test]
fn test_find_member_exact_joint_match() {
    let declared = vec![
        member(1, "add", "(I)I"),
        member(2, "add", "(Ljava/math/BigInteger;)Ljava/math/BigInteger;"),
        member(3, "subtract", "(Ljava/math/BigInteger;)Ljava/math/BigInteger;"),
    ];
    // both name and signature must match; the name alone is not enough.
    assert_eq!(
        find_member(&declared, b"add", b"(Ljava/math/BigInteger;)Ljava/math/BigInteger;"),
        Some(2)
    );
    assert_eq!(find_member(&declared, b"add", b"()V"), None);
    assert_eq!(find_member(&declared, b"multiply", b"(I)I"), None);
}

#[test]
fn test_interpret_find_method() {
    let reply = Reply::Methods {
        declared: vec![member(11, "valueOf", "(J)Ljava/lang/Long;"), member(12, "valueOf", "(I)I")],
    };
    assert_eq!(interpret_find_method(reply, b"valueOf", b"(J)Ljava/lang/Long;"), Ok(11));
    let reply = Reply::Methods { declared: vec![member(11, "valueOf", "(J)Ljava/lang/Long;")] };
    assert_eq!(
        interpret_find_method(reply, b"valueOf", b"(D)D"),
        Err(ClientError::MethodNotFound)
    );
    assert_eq!(
        interpret_find_method(Reply::Ack, b"valueOf", b"(D)D"),
        Err(ClientError::UnexpectedReply)
    );
}

#[test]
fn test_interpret_find_field() {
    let reply = Reply::Fields { declared: vec![member(21, "TYPE", "Ljava/lang/Class;")] };
    assert_eq!(interpret_find_field(reply, b"TYPE", b"Ljava/lang/Class;"), Ok(21));
    let reply = Reply::Fields { declared: vec![member(21, "TYPE", "Ljava/lang/Class;")] };
    assert_eq!(
        interpret_find_field(reply, b"MAX_VALUE", b"J"),
        Err(ClientError::FieldNotFound)
    );
}

#[test]
fn test_first_thread() {
    assert_eq!(first_thread(Reply::Threads { threads: vec![5, 6, 7] }), Ok(5));
    assert_eq!(
        first_thread(Reply::Threads { threads: vec![] }),
        Err(ClientError::UnexpectedReply)
    );
    assert_eq!(first_thread(Reply::Ack), Err(ClientError::UnexpectedReply));
}

#[test]
fn test_interpret_created_string_and_new_array() {
    assert_eq!(interpret_created_string(Reply::CreatedString { string_object: 33 }), Ok(33));
    assert_eq!(interpret_created_string(Reply::Ack), Err(ClientError::UnexpectedReply));
    assert_eq!(interpret_new_array(Reply::NewArray { new_array: 44 }), Ok(44));
    assert_eq!(interpret_new_array(Reply::Ack), Err(ClientError::UnexpectedReply));
}

#[test]
fn test_interpret_string_value() {
    assert_eq!(
        interpret_string_value(Reply::StringValue { text: b"10".to_vec() }),
        Ok(b"10".to_vec())
    );
    assert_eq!(interpret_string_value(Reply::Ack), Err(ClientError::UnexpectedReply));
}

#[test]
fn test_interpret_static_field_object() {
    let reply = Reply::StaticValues { values: vec![WireValue::ClassObject(55)] };
    assert_eq!(interpret_static_field_object(reply), Ok(55));
    let reply = Reply::StaticValues { values: vec![WireValue::Long(3)] };
    assert_eq!(interpret_static_field_object(reply), Err(ClientError::UnexpectedReturnType));
    let reply = Reply::StaticValues { values: vec![] };
    assert_eq!(interpret_static_field_object(reply), Err(ClientError::UnexpectedReply));
}

#[test]
fn test_interpret_invoke_static() {
    let reply = Reply::StaticInvoke { return_value: WireValue::Object(66), exception: 0 };
    assert_eq!(interpret_invoke_static(reply), Ok(66));
    let reply = Reply::StaticInvoke { return_value: WireValue::StringRef(66), exception: 0 };
    assert_eq!(interpret_invoke_static(reply), Err(ClientError::UnexpectedReturnType));
    assert_eq!(interpret_invoke_static(Reply::Ack), Err(ClientError::UnexpectedReply));
}

#[test]
fn test_interpret_invoke_virtual() {
    let reply = Reply::VirtualInvoke { return_value: WireValue::Object(77), exception: 0 };
    assert_eq!(interpret_invoke_virtual(reply), Ok(InvokeOutcome::Returned(77)));
    let reply = Reply::VirtualInvoke { return_value: WireValue::StringRef(78), exception: 0 };
    assert_eq!(interpret_invoke_virtual(reply), Ok(InvokeOutcome::Returned(78)));
    let reply = Reply::VirtualInvoke { return_value: WireValue::Object(0), exception: 99 };
    assert_eq!(interpret_invoke_virtual(reply), Ok(InvokeOutcome::Threw(99)));
    let reply = Reply::VirtualInvoke { return_value: WireValue::Long(1), exception: 0 };
    assert_eq!(interpret_invoke_virtual(reply), Err(ClientError::UnexpectedReturnType));
}

#[test]
fn test_fill_array_command_starts_at_zero() {
    let c = make_fill_array_command(10, vec![WireValue::Object(3)]);
    assert_eq!(
        c,
        Command::SetArrayValues { array: 10, first_index: 0, values: vec![WireValue::Object(3)] }
    );
}

#[test]
fn test_invoke_builders_fix_options() {
    let c = make_static_invoke(1, 2, 3, vec![WireValue::Long(9)]);
    assert_eq!(
        c,
        Command::StaticInvoke { clazz: 1, method: 2, thread: 3, args: vec![WireValue::Long(9)], options: 0 }
    );
    let c = make_virtual_invoke(4, 5, 6, 7, vec![]);
    assert_eq!(
        c,
        Command::VirtualInvoke { object: 4, clazz: 5, method: 6, thread: 7, args: vec![], options: 0 }
    );
}
