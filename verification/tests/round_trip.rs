use chat_core::handler::{
    handshake_step, registered_step, Handler, HandshakeAction, HandshakeEvent, SessionAction,
    SessionEvent,
};
use chat_core::protocol::{format_frame, trim_bytes};
use chat_core::registry::Registry;
use chat_core::session::{
    on_socket_readable, process_input, ClientSession, InputAction, ReadAction, ReadOutcome,
};

/// One message travels the whole way without any socket: alice's client
/// stages it, the server hands it out to everyone but alice, and bob's
/// client shows the broadcast line.
#[test]
fn message_round_trip_between_two_clients() {
    // both clients join
    let mut reg = Registry::new();
    let mut alice_handler = Handler::new(1);
    assert_eq!(
        handshake_step(&mut alice_handler, &mut reg, HandshakeEvent::Bytes(b"alice\n".to_vec())),
        HandshakeAction::Joined
    );
    let mut bob_handler = Handler::new(2);
    assert_eq!(
        handshake_step(&mut bob_handler, &mut reg, HandshakeEvent::Bytes(b"bob\n".to_vec())),
        HandshakeAction::Joined
    );

    // alice types `send hi`; her client stages the frame and flushes it whole
    let mut alice = ClientSession::new();
    assert_eq!(
        process_input(&mut alice, &b"send hi".to_vec()),
        InputAction::WriteNow
    );
    let wire: Vec<u8> = alice.outbound.clone();
    let accepted = wire.len();
    alice.apply_write_result(accepted);
    assert!(alice.outbound.is_empty());
    assert_eq!(wire, b"hi\n");

    // the server reads the line (its reader strips the terminator) and fans it out
    let line = trim_bytes(&wire);
    let text = match registered_step(&mut alice_handler, SessionEvent::Line(line)) {
        SessionAction::Broadcast(text) => text,
        SessionAction::Close => panic!("a chat line must be broadcast"),
    };
    let frame = format_frame(&alice_handler.username, &text);
    assert_eq!(frame, b"[alice]: hi\n");
    let targets = reg.broadcast_targets(&alice_handler.username);
    assert_eq!(targets, vec![2]);

    // bob's client receives the frame and shows exactly the broadcast line
    match on_socket_readable(ReadOutcome::Data(frame)) {
        ReadAction::PrintLine(line) => assert_eq!(line, b"[alice]: hi"),
        _ => panic!("data must become a printed line"),
    }
}
