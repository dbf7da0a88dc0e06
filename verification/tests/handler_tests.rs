use chat_core::handler::Handler;
use chat_core::handler::HandlerState;
use chat_core::handler::HandshakeAction;
use chat_core::handler::HandshakeEvent;
use chat_core::handler::SessionAction;
use chat_core::handler::SessionEvent;
use chat_core::handler::finish_close;
use chat_core::handler::handshake_step;
use chat_core::handler::registered_step;
use chat_core::protocol::invalid_username_line;
use chat_core::protocol::name_taken_line;
use chat_core::protocol::validate_username;
use chat_core::registry::Registry;

#[test]
fn handshake_registers_a_fresh_valid_name() {
    let mut reg = Registry::new();
    let mut h = Handler::new(1);
    let act = handshake_step(&mut h, &mut reg, HandshakeEvent::Bytes(b"alice\n".to_vec()));
    assert_eq!(act, HandshakeAction::Joined);
    assert_eq!(h.state, HandlerState::Registered);
    assert_eq!(h.username, b"alice");
    assert!(reg.contains_name(&b"alice".to_vec()));
    assert_eq!(reg.conn_of(&b"alice".to_vec()), Some(1));
}

#[test]
fn second_join_under_the_same_name_is_rejected() {
    let mut reg = Registry::new();
    let mut first = Handler::new(1);
    assert_eq!(
        handshake_step(&mut first, &mut reg, HandshakeEvent::Bytes(b"alice\n".to_vec())),
        HandshakeAction::Joined
    );
    let mut second = Handler::new(2);
    let act = handshake_step(&mut second, &mut reg, HandshakeEvent::Bytes(b"alice\n".to_vec()));
    assert_eq!(act, HandshakeAction::SendTaken);
    assert_eq!(second.state, HandlerState::AwaitingUsername);
    assert_eq!(reg.member_count(), 1);
    assert_eq!(reg.conn_of(&b"alice".to_vec()), Some(1));
    assert_eq!(name_taken_line(), b"Username is already taken\n");
}

#[test]
fn invalid_candidate_is_discarded_before_the_retry() {
    let mut reg = Registry::new();
    let mut h = Handler::new(1);
    let act = handshake_step(&mut h, &mut reg, HandshakeEvent::Bytes(b"bad name\n".to_vec()));
    assert_eq!(act, HandshakeAction::SendInvalid);
    assert!(h.candidate.is_empty());
    assert_eq!(reg.member_count(), 0);
    // the bad candidate is gone: a clean retry succeeds
    let act = handshake_step(&mut h, &mut reg, HandshakeEvent::Bytes(b"alice\n".to_vec()));
    assert_eq!(act, HandshakeAction::Joined);
    assert_eq!(h.username, b"alice");
    assert_eq!(invalid_username_line(), b"Invalid username\n");
}

#[test]
fn username_validation_edges() {
    assert!(validate_username(&b"alice".to_vec()));
    assert!(!validate_username(&b"".to_vec()));
    assert!(!validate_username(&b"a b".to_vec()));
    assert!(!validate_username(&b"a\tb".to_vec()));
    assert!(!validate_username(&b"/leave".to_vec()));
    assert!(validate_username(&b"/leaver".to_vec()));
}

#[test]
fn handshake_ends_on_end_of_stream() {
    let mut reg = Registry::new();
    let mut h = Handler::new(1);
    let act = handshake_step(&mut h, &mut reg, HandshakeEvent::EndOfStream);
    assert_eq!(act, HandshakeAction::Close);
    assert_eq!(h.state, HandlerState::Closed);
    assert_eq!(reg.member_count(), 0);
}

#[test]
fn chat_lines_are_broadcast_and_leave_closes() {
    let mut reg = Registry::new();
    let mut h = Handler::new(1);
    assert_eq!(
        handshake_step(&mut h, &mut reg, HandshakeEvent::Bytes(b"alice\n".to_vec())),
        HandshakeAction::Joined
    );
    match registered_step(&mut h, SessionEvent::Line(b"hi".to_vec())) {
        SessionAction::Broadcast(text) => assert_eq!(text, b"hi"),
        SessionAction::Close => panic!("a chat line must be broadcast"),
    }
    assert_eq!(h.state, HandlerState::Registered);
    match registered_step(&mut h, SessionEvent::Line(b"/leave".to_vec())) {
        SessionAction::Close => {}
        SessionAction::Broadcast(_) => panic!("the leave token must close the session"),
    }
    assert_eq!(h.state, HandlerState::Closed);
    finish_close(&mut h, &mut reg);
    assert!(!reg.contains_name(&b"alice".to_vec()));
    assert_eq!(reg.member_count(), 0);
}

#[test]
fn abrupt_disconnect_still_cleans_up() {
    let mut reg = Registry::new();
    let mut h = Handler::new(1);
    assert_eq!(
        handshake_step(&mut h, &mut reg, HandshakeEvent::Bytes(b"bob\n".to_vec())),
        HandshakeAction::Joined
    );
    let mut other = Handler::new(2);
    assert_eq!(
        handshake_step(&mut other, &mut reg, HandshakeEvent::Bytes(b"carol\n".to_vec())),
        HandshakeAction::Joined
    );
    // bob's connection dies without a leave line
    match registered_step(&mut h, SessionEvent::ReadError) {
        SessionAction::Close => {}
        SessionAction::Broadcast(_) => panic!("a read error must close the session"),
    }
    finish_close(&mut h, &mut reg);
    assert!(!reg.contains_name(&b"bob".to_vec()));
    // the other member is untouched
    assert!(reg.contains_name(&b"carol".to_vec()));
    assert_eq!(reg.member_count(), 1);
}
