use chat_core::session::ClientSession;
use chat_core::session::InputAction;
use chat_core::session::IoErrorKind;
use chat_core::session::ReadAction;
use chat_core::session::ReadOutcome;
use chat_core::session::on_socket_readable;
use chat_core::session::process_input;
use chat_core::session::would_block;

#[test]
fn test_args_parsing() {
    let cmd = clap::Command::new("test")
        .arg(clap::Arg::new("host").long("host").default_value("127.0.0.1"))
        .arg(
            clap::Arg::new("port")
                .short('p')
                .long("port")
                .default_value("12345"),
        )
        .arg(
            clap::Arg::new("username")
                .short('u')
                .long("username")
                .required(true),
        );
    let args = cmd.get_matches_from([
        "test",
        "--host",
        "192.168.0.1",
        "--port",
        "9000",
        "--username",
        "testuser",
    ]);

    assert_eq!(args.get_one::<String>("host").unwrap(), "192.168.0.1");
    assert_eq!(args.get_one::<String>("port").unwrap(), "9000");
    assert_eq!(args.get_one::<String>("username").unwrap(), "testuser");
}

#[test]
fn test_username_initialization() {
    let username = "testuser";
    let mut session = ClientSession::new();
    let staged = session.handshake_on_writable(&username.as_bytes().to_vec());
    assert!(staged);

    assert_eq!(
        String::from_utf8(session.outbound.clone()).unwrap(),
        "testuser\n"
    );
}

#[test]
fn handshake_staged_exactly_once() {
    let mut session = ClientSession::new();
    assert!(session.handshake_on_writable(&b"testuser".to_vec()));
    assert_eq!(session.outbound, b"testuser\n");
    // a later writable readiness must not stage it again
    assert!(!session.handshake_on_writable(&b"testuser".to_vec()));
    assert_eq!(session.outbound, b"testuser\n");
    assert_eq!(session.bytes_written, 0);
}

#[test]
fn partial_write_resumption_roundtrip() {
    let mut session = ClientSession::new();
    session.stage_message(&b"hello".to_vec());
    assert_eq!(session.outbound, b"hello\n");

    // the socket accepts 2 bytes, then 3, then the last one
    let mut received: Vec<u8> = Vec::new();
    for n in [2usize, 3, 1] {
        let pending: Vec<u8> = session.outbound[session.bytes_written..].to_vec();
        received.extend_from_slice(&pending[..n]);
        session.apply_write_result(n);
    }

    assert_eq!(received, b"hello\n");
    assert!(session.outbound.is_empty());
    assert_eq!(session.bytes_written, 0);
}

#[test]
fn would_block_recognises_only_its_own_kind() {
    assert!(would_block(&IoErrorKind::WouldBlock));
    assert!(!would_block(&IoErrorKind::Other));
}

#[test]
fn socket_read_dispatch() {
    assert!(matches!(
        on_socket_readable(ReadOutcome::Eof),
        ReadAction::CloseByPeer
    ));
    assert!(matches!(
        on_socket_readable(ReadOutcome::WouldBlock),
        ReadAction::NoData
    ));
    assert!(matches!(
        on_socket_readable(ReadOutcome::Fatal),
        ReadAction::FailSession
    ));
    match on_socket_readable(ReadOutcome::Data(b"[alice]: hi\r\n".to_vec())) {
        ReadAction::PrintLine(line) => assert_eq!(line, b"[alice]: hi"),
        _ => panic!("data must become a printed line"),
    }
}

#[test]
fn send_command_stages_a_frame() {
    let mut session = ClientSession::new();
    let act = process_input(&mut session, &b"send hi".to_vec());
    assert_eq!(act, InputAction::WriteNow);
    assert_eq!(session.outbound, b"hi\n");
    assert_eq!(session.bytes_written, 0);
}

#[test]
fn send_with_empty_text_stages_a_bare_newline() {
    let mut session = ClientSession::new();
    let act = process_input(&mut session, &b"send ".to_vec());
    assert_eq!(act, InputAction::WriteNow);
    assert_eq!(session.outbound, b"\n");
}

#[test]
fn leave_command_requests_graceful_exit() {
    let mut session = ClientSession::new();
    let act = process_input(&mut session, &b"leave".to_vec());
    assert_eq!(act, InputAction::ExitGracefully);
    assert!(session.outbound.is_empty());
}

#[test]
fn unknown_input_only_asks_for_usage() {
    let mut session = ClientSession::new();
    for line in [&b"sendx"[..], b"send", b"hello", b"", b"leave now"] {
        let act = process_input(&mut session, &line.to_vec());
        assert_eq!(act, InputAction::ShowUsage);
        assert!(session.outbound.is_empty());
    }
}

#[test]
fn trim_strips_both_ends() {
    assert_eq!(chat_core::protocol::trim_bytes(&b"  hi \r\n".to_vec()), b"hi");
    assert_eq!(chat_core::protocol::trim_bytes(&b"hi".to_vec()), b"hi");
    assert_eq!(chat_core::protocol::trim_bytes(&b" \t\r\n".to_vec()), b"");
    assert_eq!(chat_core::protocol::trim_bytes(&b"".to_vec()), b"");
    assert_eq!(
        chat_core::protocol::trim_bytes(&b" a b \n".to_vec()),
        b"a b"
    );
}
