use dbus_async::stream::handshake::list_names_nothing;
use dbus_async::stream::handshake::preamble;
use dbus_async::stream::handshake::read_line;
use dbus_async::stream::handshake::write_line;
use dbus_async::stream::handshake::Handshake;
use dbus_async::stream::handshake::HandshakeError;
use dbus_async::stream::handshake::Next;

fn send(next: Next) -> (Handshake, String) {
    match next {
        Next::Send(handshake, line) => (handshake, line),
        Next::Begin(line) => panic!("unexpected end of the handshake: {}", line),
        Next::Fail(e) => panic!("unexpected failure: {:?}", e),
    }
}

fn begin(next: Next) -> String {
    match next {
        Next::Begin(line) => line,
        Next::Send(_, line) => panic!("unexpected line: {}", line),
        Next::Fail(e) => panic!("unexpected failure: {:?}", e),
    }
}

fn fail(next: Next) -> HandshakeError {
    match next {
        Next::Fail(e) => e,
        Next::Send(_, line) => panic!("unexpected line: {}", line),
        Next::Begin(line) => panic!("unexpected end of the handshake: {}", line),
    }
}

#[test]
fn preamble_is_the_nonce_and_a_zero_byte() {
    assert_eq!(preamble(&None), vec![0u8]);
    let nonce: [u8; 16] = [1, 2, 3, 4, 5, 6, 7, 8, 9, 10, 11, 12, 13, 14, 15, 16];
    let bytes = preamble(&Some(nonce));
    assert_eq!(bytes.len(), 17);
    assert_eq!(&bytes[..16], &nonce[..]);
    assert_eq!(bytes[16], 0);
}

#[test]
fn lines_end_with_carriage_return_and_line_feed() {
    assert_eq!(write_line("AUTH"), "AUTH\r\n");
    assert_eq!(write_line(""), "\r\n");
    assert_eq!(read_line("OK 1234\r\n".to_string()), "OK 1234");
    assert_eq!(read_line("OK 1234\n".to_string()), "OK 1234\n");
    assert_eq!(read_line("OK 1234".to_string()), "OK 1234");
    assert_eq!(read_line("\r\n".to_string()), "");
    assert_eq!(read_line("\n".to_string()), "\n");
    assert_eq!(read_line(String::new()), "");
}

#[test]
fn external_with_unix_fd() {
    let (handshake, line) = Handshake::new(1000, true);
    assert_eq!(line, "AUTH");
    let (handshake, line) = send(handshake.receive("REJECTED EXTERNAL DBUS_COOKIE_SHA1 ANONYMOUS"));
    assert_eq!(line, "AUTH EXTERNAL 31303030");
    let (handshake, line) = send(handshake.receive("OK 1234deadbeef"));
    assert_eq!(line, "NEGOTIATE_UNIX_FD");
    assert_eq!(begin(handshake.receive("AGREE_UNIX_FD")), "BEGIN");
}

#[test]
fn external_credential_is_the_hex_of_the_decimal_uid() {
    for (uid, hex) in [(0u32, "30"), (7, "37"), (1000, "31303030"), (4294967295, "34323934393637323935")]
    {
        let (handshake, _) = Handshake::new(uid, false);
        assert_eq!(handshake.auth_external(), format!("AUTH EXTERNAL {}", hex));
        let (_, line) = send(handshake.receive("REJECTED EXTERNAL"));
        assert_eq!(line, format!("AUTH EXTERNAL {}", hex));
    }
}

#[test]
fn without_unix_fd_begin_follows_the_authentication() {
    let (handshake, _) = Handshake::new(0, false);
    let (handshake, line) = send(handshake.receive("REJECTED EXTERNAL"));
    assert_eq!(line, "AUTH EXTERNAL 30");
    assert_eq!(begin(handshake.receive("OK 1234")), "BEGIN");
}

#[test]
fn mechanisms_are_tried_in_the_order_of_the_daemon() {
    let (handshake, _) = Handshake::new(1, false);
    let (handshake, line) = send(handshake.receive("REJECTED KERBEROS ANONYMOUS EXTERNAL"));
    assert_eq!(line, "AUTH ANONYMOUS 646275732d6173796e63");
    assert_eq!(handshake.auth_anonymous(), "AUTH ANONYMOUS 646275732d6173796e63");
    let (handshake, line) = send(handshake.receive("REJECTED EXTERNAL"));
    assert_eq!(line, "AUTH EXTERNAL 31");
    assert_eq!(begin(handshake.receive("OK 1")), "BEGIN");
}

#[test]
fn anonymous_credential_is_the_hex_of_the_client_name() {
    let name: String = "dbus-async".bytes().map(|b| format!("{:02x}", b)).collect();
    assert_eq!(name, "646275732d6173796e63");
}

#[test]
fn no_mechanism_list_fails() {
    let (handshake, _) = Handshake::new(1, false);
    assert!(matches!(fail(handshake.receive("OK 1234")), HandshakeError::NoMechanism));
    let (handshake, _) = Handshake::new(1, false);
    assert!(matches!(fail(handshake.receive("REJECTED")), HandshakeError::NoMechanism));
    let (handshake, _) = Handshake::new(1, false);
    assert!(matches!(fail(handshake.receive("")), HandshakeError::NoMechanism));
}

#[test]
fn an_empty_mechanism_list_fails() {
    let (handshake, _) = Handshake::new(1, false);
    assert!(matches!(fail(handshake.receive("REJECTED ")), HandshakeError::NoMechanism));
    let (handshake, _) = Handshake::new(1, false);
    assert!(matches!(fail(handshake.receive("REJECTED   ")), HandshakeError::NoMechanism));
    assert!(list_names_nothing(&vec![String::new(), String::new()]));
    assert!(list_names_nothing(&Vec::new()));
    assert!(!list_names_nothing(&vec![String::new(), "X".to_string()]));
}

#[test]
fn no_supported_mechanism_fails() {
    let (handshake, _) = Handshake::new(1, false);
    assert!(matches!(
        fail(handshake.receive("REJECTED DBUS_COOKIE_SHA1 KERBEROS")),
        HandshakeError::NoAuthentication
    ));
    let (handshake, _) = Handshake::new(1, false);
    assert!(matches!(
        fail(handshake.receive("REJECTED external")),
        HandshakeError::NoAuthentication
    ));
    let (handshake, _) = Handshake::new(1, false);
    assert!(matches!(
        fail(handshake.receive("REJECTED  KERBEROS ")),
        HandshakeError::NoAuthentication
    ));
}

#[test]
fn every_mechanism_refused_fails() {
    let (handshake, _) = Handshake::new(1, true);
    let (handshake, _) = send(handshake.receive("REJECTED EXTERNAL ANONYMOUS"));
    let (handshake, line) = send(handshake.receive("REJECTED EXTERNAL ANONYMOUS"));
    assert_eq!(line, "AUTH ANONYMOUS 646275732d6173796e63");
    match fail(handshake.receive("ERROR not today")) {
        HandshakeError::AuthenticationError(answer) => assert_eq!(answer, "ERROR not today"),
        other => panic!("unexpected error {:?}", other),
    }
}

#[test]
fn a_refusal_is_kept_over_unsupported_mechanisms() {
    let (handshake, _) = Handshake::new(1, false);
    let (handshake, _) = send(handshake.receive("REJECTED EXTERNAL KERBEROS"));
    match fail(handshake.receive("REJECTED EXTERNAL KERBEROS")) {
        HandshakeError::AuthenticationError(answer) => {
            assert_eq!(answer, "REJECTED EXTERNAL KERBEROS")
        }
        other => panic!("unexpected error {:?}", other),
    }
}

#[test]
fn ok_needs_a_space() {
    let (handshake, _) = Handshake::new(1, false);
    let (handshake, _) = send(handshake.receive("REJECTED EXTERNAL"));
    assert!(matches!(
        fail(handshake.receive("OK")),
        HandshakeError::AuthenticationError(answer) if answer == "OK"
    ));
}

#[test]
fn unix_fd_refusal_keeps_the_answer() {
    let (handshake, _) = Handshake::new(1, true);
    let (handshake, _) = send(handshake.receive("REJECTED EXTERNAL"));
    let (handshake, _) = send(handshake.receive("OK 1"));
    match fail(handshake.receive("ERROR not supported")) {
        HandshakeError::NegotiateUnixFdError(answer) => assert_eq!(answer, "ERROR not supported"),
        other => panic!("unexpected error {:?}", other),
    }
    let (handshake, _) = Handshake::new(1, true);
    let (handshake, _) = send(handshake.receive("REJECTED EXTERNAL"));
    let (handshake, _) = send(handshake.receive("OK 1"));
    assert!(matches!(
        fail(handshake.receive("AGREE_UNIX_FD ")),
        HandshakeError::NegotiateUnixFdError(_)
    ));
}
