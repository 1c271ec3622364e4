use dbus_async::client_address::SocketAddress;
use dbus_async::server_address::parse_socket_address;
use dbus_async::server_address::parse_tcp;
use dbus_async::server_address::parse_unix;
use dbus_async::server_address::parse_unix_path;
use dbus_async::server_address::ServerAddress;
use dbus_async::server_address::ServerAddressParseError;
use dbus_async::server_address::SocketAddressParseError;
use dbus_async::server_address::UnescapeState;
use dbus_async::server_address::UnixParseError;

#[test]
fn server_addresses_are_parsed_in_order() {
    let parsed = ServerAddress::parse(
        "unix:path=/tmp/dbus-test;unix:abstract=/tmp/a%20b;unix:runtime=yes;tcp:host=127.0.0.1,port=30958",
    )
    .unwrap();
    assert_eq!(
        parsed,
        vec![
            ServerAddress::UnixPath("/tmp/dbus-test".to_string()),
            ServerAddress::UnixAbstract("/tmp/a b".to_string()),
            ServerAddress::UnixRuntime,
            ServerAddress::Tcp(SocketAddress { host: "127.0.0.1".to_string(), port: 30958 }),
        ]
    );
}

#[test]
fn server_address_text_writes_paths_as_they_are() {
    assert_eq!(ServerAddress::UnixPath("/tmp/a b".to_string()).to_string(), "unix:path=/tmp/a b");
    assert_eq!(ServerAddress::UnixAbstract("x".to_string()).to_string(), "unix:abstract=x");
    assert_eq!(ServerAddress::UnixRuntime.to_string(), "unix:runtime=yes");
    assert_eq!(
        ServerAddress::Tcp(SocketAddress { host: "::1".to_string(), port: 80 }).to_string(),
        "tcp:host=::1,port=80"
    );
}

#[test]
fn server_unix_path_faults() {
    assert_eq!(parse_unix_path("/tmp/%41").unwrap(), "/tmp/A");
    assert!(matches!(parse_unix_path("a b"), Err(UnixParseError::UnescapeChar(b' '))));
    assert!(matches!(parse_unix_path("%x0"), Err(UnixParseError::UnescapeHex(b'x'))));
    assert!(matches!(
        parse_unix_path("%"),
        Err(UnixParseError::UnescapeState(UnescapeState::FirstHex))
    ));
    assert!(matches!(
        parse_unix_path("%f"),
        Err(UnixParseError::UnescapeState(UnescapeState::SecondHex(0xf0)))
    ));
    assert!(matches!(parse_unix_path("%ff"), Err(UnixParseError::UnescapeFromUtf8Error(_))));
    assert!(dbus_async::server_address::is_optionally_escaped(b'/'));
    assert!(!dbus_async::server_address::is_optionally_escaped(b'%'));
    assert_eq!(dbus_async::server_address::to_hex(b'F').unwrap(), 15);
    assert!(matches!(
        dbus_async::server_address::to_hex(b'-'),
        Err(UnixParseError::UnescapeHex(b'-'))
    ));
}

#[test]
fn server_address_faults() {
    assert!(matches!(ServerAddress::parse(""), Err(ServerAddressParseError::Type)));
    assert!(matches!(ServerAddress::parse("unix:path=/a;x"), Err(ServerAddressParseError::Type)));
    assert!(matches!(
        parse_unix("runtime=no"),
        Err(ServerAddressParseError::UnixParseError(UnixParseError::Type))
    ));
    assert!(matches!(
        parse_unix("runtime=yes "),
        Err(ServerAddressParseError::UnixParseError(UnixParseError::Type))
    ));
    assert!(matches!(
        parse_tcp("host=a"),
        Err(ServerAddressParseError::SocketAddressError(SocketAddressParseError::VecLen(1)))
    ));
    assert!(matches!(
        parse_socket_address("host=a,port=70000"),
        Err(SocketAddressParseError::PortParseError(_))
    ));
    assert!(matches!(
        parse_socket_address("host=a,x=1"),
        Err(SocketAddressParseError::UnknownElement)
    ));
    assert!(matches!(
        parse_socket_address("port=1,port=1"),
        Err(SocketAddressParseError::UnknownHost)
    ));
    assert!(matches!(
        parse_socket_address("host=a,host=b"),
        Err(SocketAddressParseError::UnknownPort)
    ));
    assert_eq!(
        ServerAddress::try_from("unix:path=/\u{e9}").is_err(),
        true
    );
}
