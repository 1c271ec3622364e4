use dbus_async::client_address::decode::decode_socket_address;
use dbus_async::client_address::decode::decode_tcp;
use dbus_async::client_address::decode::decode_unix;
use dbus_async::client_address::decode::decode_unix_path;
use dbus_async::client_address::decode::ClientAddressDecodeError;
use dbus_async::client_address::decode::SocketAddressDecodeError;
use dbus_async::client_address::decode::UnescapeState;
use dbus_async::client_address::decode::UnixDecodeError;
use dbus_async::client_address::encode::add_hex;
use dbus_async::client_address::encode::escape_unix_path;
use dbus_async::client_address::ClientAddress;
use dbus_async::client_address::SocketAddress;

fn decode_encode_decode(path_1: &str) {
    let server_addresses_1 = ClientAddress::decode(path_1).unwrap();
    let path_2 = ClientAddress::encode(&server_addresses_1);
    let server_addresses_2 = ClientAddress::decode(path_2.as_str()).unwrap();
    assert_eq!(server_addresses_1, server_addresses_2);
}

#[test]
fn unix_path() {
    let path = "unix:path=/tmp/dbus-test";
    decode_encode_decode(path);
}

#[test]
fn unix_abstract_path() {
    let path = "unix:abstract=/tmp/dbus-test";
    decode_encode_decode(path);
}

#[test]
fn tcp() {
    let path = "tcp:host=127.0.0.1,port=30958";
    decode_encode_decode(path);
}

#[test]
fn all() {
    let path =
        "unix:path=/tmp/dbus-test;unix:abstract=/tmp/dbus-test;tcp:host=127.0.0.1,port=30958";
    decode_encode_decode(path);
}

#[test]
fn decode_gives_the_addresses_in_order() {
    let decoded = ClientAddress::decode(
        "unix:path=/tmp/dbus-test;unix:abstract=/tmp/dbus-test;tcp:host=127.0.0.1,port=30958",
    )
    .unwrap();
    assert_eq!(
        decoded,
        vec![
            ClientAddress::UnixPath("/tmp/dbus-test".to_string()),
            ClientAddress::UnixAbstract("/tmp/dbus-test".to_string()),
            ClientAddress::Tcp(SocketAddress { host: "127.0.0.1".to_string(), port: 30958 }),
        ]
    );
}

#[test]
fn encode_separates_addresses_with_semicolons() {
    let addresses = vec![
        ClientAddress::UnixPath("/tmp/a b".to_string()),
        ClientAddress::Tcp(SocketAddress { host: "::1".to_string(), port: 0 }),
        ClientAddress::UnixAbstract("x".to_string()),
    ];
    assert_eq!(
        ClientAddress::encode(&addresses),
        "unix:path=/tmp/a%20b;tcp:host=::1,port=0;unix:abstract=x"
    );
    assert_eq!(ClientAddress::encode(&addresses[..1]), "unix:path=/tmp/a%20b");
    assert_eq!(ClientAddress::encode(&[]), "");
}

#[test]
fn port_is_written_in_decimal() {
    for port in [0u16, 7, 10, 99, 100, 30958, 65535] {
        let address = ClientAddress::Tcp(SocketAddress { host: "h".to_string(), port });
        assert_eq!(address.to_string(), format!("tcp:host=h,port={}", port));
        assert_eq!(ClientAddress::decode(&address.to_string()).unwrap(), vec![address]);
    }
}

#[test]
fn escape_keeps_the_permitted_set_and_escapes_the_rest() {
    assert_eq!(escape_unix_path("-09AZaz_/.\\"), "-09AZaz_/.\\");
    assert_eq!(escape_unix_path(" "), "%20");
    assert_eq!(escape_unix_path("%"), "%25");
    assert_eq!(escape_unix_path("a;b,c=d:e"), "a%3bb%2cc%3dd%3ae");
    assert_eq!(escape_unix_path("\u{e9}"), "%c3%a9");
    assert_eq!(escape_unix_path("\u{20ac}x"), "%e2%82%acx");
    assert_eq!(escape_unix_path("\u{1f600}"), "%f0%9f%98%80");
    assert_eq!(escape_unix_path("\0\u{7f}"), "%00%7f");
    assert_eq!(escape_unix_path(""), "");
}

#[test]
fn add_hex_appends_two_digits() {
    let mut text = "x".to_string();
    add_hex(&mut text, 0x00);
    add_hex(&mut text, 0x0f);
    add_hex(&mut text, 0xa0);
    add_hex(&mut text, 0xff);
    assert_eq!(text, "x%00%0f%a0%ff");
}

#[test]
fn hex_digits_of_both_sides() {
    for value in 0..16u8 {
        let digit = dbus_async::client_address::encode::to_hex(value);
        assert_eq!(digit, "0123456789abcdef".chars().nth(value as usize).unwrap());
        let back = dbus_async::client_address::decode::to_hex(digit as u8).unwrap();
        assert_eq!(back, value);
        let upper = digit.to_ascii_uppercase();
        assert_eq!(dbus_async::client_address::decode::to_hex(upper as u8).unwrap(), value);
    }
    for c in [b'g', b'G', b'/', b':', b'@', b'`', b' ', 0u8, 0xff] {
        assert!(matches!(
            dbus_async::client_address::decode::to_hex(c),
            Err(UnixDecodeError::UnescapeHex(x)) if x == c
        ));
    }
}

#[test]
fn optionally_escaped_is_the_same_set_on_both_sides() {
    for byte in 0..=255u8 {
        let expected = byte.is_ascii_alphanumeric()
            || byte == b'-'
            || byte == b'_'
            || byte == b'/'
            || byte == b'.'
            || byte == b'\\';
        assert_eq!(dbus_async::client_address::decode::is_optionally_escaped(byte), expected);
        if byte < 128 {
            assert_eq!(
                dbus_async::client_address::encode::is_optionally_escaped(byte as char),
                expected
            );
        }
    }
    assert!(!dbus_async::client_address::encode::is_optionally_escaped('\u{e9}'));
    assert!(!dbus_async::client_address::encode::is_optionally_escaped('\u{ff10}'));
}

#[test]
fn unescape_reads_both_cases_of_hex() {
    assert_eq!(decode_unix_path("/tmp/a%20b").unwrap(), "/tmp/a b");
    assert_eq!(decode_unix_path("%c3%A9").unwrap(), "\u{e9}");
    assert_eq!(decode_unix_path("%41%42c").unwrap(), "ABc");
    assert_eq!(decode_unix_path("").unwrap(), "");
    assert_eq!(decode_unix_path("%00").unwrap(), "\0");
}

#[test]
fn unescape_reports_the_first_fault() {
    assert!(matches!(decode_unix_path("a b"), Err(UnixDecodeError::UnescapeChar(b' '))));
    assert!(matches!(decode_unix_path("a;%zz"), Err(UnixDecodeError::UnescapeChar(b';'))));
    assert!(matches!(decode_unix_path("\u{e9}"), Err(UnixDecodeError::UnescapeChar(0xc3))));
    assert!(matches!(decode_unix_path("%g0"), Err(UnixDecodeError::UnescapeHex(b'g'))));
    assert!(matches!(decode_unix_path("%0g"), Err(UnixDecodeError::UnescapeHex(b'g'))));
    assert!(matches!(decode_unix_path("%0g%"), Err(UnixDecodeError::UnescapeHex(b'g'))));
    assert!(matches!(
        decode_unix_path("abc%"),
        Err(UnixDecodeError::UnescapeState(UnescapeState::FirstHex))
    ));
    assert!(matches!(
        decode_unix_path("abc%a"),
        Err(UnixDecodeError::UnescapeState(UnescapeState::SecondHex(0xa0)))
    ));
    assert!(matches!(
        decode_unix_path("%0"),
        Err(UnixDecodeError::UnescapeState(UnescapeState::SecondHex(0)))
    ));
    assert!(matches!(
        decode_unix_path("%ff"),
        Err(UnixDecodeError::UnescapeFromUtf8Error(_))
    ));
    assert!(matches!(
        decode_unix_path("%c3"),
        Err(UnixDecodeError::UnescapeFromUtf8Error(_))
    ));
}

#[test]
fn unix_address_needs_a_known_key() {
    assert_eq!(decode_unix("path=/a").unwrap(), ClientAddress::UnixPath("/a".to_string()));
    assert_eq!(decode_unix("abstract=/a").unwrap(), ClientAddress::UnixAbstract("/a".to_string()));
    assert_eq!(decode_unix("path=").unwrap(), ClientAddress::UnixPath(String::new()));
    assert!(matches!(
        decode_unix("runtime=yes"),
        Err(ClientAddressDecodeError::UnixDecodeError(UnixDecodeError::Type))
    ));
    assert!(matches!(
        decode_unix("path"),
        Err(ClientAddressDecodeError::UnixDecodeError(UnixDecodeError::Type))
    ));
    assert!(matches!(
        decode_unix("path=a b"),
        Err(ClientAddressDecodeError::UnixDecodeError(UnixDecodeError::UnescapeChar(b' ')))
    ));
}

#[test]
fn socket_address_takes_host_and_port_in_either_order() {
    let expected = SocketAddress { host: "127.0.0.1".to_string(), port: 30958 };
    assert_eq!(decode_socket_address("host=127.0.0.1,port=30958").unwrap(), expected);
    assert_eq!(decode_socket_address("port=30958,host=127.0.0.1").unwrap(), expected);
    assert_eq!(decode_socket_address("host=127.0.0.1,port=+30958").unwrap(), expected);
    assert_eq!(decode_socket_address("host=127.0.0.1,port=0030958").unwrap(), expected);
    assert_eq!(
        decode_socket_address("host=example.org,port=1").unwrap(),
        SocketAddress { host: "example.org".to_string(), port: 1 }
    );
}

#[test]
fn socket_address_errors() {
    assert!(matches!(decode_socket_address(""), Err(SocketAddressDecodeError::VecLen(1))));
    assert!(matches!(decode_socket_address("host=a"), Err(SocketAddressDecodeError::VecLen(1))));
    assert!(matches!(
        decode_socket_address("host=a,port=1,x=y"),
        Err(SocketAddressDecodeError::VecLen(3))
    ));
    assert!(matches!(
        decode_socket_address("host=a,port=1,"),
        Err(SocketAddressDecodeError::VecLen(3))
    ));
    assert!(matches!(
        decode_socket_address("host=a,port=65536"),
        Err(SocketAddressDecodeError::PortParseError(_))
    ));
    assert!(matches!(
        decode_socket_address("host=a,port="),
        Err(SocketAddressDecodeError::PortParseError(_))
    ));
    assert!(matches!(
        decode_socket_address("host=a,port=-1"),
        Err(SocketAddressDecodeError::PortParseError(_))
    ));
    assert!(matches!(
        decode_socket_address("host=a,port=+"),
        Err(SocketAddressDecodeError::PortParseError(_))
    ));
    assert!(matches!(
        decode_socket_address("host=a,port=++1"),
        Err(SocketAddressDecodeError::PortParseError(_))
    ));
    assert!(matches!(
        decode_socket_address("host=a,port=1_0"),
        Err(SocketAddressDecodeError::PortParseError(_))
    ));
    assert!(matches!(
        decode_socket_address("host=a,port=0x10"),
        Err(SocketAddressDecodeError::PortParseError(_))
    ));
    assert_eq!(decode_socket_address("host=a,port=+0").unwrap().port, 0);
    assert_eq!(decode_socket_address("host=a,port=65535").unwrap().port, 65535);
    assert_eq!(decode_socket_address("host=a,port=00000000000000000000065535").unwrap().port, 65535);
    assert!(matches!(
        decode_socket_address("host=a,port=1 "),
        Err(SocketAddressDecodeError::PortParseError(_))
    ));
    assert!(matches!(
        decode_socket_address("port=x,bogus"),
        Err(SocketAddressDecodeError::PortParseError(_))
    ));
    assert!(matches!(
        decode_socket_address("host=a,bind=b"),
        Err(SocketAddressDecodeError::UnknownElement)
    ));
    assert!(matches!(
        decode_socket_address("bind=b,port=x"),
        Err(SocketAddressDecodeError::UnknownElement)
    ));
    assert!(matches!(
        decode_socket_address("port=1,port=2"),
        Err(SocketAddressDecodeError::UnknownHost)
    ));
    assert!(matches!(
        decode_socket_address("host=a,host=b"),
        Err(SocketAddressDecodeError::UnknownPort)
    ));
    assert!(matches!(
        decode_tcp("host=a"),
        Err(ClientAddressDecodeError::SocketAddressDecodeError(SocketAddressDecodeError::VecLen(1)))
    ));
}

#[test]
fn address_errors() {
    assert!(matches!(ClientAddress::decode(""), Err(ClientAddressDecodeError::Type)));
    assert!(matches!(ClientAddress::decode("unix"), Err(ClientAddressDecodeError::Type)));
    assert!(matches!(
        ClientAddress::decode("launchd:env=X"),
        Err(ClientAddressDecodeError::Type)
    ));
    assert!(matches!(
        ClientAddress::decode("unix:path=/a;"),
        Err(ClientAddressDecodeError::Type)
    ));
    assert!(matches!(
        ClientAddress::decode("unix:path=/\u{e9}"),
        Err(ClientAddressDecodeError::NonAsciiChar)
    ));
    assert!(matches!(
        ClientAddress::decode("unix:path=/a;tcp:host=\u{e9},port=1"),
        Err(ClientAddressDecodeError::NonAsciiChar)
    ));
    assert!(matches!(
        ClientAddress::decode("unix:path=/a b;\u{e9}"),
        Err(ClientAddressDecodeError::UnixDecodeError(UnixDecodeError::UnescapeChar(b' ')))
    ));
    assert!(matches!(
        ClientAddress::try_from("tcp:host=a"),
        Err(ClientAddressDecodeError::SocketAddressDecodeError(SocketAddressDecodeError::VecLen(1)))
    ));
}

#[test]
fn round_trip_of_an_escaped_path() {
    let decoded = ClientAddress::decode("unix:path=/tmp/%e2%82%ac%20%3B;unix:abstract=%00").unwrap();
    assert_eq!(
        decoded,
        vec![
            ClientAddress::UnixPath("/tmp/\u{20ac} ;".to_string()),
            ClientAddress::UnixAbstract("\0".to_string()),
        ]
    );
    let encoded = ClientAddress::encode(&decoded);
    assert_eq!(encoded, "unix:path=/tmp/%e2%82%ac%20%3b;unix:abstract=%00");
    assert_eq!(ClientAddress::decode(&encoded).unwrap(), decoded);
}
