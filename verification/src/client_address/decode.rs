//! Decoding client addresses from text.

use crate::client_address::views;
use crate::client_address::AddressView;
use crate::client_address::ClientAddress;
use crate::client_address::SocketAddress;
use crate::text::chars_of;
use crate::text::find_char;
use crate::text::first_break;
use crate::text::string_of;
use crate::text::strip_prefix;
use std::num::ParseIntError;
use std::string::FromUtf8Error;
use vstd::prelude::*;
use vstd::utf8::is_ascii_chars;
use vstd::utf8::decode_utf8;
use vstd::utf8::encode_utf8;
use vstd::utf8::valid_utf8;

verus! {

#[verifier::external_type_specification]
#[verifier::external_body]
pub struct ExFromUtf8Error(FromUtf8Error);

/// `String::from_utf8`: the string that the bytes encode. It fails exactly when the bytes
/// are not valid UTF-8.
pub assume_specification[ String::from_utf8 ](bytes: Vec<u8>) -> (text: Result<String, FromUtf8Error>)
    ensures
        text.is_ok() == valid_utf8(bytes@),
        text.is_ok() ==> text.unwrap()@ == decode_utf8(bytes@),
;

#[verifier::external_type_specification]
#[verifier::external_body]
pub struct ExParseIntError(ParseIntError);

/// The states of the unescape machine.
#[derive(Debug, Clone, Copy, PartialEq, Eq, Structural)]
pub enum UnescapeState {
    Normal,
    FirstHex,
    SecondHex(u8),
}

/// An enum representing all errors, which can occur during decoding an unix path of a
/// client address. For example: `unix:path=/tmp/dbus/path`.
#[derive(Debug)]
pub enum UnixDecodeError {
    UnescapeChar(u8),
    UnescapeState(UnescapeState),
    UnescapeFromUtf8Error(FromUtf8Error),
    UnescapeHex(u8),
    Type,
}

/// What a [`UnixDecodeError`] says, without the details that the standard library keeps of
/// a UTF-8 error.
pub enum UnixFault {
    UnescapeChar(u8),
    UnescapeState(UnescapeState),
    UnescapeFromUtf8Error,
    UnescapeHex(u8),
    Type,
}

impl UnixDecodeError {
    /// What the error says.
    pub open spec fn fault(self) -> UnixFault {
        match self {
            UnixDecodeError::UnescapeChar(c) => UnixFault::UnescapeChar(c),
            UnixDecodeError::UnescapeState(state) => UnixFault::UnescapeState(state),
            UnixDecodeError::UnescapeFromUtf8Error(_) => UnixFault::UnescapeFromUtf8Error,
            UnixDecodeError::UnescapeHex(c) => UnixFault::UnescapeHex(c),
            UnixDecodeError::Type => UnixFault::Type,
        }
    }
}

/// The bytes that may stand for themselves in a path: `-0-9A-Za-z_/.\`.
pub open spec fn optionally_escaped(c: u8) -> bool {
    ||| 0x30 <= c <= 0x39
    ||| 0x41 <= c <= 0x5a
    ||| 0x61 <= c <= 0x7a
    ||| c == 0x2d
    ||| c == 0x5f
    ||| c == 0x2f
    ||| c == 0x2e
    ||| c == 0x5c
}

/// The value of a hexadecimal digit, of either case.
pub open spec fn hex_value(c: u8) -> Option<u8> {
    if 0x30 <= c <= 0x39 {
        Some((c - 0x30) as u8)
    } else if 0x61 <= c <= 0x66 {
        Some((c - 0x61 + 10) as u8)
    } else if 0x41 <= c <= 0x46 {
        Some((c - 0x41 + 10) as u8)
    } else {
        None
    }
}

/// The bytes `prefix` before what `rest` decoded to, or the fault of `rest`.
pub open spec fn extend(prefix: Seq<u8>, rest: Result<Seq<u8>, UnixFault>) -> Result<Seq<u8>, UnixFault> {
    match rest {
        Ok(bytes) => Ok(prefix + bytes),
        Err(fault) => Err(fault),
    }
}

/// The bytes that an escaped path stands for. A byte of the permitted set stands for
/// itself, `%` and two hexadecimal digits stand for the byte with that value, and anything
/// else is a fault: the first one from the left is reported.
pub open spec fn unescape(bytes: Seq<u8>) -> Result<Seq<u8>, UnixFault>
    decreases bytes.len(),
{
    if bytes.len() == 0 {
        Ok(Seq::empty())
    } else if optionally_escaped(bytes[0]) {
        extend(seq![bytes[0]], unescape(bytes.skip(1)))
    } else if bytes[0] != 0x25 {
        Err(UnixFault::UnescapeChar(bytes[0]))
    } else if bytes.len() == 1 {
        Err(UnixFault::UnescapeState(UnescapeState::FirstHex))
    } else if hex_value(bytes[1]).is_none() {
        Err(UnixFault::UnescapeHex(bytes[1]))
    } else if bytes.len() == 2 {
        Err(
            UnixFault::UnescapeState(
                UnescapeState::SecondHex((hex_value(bytes[1]).unwrap() * 16) as u8),
            ),
        )
    } else if hex_value(bytes[2]).is_none() {
        Err(UnixFault::UnescapeHex(bytes[2]))
    } else {
        extend(
            seq![(hex_value(bytes[1]).unwrap() * 16 + hex_value(bytes[2]).unwrap()) as u8],
            unescape(bytes.skip(3)),
        )
    }
}

/// The path that an escaped path stands for: its bytes are unescaped and then read as
/// UTF-8.
pub open spec fn unix_path(text: Seq<char>) -> Result<Seq<char>, UnixFault> {
    match unescape(encode_utf8(text)) {
        Ok(bytes) => if valid_utf8(bytes) {
            Ok(decode_utf8(bytes))
        } else {
            Err(UnixFault::UnescapeFromUtf8Error)
        },
        Err(fault) => Err(fault),
    }
}

/// What a decoded path or its error says.
pub open spec fn path_outcome(decoded: Result<String, UnixDecodeError>) -> Result<Seq<char>, UnixFault> {
    match decoded {
        Ok(text) => Ok(text@),
        Err(e) => Err(e.fault()),
    }
}

/// Whether the byte may stand for itself in a path.
#[inline]
pub fn is_optionally_escaped(c: u8) -> (plain: bool)
    ensures
        plain == optionally_escaped(c),
{
    (0x30 <= c && c <= 0x39) || (0x41 <= c && c <= 0x5a) || (0x61 <= c && c <= 0x7a) || c == 0x2d
        || c == 0x5f || c == 0x2f || c == 0x2e || c == 0x5c
}

/// The value of a hexadecimal digit.
pub fn to_hex(c: u8) -> (value: Result<u8, UnixDecodeError>)
    ensures
        match value {
            Ok(v) => hex_value(c) == Some(v) && v < 16,
            Err(e) => hex_value(c).is_none() && e.fault() == UnixFault::UnescapeHex(c),
        },
{
    if 0x30 <= c && c <= 0x39 {
        Ok(c - 0x30)
    } else if 0x61 <= c && c <= 0x66 {
        Ok(c - 0x61 + 10)
    } else if 0x41 <= c && c <= 0x46 {
        Ok(c - 0x41 + 10)
    } else {
        Err(UnixDecodeError::UnescapeHex(c))
    }
}

/// Two hexadecimal digits make a byte.
proof fn lemma_join_hex(high: u8, low: u8)
    by (bit_vector)
    requires
        high < 16,
        low < 16,
    ensures
        (high << 4) | low == high * 16 + low,
        (high << 4) == high * 16,
{
}

/// Decodes the path of a unix address.
pub fn decode_unix_path(path: &str) -> (decoded: Result<String, UnixDecodeError>)
    ensures
        path_outcome(decoded) == unix_path(path@),
{
    let bytes = path.as_bytes();
    let mut result: Vec<u8> = Vec::new();
    let mut i: usize = 0;
    proof {
        assert(bytes@.skip(0) =~= bytes@);
        match unescape(bytes@) {
            Ok(all) => assert(result@ + all =~= all),
            Err(_) => {},
        }
    }
    while i < bytes.len()
        invariant
            i <= bytes.len(),
            bytes@ == encode_utf8(path@),
            unescape(bytes@) == extend(result@, unescape(bytes@.skip(i as int))),
        decreases bytes.len() - i,
    {
        let ghost rest = bytes@.skip(i as int);
        let c = bytes[i];
        if is_optionally_escaped(c) {
            assert(rest.skip(1) =~= bytes@.skip(i + 1));
            assert forall|tail: Seq<u8>| #[trigger] (result@.push(c) + tail) == result@ + (seq![c] + tail) by {
            }
            result.push(c);
            i += 1;
        } else if c == 0x25 {
            if bytes.len() - i < 2 {
                return Err(UnixDecodeError::UnescapeState(UnescapeState::FirstHex));
            }
            let first_hex = match to_hex(bytes[i + 1]) {
                Ok(v) => v,
                Err(e) => {
                    return Err(e);
                },
            };
            if bytes.len() - i < 3 {
                proof {
                    lemma_join_hex(first_hex, 0);
                }
                return Err(UnixDecodeError::UnescapeState(UnescapeState::SecondHex(first_hex << 4)));
            }
            let second_hex = match to_hex(bytes[i + 2]) {
                Ok(v) => v,
                Err(e) => {
                    return Err(e);
                },
            };
            proof {
                lemma_join_hex(first_hex, second_hex);
            }
            let byte = (first_hex << 4) | second_hex;
            assert(rest.skip(3) =~= bytes@.skip(i + 3));
            assert forall|tail: Seq<u8>| #[trigger] (result@.push(byte) + tail) == result@ + (seq![byte] + tail) by {
            }
            result.push(byte);
            i += 3;
        } else {
            return Err(UnixDecodeError::UnescapeChar(c));
        }
    }
    match String::from_utf8(result) {
        Ok(path) => Ok(path),
        Err(e) => Err(UnixDecodeError::UnescapeFromUtf8Error(e)),
    }
}


/// An enum representing all errors, which can occur during decoding a socket address of a
/// client address. For example: `tcp:host=127.0.0.1,port=30900`.
#[derive(Debug)]
pub enum SocketAddressDecodeError {
    VecLen(usize),
    PortParseError(ParseIntError),
    UnknownHost,
    UnknownPort,
    UnknownElement,
}

/// What a [`SocketAddressDecodeError`] says, without the details that the standard library
/// keeps of a number that does not parse.
pub enum SocketFault {
    VecLen(usize),
    PortParseError,
    UnknownHost,
    UnknownPort,
    UnknownElement,
}

impl SocketAddressDecodeError {
    /// What the error says.
    pub open spec fn fault(self) -> SocketFault {
        match self {
            SocketAddressDecodeError::VecLen(n) => SocketFault::VecLen(n),
            SocketAddressDecodeError::PortParseError(_) => SocketFault::PortParseError,
            SocketAddressDecodeError::UnknownHost => SocketFault::UnknownHost,
            SocketAddressDecodeError::UnknownPort => SocketFault::UnknownPort,
            SocketAddressDecodeError::UnknownElement => SocketFault::UnknownElement,
        }
    }
}

/// An enum representing all errors, which can occur during decoding a client address.
#[derive(Debug)]
pub enum ClientAddressDecodeError {
    UnixDecodeError(UnixDecodeError),
    SocketAddressDecodeError(SocketAddressDecodeError),
    Type,
    NonAsciiChar,
}

/// What a [`ClientAddressDecodeError`] says.
pub enum AddressFault {
    Unix(UnixFault),
    Socket(SocketFault),
    Type,
    NonAsciiChar,
}

impl ClientAddressDecodeError {
    /// What the error says.
    pub open spec fn fault(self) -> AddressFault {
        match self {
            ClientAddressDecodeError::UnixDecodeError(e) => AddressFault::Unix(e.fault()),
            ClientAddressDecodeError::SocketAddressDecodeError(e) => AddressFault::Socket(
                e.fault(),
            ),
            ClientAddressDecodeError::Type => AddressFault::Type,
            ClientAddressDecodeError::NonAsciiChar => AddressFault::NonAsciiChar,
        }
    }
}

/// Whether every character is a decimal digit.
pub open spec fn all_digits(text: Seq<char>) -> bool {
    forall|i: int| 0 <= i < text.len() ==> '0' <= #[trigger] text[i] <= '9'
}

/// The number that decimal digits stand for.
pub open spec fn decimal_value(text: Seq<char>) -> nat
    decreases text.len(),
{
    if text.len() == 0 {
        0
    } else {
        decimal_value(text.drop_last()) * 10 + (text.last() as nat - '0' as nat) as nat
    }
}

/// The port that a text stands for: decimal digits, at least one, after an optional `+`,
/// with a value that fits 16 bits.
pub open spec fn port_value(text: Seq<char>) -> Option<u16> {
    let digits = if text.len() > 0 && text[0] == '+' {
        text.skip(1)
    } else {
        text
    };
    if digits.len() > 0 && all_digits(digits) && decimal_value(digits) <= u16::MAX {
        Some(decimal_value(digits) as u16)
    } else {
        None
    }
}

/// `str::parse` for `u16`: the number that the text stands for. The text is an optional `+`
/// followed by decimal digits only; an empty text, any other character and a value beyond
/// 16 bits are errors.
#[verifier::external_body]
pub(crate) fn parse_port(text: &str) -> (port: Result<u16, ParseIntError>)
    ensures
        match port {
            Ok(port) => port_value(text@) == Some(port),
            Err(_) => port_value(text@).is_none(),
        },
{
    text.parse()
}

/// The host and the port that were read so far from the elements of a socket address.
pub struct Endpoint {
    pub host: Option<String>,
    pub port: Option<u16>,
}

/// The mathematical content of an [`Endpoint`].
pub struct EndpointView {
    pub host: Option<Seq<char>>,
    pub port: Option<u16>,
}

impl View for Endpoint {
    type V = EndpointView;

    open spec fn view(&self) -> EndpointView {
        EndpointView {
            host: match self.host {
                Some(host) => Some(host@),
                None => None,
            },
            port: self.port,
        }
    }
}

/// What one element of a socket address adds to what was read before it: `host=` sets the
/// host, `port=` sets the port, and anything else is a fault.
pub open spec fn element(text: Seq<char>, before: EndpointView) -> Result<EndpointView, SocketFault> {
    if "host="@.is_prefix_of(text) {
        Ok(EndpointView { host: Some(text.skip("host="@.len() as int)), ..before })
    } else if "port="@.is_prefix_of(text) {
        match port_value(text.skip("port="@.len() as int)) {
            Some(port) => Ok(EndpointView { port: Some(port), ..before }),
            None => Err(SocketFault::PortParseError),
        }
    } else {
        Err(SocketFault::UnknownElement)
    }
}

/// The elements of a socket address: the text is split at its first two commas.
pub open spec fn socket_parts(text: Seq<char>) -> Seq<Seq<char>> {
    let a = first_break(text, ',');
    if a >= text.len() {
        seq![text]
    } else {
        let rest = text.skip(a as int + 1);
        let b = first_break(rest, ',');
        if b >= rest.len() {
            seq![text.take(a as int), rest]
        } else {
            seq![text.take(a as int), rest.take(b as int), rest.skip(b as int + 1)]
        }
    }
}

/// The host and the port that a socket address stands for. It has exactly two elements,
/// which between them give a host and a port.
pub open spec fn socket_address(text: Seq<char>) -> Result<(Seq<char>, u16), SocketFault> {
    let parts = socket_parts(text);
    if parts.len() != 2 {
        Err(SocketFault::VecLen(parts.len() as usize))
    } else {
        match element(parts[0], EndpointView { host: None, port: None }) {
            Err(fault) => Err(fault),
            Ok(first) => match element(parts[1], first) {
                Err(fault) => Err(fault),
                Ok(both) => if both.host.is_none() {
                    Err(SocketFault::UnknownHost)
                } else if both.port.is_none() {
                    Err(SocketFault::UnknownPort)
                } else {
                    Ok((both.host.unwrap(), both.port.unwrap()))
                },
            },
        }
    }
}

/// The address that the text after `unix:` stands for.
pub open spec fn unix_address(text: Seq<char>) -> Result<AddressView, AddressFault> {
    if "path="@.is_prefix_of(text) {
        match unix_path(text.skip("path="@.len() as int)) {
            Ok(path) => Ok(AddressView::UnixPath(path)),
            Err(fault) => Err(AddressFault::Unix(fault)),
        }
    } else if "abstract="@.is_prefix_of(text) {
        match unix_path(text.skip("abstract="@.len() as int)) {
            Ok(path) => Ok(AddressView::UnixAbstract(path)),
            Err(fault) => Err(AddressFault::Unix(fault)),
        }
    } else {
        Err(AddressFault::Unix(UnixFault::Type))
    }
}

/// The address that the text after `tcp:` stands for.
pub open spec fn tcp_address(text: Seq<char>) -> Result<AddressView, AddressFault> {
    match socket_address(text) {
        Ok((host, port)) => Ok(AddressView::Tcp(host, port)),
        Err(fault) => Err(AddressFault::Socket(fault)),
    }
}

/// The address that a text stands for.
pub open spec fn address(text: Seq<char>) -> Result<AddressView, AddressFault> {
    if !is_ascii_chars(text) {
        Err(AddressFault::NonAsciiChar)
    } else if "unix:"@.is_prefix_of(text) {
        unix_address(text.skip("unix:"@.len() as int))
    } else if "tcp:"@.is_prefix_of(text) {
        tcp_address(text.skip("tcp:"@.len() as int))
    } else {
        Err(AddressFault::Type)
    }
}

/// The addresses `first` followed by what `rest` decoded to, or the fault of `rest`.
pub open spec fn after(first: Seq<AddressView>, rest: Result<Seq<AddressView>, AddressFault>) -> Result<
    Seq<AddressView>,
    AddressFault,
> {
    match rest {
        Ok(addresses) => Ok(first + addresses),
        Err(fault) => Err(fault),
    }
}

/// The addresses that a text stands for: it is split at every `;`, each piece is an
/// address, and the first fault from the left is reported.
#[verifier::opaque]
pub open spec fn addresses(text: Seq<char>) -> Result<Seq<AddressView>, AddressFault>
    decreases text.len(),
{
    let at = first_break(text, ';');
    match address(text.take(at as int)) {
        Err(fault) => Err(fault),
        Ok(first) => if at >= text.len() {
            Ok(seq![first])
        } else {
            after(seq![first], addresses(text.skip(at as int + 1)))
        },
    }
}

/// A piece that is no address makes the whole text faulty.
pub proof fn lemma_addresses_fault(text: Seq<char>, done: Seq<AddressView>, fault: AddressFault)
    requires
        address(text.take(first_break(text, ';') as int)) == Err::<AddressView, AddressFault>(fault),
    ensures
        after(done, addresses(text)) == Err::<Seq<AddressView>, AddressFault>(fault),
{
    reveal(addresses);
}

/// One more address decoded lengthens the list that was decoded before it.
pub proof fn lemma_addresses_step(text: Seq<char>, done: Seq<AddressView>, first: AddressView)
    requires
        address(text.take(first_break(text, ';') as int)) == Ok::<AddressView, AddressFault>(first),
    ensures
        after(done, addresses(text)) == if first_break(text, ';') >= text.len() {
            Ok::<Seq<AddressView>, AddressFault>(done.push(first))
        } else {
            after(done.push(first), addresses(text.skip(first_break(text, ';') as int + 1)))
        },
{
    reveal(addresses);
    let at = first_break(text, ';');
    if at >= text.len() {
        assert(done + seq![first] =~= done.push(first));
    } else {
        match addresses(text.skip(at as int + 1)) {
            Ok(tail) => {
                assert(done + (seq![first] + tail) =~= done.push(first) + tail);
            },
            Err(_) => {},
        }
    }
}

/// What a decoded value or its error says.
pub open spec fn address_outcome(decoded: Result<ClientAddress, ClientAddressDecodeError>) -> Result<
    AddressView,
    AddressFault,
> {
    match decoded {
        Ok(address) => Ok(address@),
        Err(e) => Err(e.fault()),
    }
}

/// Decodes what follows `unix:` in an address.
pub fn decode_unix(unix: &str) -> (decoded: Result<ClientAddress, ClientAddressDecodeError>)
    ensures
        address_outcome(decoded) == unix_address(unix@),
{
    if let Some(path) = strip_prefix(unix, "path=") {
        match decode_unix_path(path.as_str()) {
            Ok(path) => Ok(ClientAddress::UnixPath(path)),
            Err(e) => Err(ClientAddressDecodeError::UnixDecodeError(e)),
        }
    } else if let Some(abstract_) = strip_prefix(unix, "abstract=") {
        match decode_unix_path(abstract_.as_str()) {
            Ok(path) => Ok(ClientAddress::UnixAbstract(path)),
            Err(e) => Err(ClientAddressDecodeError::UnixDecodeError(e)),
        }
    } else {
        Err(ClientAddressDecodeError::UnixDecodeError(UnixDecodeError::Type))
    }
}

/// Reads one element of a socket address into `endpoint`.
pub fn decode_socket_address_element(element_text: &str, endpoint: &mut Endpoint) -> (read: Result<
    (),
    SocketAddressDecodeError,
>)
    ensures
        match read {
            Ok(()) => element(element_text@, old(endpoint)@) == Ok::<EndpointView, SocketFault>(
                final(endpoint)@,
            ),
            Err(e) => element(element_text@, old(endpoint)@) == Err::<EndpointView, SocketFault>(
                e.fault(),
            ) && *final(endpoint) == *old(endpoint),
        },
{
    if let Some(host) = strip_prefix(element_text, "host=") {
        endpoint.host = Some(host);
        Ok(())
    } else if let Some(port_str) = strip_prefix(element_text, "port=") {
        match parse_port(port_str.as_str()) {
            Ok(port) => {
                endpoint.port = Some(port);
                Ok(())
            },
            Err(e) => Err(SocketAddressDecodeError::PortParseError(e)),
        }
    } else {
        Err(SocketAddressDecodeError::UnknownElement)
    }
}

/// Decodes a socket address: `host=` and `port=`, in either order, separated by a comma.
pub fn decode_socket_address(socket_address_text: &str) -> (decoded: Result<
    SocketAddress,
    SocketAddressDecodeError,
>)
    ensures
        match decoded {
            Ok(address) => socket_address(socket_address_text@) == Ok::<
                (Seq<char>, u16),
                SocketFault,
            >((address.host@, address.port)),
            Err(e) => socket_address(socket_address_text@) == Err::<(Seq<char>, u16), SocketFault>(
                e.fault(),
            ),
        },
{
    let chars = chars_of(socket_address_text);
    let a = find_char(&chars, 0, ',');
    assert(chars@.skip(0) =~= chars@);
    if a == chars.len() {
        return Err(SocketAddressDecodeError::VecLen(1));
    }
    let b = find_char(&chars, a + 1, ',');
    if b < chars.len() {
        return Err(SocketAddressDecodeError::VecLen(3));
    }
    let first = string_of(&chars, 0, a);
    let second = string_of(&chars, a + 1, chars.len());
    let mut endpoint = Endpoint { host: None, port: None };
    match decode_socket_address_element(first.as_str(), &mut endpoint) {
        Ok(()) => {},
        Err(e) => {
            return Err(e);
        },
    }
    match decode_socket_address_element(second.as_str(), &mut endpoint) {
        Ok(()) => {},
        Err(e) => {
            return Err(e);
        },
    }
    match endpoint.host {
        Some(host) => match endpoint.port {
            Some(port) => Ok(SocketAddress { host, port }),
            None => Err(SocketAddressDecodeError::UnknownPort),
        },
        None => Err(SocketAddressDecodeError::UnknownHost),
    }
}

/// Decodes what follows `tcp:` in an address.
pub fn decode_tcp(tcp: &str) -> (decoded: Result<ClientAddress, ClientAddressDecodeError>)
    ensures
        address_outcome(decoded) == tcp_address(tcp@),
{
    match decode_socket_address(tcp) {
        Ok(socket_address) => Ok(ClientAddress::Tcp(socket_address)),
        Err(e) => Err(ClientAddressDecodeError::SocketAddressDecodeError(e)),
    }
}

impl ClientAddress {
    /// Decodes one client address.
    pub fn try_from(address_text: &str) -> (decoded: Result<ClientAddress, ClientAddressDecodeError>)
        ensures
            address_outcome(decoded) == address(address_text@),
    {
        if !address_text.is_ascii() {
            return Err(ClientAddressDecodeError::NonAsciiChar);
        }
        if let Some(unix) = strip_prefix(address_text, "unix:") {
            decode_unix(unix.as_str())
        } else if let Some(socket_address) = strip_prefix(address_text, "tcp:") {
            decode_tcp(socket_address.as_str())
        } else {
            Err(ClientAddressDecodeError::Type)
        }
    }

    /// Decode client addresses separated by `;`.
    pub fn decode(addresses_text: &str) -> (decoded: Result<Vec<ClientAddress>, ClientAddressDecodeError>)
        ensures
            match decoded {
                Ok(list) => addresses(addresses_text@) == Ok::<Seq<AddressView>, AddressFault>(
                    views(list@),
                ),
                Err(e) => addresses(addresses_text@) == Err::<Seq<AddressView>, AddressFault>(
                    e.fault(),
                ),
            },
    {
        let chars = chars_of(addresses_text);
        let mut result: Vec<ClientAddress> = Vec::new();
        let mut i: usize = 0;
        proof {
            assert(chars@.skip(0) =~= chars@);
            match addresses(chars@) {
                Ok(all) => assert(views(result@) + all =~= all),
                Err(_) => {},
            }
        }
        loop
            invariant
                i <= chars.len(),
                chars@ == addresses_text@,
                addresses(chars@) == after(views(result@), addresses(chars@.skip(i as int))),
            decreases chars.len() - i,
        {
            let ghost rest = chars@.skip(i as int);
            let at = find_char(&chars, i, ';');
            let piece = string_of(&chars, i, at);
            assert(piece@ =~= rest.take(at - i));
            let decoded = match ClientAddress::try_from(piece.as_str()) {
                Ok(decoded) => decoded,
                Err(e) => {
                    proof {
                        lemma_addresses_fault(rest, views(result@), e.fault());
                    }
                    return Err(e);
                },
            };
            proof {
                lemma_addresses_step(rest, views(result@), decoded@);
                assert(views(result@.push(decoded)) =~= views(result@).push(decoded@));
                if at < chars.len() {
                    assert(rest.skip(at - i + 1) =~= chars@.skip(at + 1));
                }
            }
            result.push(decoded);
            if at == chars.len() {
                return Ok(result);
            }
            i = at + 1;
        }
    }
}

} // verus!
