//! Server addresses: the addresses that a bus listens on, as text and as values.

use crate::client_address::decode::decode_socket_address;
use crate::client_address::decode::decode_unix_path;
use crate::client_address::decode::hex_value;
use crate::client_address::decode::optionally_escaped;
use crate::client_address::decode::socket_address;
use crate::client_address::decode::unix_path;
use crate::client_address::decode::SocketAddressDecodeError;
use crate::client_address::decode::SocketFault;
use crate::client_address::decode::UnixDecodeError;
use crate::client_address::decode::UnixFault;
use crate::client_address::SocketAddress;
use crate::text::chars_of;
use crate::text::decimal;
use crate::text::find_char;
use crate::text::first_break;
use crate::text::push_decimal;
use crate::text::same_text;
use crate::text::string_of;
use crate::text::strip_prefix;
use std::num::ParseIntError;
use std::string::FromUtf8Error;
use vstd::prelude::*;
use vstd::string::StringExecFns;

verus! {

/// This represents a DBus server address.
#[derive(Debug, Clone, PartialEq, Eq)]
pub enum ServerAddress {
    UnixRuntime,
    UnixPath(String),
    UnixAbstract(String),
    Tcp(SocketAddress),
}

/// The mathematical content of a [`ServerAddress`].
pub enum ServerAddressView {
    UnixRuntime,
    UnixPath(Seq<char>),
    UnixAbstract(Seq<char>),
    Tcp(Seq<char>, u16),
}

impl View for ServerAddress {
    type V = ServerAddressView;

    open spec fn view(&self) -> ServerAddressView {
        match self {
            ServerAddress::UnixRuntime => ServerAddressView::UnixRuntime,
            ServerAddress::UnixPath(path) => ServerAddressView::UnixPath(path@),
            ServerAddress::UnixAbstract(path) => ServerAddressView::UnixAbstract(path@),
            ServerAddress::Tcp(address) => ServerAddressView::Tcp(address.host@, address.port),
        }
    }
}

/// The contents of a list of addresses.
pub open spec fn server_views(addresses: Seq<ServerAddress>) -> Seq<ServerAddressView> {
    addresses.map_values(|address: ServerAddress| address@)
}

/// The states of the unescape machine.
#[derive(Debug, Clone, Copy, PartialEq, Eq, Structural)]
pub enum UnescapeState {
    Normal,
    FirstHex,
    SecondHex(u8),
}

impl UnescapeState {
    /// The same state, as the faults of paths name it.
    pub open spec fn common(self) -> crate::client_address::decode::UnescapeState {
        match self {
            UnescapeState::Normal => crate::client_address::decode::UnescapeState::Normal,
            UnescapeState::FirstHex => crate::client_address::decode::UnescapeState::FirstHex,
            UnescapeState::SecondHex(high) => crate::client_address::decode::UnescapeState::SecondHex(
                high,
            ),
        }
    }
}

/// An enum representing all errors, which can occur during parsing an unix path of a server
/// address. For example: `unix:path=/tmp/dbus/path`.
#[derive(Debug)]
pub enum UnixParseError {
    UnescapeChar(u8),
    UnescapeState(UnescapeState),
    UnescapeFromUtf8Error(FromUtf8Error),
    UnescapeHex(u8),
    Type,
}

impl UnixParseError {
    /// What the error says.
    pub open spec fn fault(self) -> UnixFault {
        match self {
            UnixParseError::UnescapeChar(c) => UnixFault::UnescapeChar(c),
            UnixParseError::UnescapeState(state) => UnixFault::UnescapeState(state.common()),
            UnixParseError::UnescapeFromUtf8Error(_) => UnixFault::UnescapeFromUtf8Error,
            UnixParseError::UnescapeHex(c) => UnixFault::UnescapeHex(c),
            UnixParseError::Type => UnixFault::Type,
        }
    }
}

/// An enum representing all errors, which can occur during parsing a socket address of a
/// server address. For example: `tcp:host=127.0.0.1,port=30900`.
#[derive(Debug)]
pub enum SocketAddressParseError {
    VecLen(usize),
    PortParseError(ParseIntError),
    UnknownHost,
    UnknownPort,
    UnknownElement,
}

impl SocketAddressParseError {
    /// What the error says.
    pub open spec fn fault(self) -> SocketFault {
        match self {
            SocketAddressParseError::VecLen(n) => SocketFault::VecLen(n),
            SocketAddressParseError::PortParseError(_) => SocketFault::PortParseError,
            SocketAddressParseError::UnknownHost => SocketFault::UnknownHost,
            SocketAddressParseError::UnknownPort => SocketFault::UnknownPort,
            SocketAddressParseError::UnknownElement => SocketFault::UnknownElement,
        }
    }
}

/// An enum representing all errors, which can occur during parsing a server address.
#[derive(Debug)]
pub enum ServerAddressParseError {
    UnixParseError(UnixParseError),
    SocketAddressError(SocketAddressParseError),
    Type,
}

/// What a [`ServerAddressParseError`] says.
pub enum ServerFault {
    Unix(UnixFault),
    Socket(SocketFault),
    Type,
}

impl ServerAddressParseError {
    /// What the error says.
    pub open spec fn fault(self) -> ServerFault {
        match self {
            ServerAddressParseError::UnixParseError(e) => ServerFault::Unix(e.fault()),
            ServerAddressParseError::SocketAddressError(e) => ServerFault::Socket(e.fault()),
            ServerAddressParseError::Type => ServerFault::Type,
        }
    }
}

/// The address that the text after `unix:` stands for.
pub open spec fn unix_server_address(text: Seq<char>) -> Result<ServerAddressView, ServerFault> {
    if "path="@.is_prefix_of(text) {
        match unix_path(text.skip("path="@.len() as int)) {
            Ok(path) => Ok(ServerAddressView::UnixPath(path)),
            Err(fault) => Err(ServerFault::Unix(fault)),
        }
    } else if "abstract="@.is_prefix_of(text) {
        match unix_path(text.skip("abstract="@.len() as int)) {
            Ok(path) => Ok(ServerAddressView::UnixAbstract(path)),
            Err(fault) => Err(ServerFault::Unix(fault)),
        }
    } else if text == "runtime=yes"@ {
        Ok(ServerAddressView::UnixRuntime)
    } else {
        Err(ServerFault::Unix(UnixFault::Type))
    }
}

/// The address that a text stands for.
pub open spec fn server_address(text: Seq<char>) -> Result<ServerAddressView, ServerFault> {
    if "unix:"@.is_prefix_of(text) {
        unix_server_address(text.skip("unix:"@.len() as int))
    } else if "tcp:"@.is_prefix_of(text) {
        match socket_address(text.skip("tcp:"@.len() as int)) {
            Ok((host, port)) => Ok(ServerAddressView::Tcp(host, port)),
            Err(fault) => Err(ServerFault::Socket(fault)),
        }
    } else {
        Err(ServerFault::Type)
    }
}

/// The addresses `first` followed by what `rest` parsed to, or the fault of `rest`.
pub open spec fn followed(first: Seq<ServerAddressView>, rest: Result<Seq<ServerAddressView>, ServerFault>) -> Result<
    Seq<ServerAddressView>,
    ServerFault,
> {
    match rest {
        Ok(addresses) => Ok(first + addresses),
        Err(fault) => Err(fault),
    }
}

/// The addresses that a text stands for: it is split at every `;`, each piece is an
/// address, and the first fault from the left is reported.
#[verifier::opaque]
pub open spec fn server_addresses(text: Seq<char>) -> Result<Seq<ServerAddressView>, ServerFault>
    decreases text.len(),
{
    let at = first_break(text, ';');
    match server_address(text.take(at as int)) {
        Err(fault) => Err(fault),
        Ok(first) => if at >= text.len() {
            Ok(seq![first])
        } else {
            followed(seq![first], server_addresses(text.skip(at as int + 1)))
        },
    }
}

/// The text of an address. Paths are written as they are.
pub open spec fn server_address_text(address: ServerAddressView) -> Seq<char> {
    match address {
        ServerAddressView::UnixPath(path) => "unix:path="@ + path,
        ServerAddressView::UnixAbstract(path) => "unix:abstract="@ + path,
        ServerAddressView::UnixRuntime => "unix:runtime=yes"@,
        ServerAddressView::Tcp(host, port) => "tcp:host="@ + host + ",port="@ + decimal(
            port as nat,
        ),
    }
}

/// A piece that is no address makes the whole text faulty.
proof fn lemma_server_addresses_fault(text: Seq<char>, done: Seq<ServerAddressView>, fault: ServerFault)
    requires
        server_address(text.take(first_break(text, ';') as int)) == Err::<
            ServerAddressView,
            ServerFault,
        >(fault),
    ensures
        followed(done, server_addresses(text)) == Err::<Seq<ServerAddressView>, ServerFault>(fault),
{
    reveal(server_addresses);
}

/// One more address parsed lengthens the list that was parsed before it.
proof fn lemma_server_addresses_step(text: Seq<char>, done: Seq<ServerAddressView>, first: ServerAddressView)
    requires
        server_address(text.take(first_break(text, ';') as int)) == Ok::<
            ServerAddressView,
            ServerFault,
        >(first),
    ensures
        followed(done, server_addresses(text)) == if first_break(text, ';') >= text.len() {
            Ok::<Seq<ServerAddressView>, ServerFault>(done.push(first))
        } else {
            followed(done.push(first), server_addresses(text.skip(first_break(text, ';') as int + 1)))
        },
{
    reveal(server_addresses);
    let at = first_break(text, ';');
    if at >= text.len() {
        assert(done + seq![first] =~= done.push(first));
    } else {
        match server_addresses(text.skip(at as int + 1)) {
            Ok(tail) => {
                assert(done + (seq![first] + tail) =~= done.push(first) + tail);
            },
            Err(_) => {},
        }
    }
}

/// Whether the byte may stand for itself in a path: `-0-9A-Za-z_/.\`.
#[inline]
pub fn is_optionally_escaped(c: u8) -> (plain: bool)
    ensures
        plain == optionally_escaped(c),
{
    crate::client_address::decode::is_optionally_escaped(c)
}

/// The value of a hexadecimal digit.
pub fn to_hex(c: u8) -> (value: Result<u8, UnixParseError>)
    ensures
        match value {
            Ok(v) => hex_value(c) == Some(v) && v < 16,
            Err(e) => hex_value(c).is_none() && e.fault() == UnixFault::UnescapeHex(c),
        },
{
    match crate::client_address::decode::to_hex(c) {
        Ok(v) => Ok(v),
        Err(_) => Err(UnixParseError::UnescapeHex(c)),
    }
}

/// What a parsed path or its error says.
pub open spec fn parsed_path(parsed: Result<String, UnixParseError>) -> Result<Seq<char>, UnixFault> {
    match parsed {
        Ok(text) => Ok(text@),
        Err(e) => Err(e.fault()),
    }
}

/// Parses the path of a unix address.
pub fn parse_unix_path(path: &str) -> (parsed: Result<String, UnixParseError>)
    ensures
        parsed_path(parsed) == unix_path(path@),
{
    match decode_unix_path(path) {
        Ok(path) => Ok(path),
        Err(UnixDecodeError::UnescapeChar(c)) => Err(UnixParseError::UnescapeChar(c)),
        Err(UnixDecodeError::UnescapeState(state)) => Err(
            UnixParseError::UnescapeState(
                match state {
                    crate::client_address::decode::UnescapeState::Normal => UnescapeState::Normal,
                    crate::client_address::decode::UnescapeState::FirstHex => UnescapeState::FirstHex,
                    crate::client_address::decode::UnescapeState::SecondHex(high) => UnescapeState::SecondHex(
                        high,
                    ),
                },
            ),
        ),
        Err(UnixDecodeError::UnescapeFromUtf8Error(e)) => Err(
            UnixParseError::UnescapeFromUtf8Error(e),
        ),
        Err(UnixDecodeError::UnescapeHex(c)) => Err(UnixParseError::UnescapeHex(c)),
        Err(UnixDecodeError::Type) => Err(UnixParseError::Type),
    }
}

/// What a parsed address or its error says.
pub open spec fn parsed_address(parsed: Result<ServerAddress, ServerAddressParseError>) -> Result<
    ServerAddressView,
    ServerFault,
> {
    match parsed {
        Ok(address) => Ok(address@),
        Err(e) => Err(e.fault()),
    }
}

/// Parses what follows `unix:` in an address.
pub fn parse_unix(unix: &str) -> (parsed: Result<ServerAddress, ServerAddressParseError>)
    ensures
        parsed_address(parsed) == unix_server_address(unix@),
{
    if let Some(path) = strip_prefix(unix, "path=") {
        match parse_unix_path(path.as_str()) {
            Ok(path) => Ok(ServerAddress::UnixPath(path)),
            Err(e) => Err(ServerAddressParseError::UnixParseError(e)),
        }
    } else if let Some(abstract_) = strip_prefix(unix, "abstract=") {
        match parse_unix_path(abstract_.as_str()) {
            Ok(path) => Ok(ServerAddress::UnixAbstract(path)),
            Err(e) => Err(ServerAddressParseError::UnixParseError(e)),
        }
    } else if same_text(unix, "runtime=yes") {
        Ok(ServerAddress::UnixRuntime)
    } else {
        Err(ServerAddressParseError::UnixParseError(UnixParseError::Type))
    }
}

/// Parses a socket address: `host=` and `port=`, in either order, separated by a comma.
pub fn parse_socket_address(socket_address_text: &str) -> (parsed: Result<
    SocketAddress,
    SocketAddressParseError,
>)
    ensures
        match parsed {
            Ok(address) => socket_address(socket_address_text@) == Ok::<
                (Seq<char>, u16),
                SocketFault,
            >((address.host@, address.port)),
            Err(e) => socket_address(socket_address_text@) == Err::<(Seq<char>, u16), SocketFault>(
                e.fault(),
            ),
        },
{
    match decode_socket_address(socket_address_text) {
        Ok(address) => Ok(address),
        Err(SocketAddressDecodeError::VecLen(n)) => Err(SocketAddressParseError::VecLen(n)),
        Err(SocketAddressDecodeError::PortParseError(e)) => Err(
            SocketAddressParseError::PortParseError(e),
        ),
        Err(SocketAddressDecodeError::UnknownHost) => Err(SocketAddressParseError::UnknownHost),
        Err(SocketAddressDecodeError::UnknownPort) => Err(SocketAddressParseError::UnknownPort),
        Err(SocketAddressDecodeError::UnknownElement) => Err(
            SocketAddressParseError::UnknownElement,
        ),
    }
}

/// Parses what follows `tcp:` in an address.
pub fn parse_tcp(tcp: &str) -> (parsed: Result<ServerAddress, ServerAddressParseError>)
    ensures
        parsed_address(parsed) == match socket_address(tcp@) {
            Ok((host, port)) => Ok::<ServerAddressView, ServerFault>(
                ServerAddressView::Tcp(host, port),
            ),
            Err(fault) => Err::<ServerAddressView, ServerFault>(ServerFault::Socket(fault)),
        },
{
    match parse_socket_address(tcp) {
        Ok(socket_address) => Ok(ServerAddress::Tcp(socket_address)),
        Err(e) => Err(ServerAddressParseError::SocketAddressError(e)),
    }
}

impl ServerAddress {
    /// Parses one server address.
    pub fn try_from(address_text: &str) -> (parsed: Result<ServerAddress, ServerAddressParseError>)
        ensures
            parsed_address(parsed) == server_address(address_text@),
    {
        if let Some(unix) = strip_prefix(address_text, "unix:") {
            parse_unix(unix.as_str())
        } else if let Some(socket_address) = strip_prefix(address_text, "tcp:") {
            parse_tcp(socket_address.as_str())
        } else {
            Err(ServerAddressParseError::Type)
        }
    }

    /// Parse server addresses separated by `;`.
    pub fn parse(addresses_text: &str) -> (parsed: Result<Vec<ServerAddress>, ServerAddressParseError>)
        ensures
            match parsed {
                Ok(list) => server_addresses(addresses_text@) == Ok::<
                    Seq<ServerAddressView>,
                    ServerFault,
                >(server_views(list@)),
                Err(e) => server_addresses(addresses_text@) == Err::<
                    Seq<ServerAddressView>,
                    ServerFault,
                >(e.fault()),
            },
    {
        let chars = chars_of(addresses_text);
        let mut result: Vec<ServerAddress> = Vec::new();
        let mut i: usize = 0;
        proof {
            assert(chars@.skip(0) =~= chars@);
            match server_addresses(chars@) {
                Ok(all) => assert(server_views(result@) + all =~= all),
                Err(_) => {},
            }
        }
        loop
            invariant
                i <= chars.len(),
                chars@ == addresses_text@,
                server_addresses(chars@) == followed(
                    server_views(result@),
                    server_addresses(chars@.skip(i as int)),
                ),
            decreases chars.len() - i,
        {
            let ghost rest = chars@.skip(i as int);
            let at = find_char(&chars, i, ';');
            let piece = string_of(&chars, i, at);
            assert(piece@ =~= rest.take(at - i));
            let address = match ServerAddress::try_from(piece.as_str()) {
                Ok(address) => address,
                Err(e) => {
                    proof {
                        lemma_server_addresses_fault(rest, server_views(result@), e.fault());
                    }
                    return Err(e);
                },
            };
            proof {
                lemma_server_addresses_step(rest, server_views(result@), address@);
                assert(server_views(result@.push(address)) =~= server_views(result@).push(
                    address@,
                ));
                if at < chars.len() {
                    assert(rest.skip(at - i + 1) =~= chars@.skip(at + 1));
                }
            }
            result.push(address);
            if at == chars.len() {
                return Ok(result);
            }
            i = at + 1;
        }
    }

    /// The text of the address.
    pub fn to_string(&self) -> (text: String)
        ensures
            text@ == server_address_text(self@),
    {
        match self {
            ServerAddress::UnixPath(path) => {
                let mut text = String::from_str("unix:path=");
                text.append(path.as_str());
                text
            },
            ServerAddress::UnixAbstract(path) => {
                let mut text = String::from_str("unix:abstract=");
                text.append(path.as_str());
                text
            },
            ServerAddress::UnixRuntime => String::from_str("unix:runtime=yes"),
            ServerAddress::Tcp(socket_address) => {
                let mut text = String::from_str("tcp:host=");
                text.append(socket_address.host.as_str());
                text.append(",port=");
                push_decimal(&mut text, socket_address.port as u32);
                text
            },
        }
    }
}

} // verus!
