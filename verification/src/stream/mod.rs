//! Opening the transport of a connection.

pub mod connect;
pub mod handshake;

use crate::stream::handshake::HandshakeError;
use vstd::prelude::*;

verus! {

#[verifier::external_type_specification]
#[verifier::external_body]
pub struct ExAddressDecodeError(dbus_server_address_parser::DecodeError);

/// What can go wrong while the transport is opened.
#[derive(Debug)]
pub enum StreamError {
    /// The address list does not parse.
    DecodeError(dbus_server_address_parser::DecodeError),
    /// Sockets in the abstract namespace are not supported.
    UnixAbstractNotSupported,
    /// None of the addresses led to a connection.
    CouldNotConnectToAnyAddress,
    /// The address is not one that a client can connect to.
    AddressNotConnectable,
    /// No resolved address of the host is of the family that the address asks for.
    TcpResolveIpAddress,
    /// The nonce file holds more than the nonce.
    NonceTcpFileTooLarge,
    /// The nonce file holds less than the nonce.
    NonceTcpFileTooSmall,
    /// `autolaunch` addresses are not supported.
    AutolaunchNotSupported,
    /// `launchd` addresses are not supported.
    LaunchdNotSupported,
    /// The transport failed.
    IoError(std::io::Error),
    /// The handshake failed.
    HandshakeError(HandshakeError),
    /// The program of a `unixexec` address printed something that is not UTF-8.
    UnixexecStdout(std::str::Utf8Error),
}

} // verus!
