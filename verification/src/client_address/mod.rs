//! Client addresses: the connectable addresses of a bus, as text and as values.

pub mod decode;
pub mod encode;
pub mod round_trip;

use vstd::prelude::*;

verus! {

/// A TCP endpoint of a bus: a host, which is an IP literal or a name, and a port.
#[derive(Debug, Clone, PartialEq, Eq)]
pub struct SocketAddress {
    pub host: String,
    pub port: u16,
}

/// This represents a DBus client address (connectable address).
#[derive(Debug, Clone, PartialEq, Eq)]
pub enum ClientAddress {
    UnixPath(String),
    UnixAbstract(String),
    Tcp(SocketAddress),
}

/// The mathematical content of a [`ClientAddress`].
pub enum AddressView {
    UnixPath(Seq<char>),
    UnixAbstract(Seq<char>),
    Tcp(Seq<char>, u16),
}

impl View for ClientAddress {
    type V = AddressView;

    open spec fn view(&self) -> AddressView {
        match self {
            ClientAddress::UnixPath(path) => AddressView::UnixPath(path@),
            ClientAddress::UnixAbstract(path) => AddressView::UnixAbstract(path@),
            ClientAddress::Tcp(address) => AddressView::Tcp(address.host@, address.port),
        }
    }
}

/// The contents of a list of addresses.
pub open spec fn views(addresses: Seq<ClientAddress>) -> Seq<AddressView> {
    addresses.map_values(|address: ClientAddress| address@)
}

} // verus!
