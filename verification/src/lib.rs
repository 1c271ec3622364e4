//! A client-side connection core for D-Bus.
//!
//! The heart of the crate is [`connection::Connection`]: it owns the routing tables, the serial
//! counter and the pending-reply index of one connection to a bus, and is handed one inbound
//! message or one client command at a time. Every change it makes to its state is stated in
//! its contracts over [`connection::state::RouterState`] and [`connection::Endpoints`], for
//! whatever the other ends of its channels do, and [`connection::laws`] proves what follows
//! for every reachable state.
//!
//! Around it stand the pieces that a connection needs before and beside that:
//!
//! * [`client_address`] and [`server_address`] read and write bus addresses, and
//!   [`client_address::round_trip`] proves that reading undoes writing;
//! * [`stream`] decides how an address is reached and conducts the authentication handshake
//!   as a state machine over the lines of the daemon;
//! * [`message`] cuts the bytes that arrive into messages;
//! * [`peer`] and [`introspect`] answer the two standard interfaces of a peer;
//! * [`wire`], [`endpoint`], [`pending`] and [`hexadecimal`] hold the contracts under which
//!   the codec, the channels, the cache and the hexadecimal coder are used.
//!
//! The crate does no input or output of its own. Whoever owns the socket reads and writes,
//! and awaits; the crate computes and decides.

pub mod client_address;
pub mod command;
pub mod connection;
pub mod endpoint;
pub mod error;
pub mod hexadecimal;
pub mod introspect;
pub mod message;
pub mod name_flag;
pub mod peer;
pub mod pending;
pub mod proxy;
pub mod server_address;
pub mod stream;
pub mod text;
pub mod wire;

pub use client_address::decode::ClientAddressDecodeError;
pub use client_address::ClientAddress;
pub use command::Command;
pub use connection::Connection;
pub use error::DBusError;
pub use name_flag::DBusNameFlag;
pub use server_address::ServerAddress;
pub use server_address::ServerAddressParseError;
