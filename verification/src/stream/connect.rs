//! Deciding how an address of the bus is to be reached.

use crate::stream::StreamError;
use vstd::prelude::*;

verus! {

/// The family of the IP addresses that a TCP address admits.
#[derive(Clone, Copy, Debug, PartialEq, Eq, Structural)]
pub enum Family {
    Ipv4,
    Ipv6,
}

/// An address of the bus, as far as connecting to it is concerned.
#[derive(Debug, PartialEq, Eq)]
pub enum Address {
    /// A socket at a path of the file system.
    UnixPath(String),
    /// A socket in the abstract namespace.
    UnixAbstract(String),
    /// A unix address of another type: a directory to listen in.
    UnixOther,
    /// A program to run, with its arguments, that prints the address list to connect to.
    Unixexec(String, Vec<String>),
    /// A TCP endpoint.
    Tcp(Option<String>, Option<u16>, Option<Family>),
    /// A TCP endpoint that asks for the nonce from a file.
    NonceTcp(Option<String>, Option<u16>, Option<Family>, Option<String>),
    Autolaunch,
    Launchd,
    Systemd,
}

/// How a connection is to be opened.
#[derive(Debug, PartialEq, Eq)]
pub enum Plan {
    /// Connect to the socket at this path; the handshake negotiates the passing of file
    /// descriptors.
    Unix(String),
    /// Run this program with these arguments and connect to the addresses that it prints.
    Unixexec(String, Vec<String>),
    /// Connect to this host and port, to addresses of this family if one is given.
    Tcp(String, u16, Option<Family>),
    /// Read the nonce from this file, connect to this host and port, and send the nonce
    /// first.
    NonceTcp(String, u16, Option<Family>, String),
}

/// The mathematical content of an [`Address`].
pub enum AddressView {
    UnixPath(Seq<char>),
    UnixAbstract(Seq<char>),
    UnixOther,
    Unixexec(Seq<char>, Seq<Seq<char>>),
    Tcp(Option<Seq<char>>, Option<u16>, Option<Family>),
    NonceTcp(Option<Seq<char>>, Option<u16>, Option<Family>, Option<Seq<char>>),
    Autolaunch,
    Launchd,
    Systemd,
}

/// The mathematical content of a [`Plan`].
pub enum PlanView {
    Unix(Seq<char>),
    Unixexec(Seq<char>, Seq<Seq<char>>),
    Tcp(Seq<char>, u16, Option<Family>),
    NonceTcp(Seq<char>, u16, Option<Family>, Seq<char>),
}

/// Why an address is not connected to.
pub enum Refusal {
    AddressNotConnectable,
    UnixAbstractNotSupported,
    AutolaunchNotSupported,
    LaunchdNotSupported,
}

impl View for Address {
    type V = AddressView;

    open spec fn view(&self) -> AddressView {
        match self {
            Address::UnixPath(path) => AddressView::UnixPath(path@),
            Address::UnixAbstract(name) => AddressView::UnixAbstract(name@),
            Address::UnixOther => AddressView::UnixOther,
            Address::Unixexec(path, argv) => AddressView::Unixexec(
                path@,
                crate::text::texts(argv@),
            ),
            Address::Tcp(host, port, family) => AddressView::Tcp(
                crate::wire::text_of(*host),
                *port,
                *family,
            ),
            Address::NonceTcp(host, port, family, noncefile) => AddressView::NonceTcp(
                crate::wire::text_of(*host),
                *port,
                *family,
                crate::wire::text_of(*noncefile),
            ),
            Address::Autolaunch => AddressView::Autolaunch,
            Address::Launchd => AddressView::Launchd,
            Address::Systemd => AddressView::Systemd,
        }
    }
}

impl View for Plan {
    type V = PlanView;

    open spec fn view(&self) -> PlanView {
        match self {
            Plan::Unix(path) => PlanView::Unix(path@),
            Plan::Unixexec(path, argv) => PlanView::Unixexec(path@, crate::text::texts(argv@)),
            Plan::Tcp(host, port, family) => PlanView::Tcp(host@, *port, *family),
            Plan::NonceTcp(host, port, family, noncefile) => PlanView::NonceTcp(
                host@,
                *port,
                *family,
                noncefile@,
            ),
        }
    }
}

/// How an address is to be reached. An address that is not marked connectable is refused,
/// and so is one that lacks what its kind needs. Sockets in the abstract namespace,
/// `autolaunch` and `launchd` are not supported.
pub open spec fn plan_for(connectable: bool, address: AddressView) -> Result<PlanView, Refusal> {
    if !connectable {
        Err(Refusal::AddressNotConnectable)
    } else {
        match address {
            AddressView::UnixPath(path) => Ok(PlanView::Unix(path)),
            AddressView::UnixAbstract(_) => Err(Refusal::UnixAbstractNotSupported),
            AddressView::Unixexec(path, argv) => Ok(PlanView::Unixexec(path, argv)),
            AddressView::Tcp(Some(host), Some(port), family) => Ok(
                PlanView::Tcp(host, port, family),
            ),
            AddressView::NonceTcp(Some(host), Some(port), family, Some(noncefile)) => Ok(
                PlanView::NonceTcp(host, port, family, noncefile),
            ),
            AddressView::Autolaunch => Err(Refusal::AutolaunchNotSupported),
            AddressView::Launchd => Err(Refusal::LaunchdNotSupported),
            _ => Err(Refusal::AddressNotConnectable),
        }
    }
}

/// What a plan or its refusal says.
pub open spec fn plan_outcome(plan: Result<Plan, StreamError>) -> Option<Result<PlanView, Refusal>> {
    match plan {
        Ok(plan) => Some(Ok(plan@)),
        Err(StreamError::AddressNotConnectable) => Some(Err(Refusal::AddressNotConnectable)),
        Err(StreamError::UnixAbstractNotSupported) => Some(Err(Refusal::UnixAbstractNotSupported)),
        Err(StreamError::AutolaunchNotSupported) => Some(Err(Refusal::AutolaunchNotSupported)),
        Err(StreamError::LaunchdNotSupported) => Some(Err(Refusal::LaunchdNotSupported)),
        Err(_) => None,
    }
}

/// Decides how `address` is to be reached; `connectable` is what the address library says
/// of it.
pub fn connect(connectable: bool, address: Address) -> (plan: Result<Plan, StreamError>)
    ensures
        plan_outcome(plan) == Some(plan_for(connectable, address@)),
{
    if !connectable {
        return Err(StreamError::AddressNotConnectable);
    }
    match address {
        Address::UnixPath(path) => Ok(Plan::Unix(path)),
        Address::UnixAbstract(_) => Err(StreamError::UnixAbstractNotSupported),
        Address::Unixexec(path, argv) => Ok(Plan::Unixexec(path, argv)),
        Address::Tcp(Some(host), Some(port), family) => Ok(Plan::Tcp(host, port, family)),
        Address::NonceTcp(Some(host), Some(port), family, Some(noncefile)) => Ok(
            Plan::NonceTcp(host, port, family, noncefile),
        ),
        Address::Autolaunch => Err(StreamError::AutolaunchNotSupported),
        Address::Launchd => Err(StreamError::LaunchdNotSupported),
        _ => Err(StreamError::AddressNotConnectable),
    }
}

/// Whether the handshake on a connection opened by this plan negotiates the passing of file
/// descriptors: it does on unix sockets only.
pub fn negotiates_unix_fd(plan: &Plan) -> (negotiates: bool)
    ensures
        negotiates == (plan is Unix),
{
    match plan {
        Plan::Unix(_) => true,
        _ => false,
    }
}

/// Whether a resolved address is of the family that the address of the bus asks for.
/// Without a family every address is.
pub fn tcp_family_match(is_ipv4: bool, family: &Option<Family>) -> (matches: bool)
    ensures
        matches == match *family {
            Some(Family::Ipv4) => is_ipv4,
            Some(Family::Ipv6) => !is_ipv4,
            None => true,
        },
{
    match family {
        Some(Family::Ipv4) => is_ipv4,
        Some(Family::Ipv6) => !is_ipv4,
        None => true,
    }
}

/// Checks what was read from a nonce file: it is the nonce if it has exactly 16 bytes.
pub fn nonce_tcp_read_nonce(contents: &Vec<u8>) -> (nonce: Result<[u8; 16], StreamError>)
    ensures
        match nonce {
            Ok(nonce) => contents@.len() == 16 && nonce@ == contents@,
            Err(StreamError::NonceTcpFileTooSmall) => contents@.len() < 16,
            Err(StreamError::NonceTcpFileTooLarge) => contents@.len() > 16,
            Err(_) => false,
        },
{
    if contents.len() < 16 {
        return Err(StreamError::NonceTcpFileTooSmall);
    }
    if contents.len() > 16 {
        return Err(StreamError::NonceTcpFileTooLarge);
    }
    let mut nonce: [u8; 16] = [0u8; 16];
    let mut i: usize = 0;
    while i < 16
        invariant
            i <= 16,
            contents@.len() == 16,
            forall|j: int| 0 <= j < i ==> nonce@[j] == contents@[j],
        decreases 16 - i,
    {
        nonce[i] = contents[i];
        i += 1;
    }
    Ok(nonce)
}

} // verus!
