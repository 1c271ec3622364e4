//! Encoding client addresses as text.

use crate::client_address::decode::optionally_escaped;
use crate::client_address::AddressView;
use crate::client_address::ClientAddress;
use crate::client_address::views;
use crate::text::decimal;
use crate::text::push_decimal;
use vstd::prelude::*;
use vstd::string::StringExecFns;
use vstd::utf8::encode_utf8;

verus! {

/// The digit that stands for a value below sixteen, in lower case.
pub open spec fn hex_digit(value: u8) -> char {
    if value < 10 {
        (0x30 + value) as u8 as char
    } else {
        (0x61 + value - 10) as u8 as char
    }
}

/// What stands for one byte in an escaped path: the byte itself if it is of the permitted
/// set, else `%` and its two hexadecimal digits.
pub open spec fn escaped_byte(byte: u8) -> Seq<char> {
    if optionally_escaped(byte) {
        seq![byte as char]
    } else {
        seq!['%', hex_digit(byte / 16), hex_digit(byte % 16)]
    }
}

/// The escaped form of the bytes of a path.
pub open spec fn escape(bytes: Seq<u8>) -> Seq<char>
    decreases bytes.len(),
{
    if bytes.len() == 0 {
        Seq::empty()
    } else {
        escaped_byte(bytes[0]) + escape(bytes.skip(1))
    }
}

/// The text of one address.
pub open spec fn address_text(address: AddressView) -> Seq<char> {
    match address {
        AddressView::UnixPath(path) => "unix:path="@ + escape(encode_utf8(path)),
        AddressView::UnixAbstract(path) => "unix:abstract="@ + escape(encode_utf8(path)),
        AddressView::Tcp(host, port) => "tcp:host="@ + host + ",port="@ + decimal(port as nat),
    }
}

/// The text of a list of addresses: the texts of the addresses, separated by `;`.
pub open spec fn addresses_text(list: Seq<AddressView>) -> Seq<char>
    decreases list.len(),
{
    if list.len() == 0 {
        Seq::empty()
    } else if list.len() == 1 {
        address_text(list[0])
    } else {
        addresses_text(list.drop_last()) + seq![';'] + address_text(list.last())
    }
}

/// Whether the character may stand for itself in a path: `-0-9A-Za-z_/.\`.
#[inline]
pub fn is_optionally_escaped(c: char) -> (plain: bool)
    ensures
        plain == (c as u32 <= 0x7f && optionally_escaped(c as u8)),
{
    ('0' <= c && c <= '9') || ('A' <= c && c <= 'Z') || ('a' <= c && c <= 'z') || c == '-' || c
        == '_' || c == '/' || c == '.' || c == '\\'
}

/// The lower-case hexadecimal digit of a value below sixteen.
pub fn to_hex(b: u8) -> (digit: char)
    requires
        b < 16,
    ensures
        digit == hex_digit(b),
{
    if b < 10 {
        (0x30 + b) as char
    } else {
        (0x61 + b - 10) as char
    }
}

/// Halving a byte into its two hexadecimal digits.
proof fn lemma_split_hex(b: u8)
    by (bit_vector)
    ensures
        (b & 0b1111_0000) >> 4 == b / 16,
        b & 0b0000_1111 == b % 16,
        b / 16 < 16,
        b % 16 < 16,
{
}

/// Appends `%` and the two hexadecimal digits of `b`.
pub fn add_hex(s: &mut String, b: u8)
    ensures
        final(s)@ == old(s)@ + seq!['%', hex_digit(b / 16), hex_digit(b % 16)],
{
    proof {
        lemma_split_hex(b);
    }
    s.push('%');
    s.push(to_hex((b & 0b1111_0000) >> 4));
    s.push(to_hex(b & 0b0000_1111));
}

/// Escapes the path of a unix address: every byte of its UTF-8 form that is not of the
/// permitted set is written as `%` and two hexadecimal digits.
pub fn escape_unix_path(path: &str) -> (escaped: String)
    ensures
        escaped@ == escape(encode_utf8(path@)),
{
    let bytes = path.as_bytes();
    let mut result = String::new();
    let mut i: usize = 0;
    assert(bytes@.skip(0) =~= bytes@);
    while i < bytes.len()
        invariant
            i <= bytes.len(),
            bytes@ == encode_utf8(path@),
            result@ + escape(bytes@.skip(i as int)) == escape(bytes@),
        decreases bytes.len() - i,
    {
        let b = bytes[i];
        let ghost rest = bytes@.skip(i as int);
        assert(rest.skip(1) =~= bytes@.skip(i + 1));
        if b < 0x80 && is_optionally_escaped(b as char) {
            result.push(b as char);
        } else {
            add_hex(&mut result, b);
        }
        i += 1;
    }
    result
}

impl ClientAddress {
    /// The text of the address.
    pub fn to_string(&self) -> (text: String)
        ensures
            text@ == address_text(self@),
    {
        match self {
            ClientAddress::UnixPath(path) => {
                let mut text = String::from_str("unix:path=");
                text.append(escape_unix_path(path.as_str()).as_str());
                text
            },
            ClientAddress::UnixAbstract(path) => {
                let mut text = String::from_str("unix:abstract=");
                text.append(escape_unix_path(path.as_str()).as_str());
                text
            },
            ClientAddress::Tcp(socket_address) => {
                let mut text = String::from_str("tcp:host=");
                text.append(socket_address.host.as_str());
                text.append(",port=");
                push_decimal(&mut text, socket_address.port as u32);
                text
            },
        }
    }

    /// Encodes client addresses, separated by `;`.
    pub fn encode(server_addresses: &[ClientAddress]) -> (text: String)
        ensures
            text@ == addresses_text(views(server_addresses@)),
    {
        let mut result = String::new();
        let mut i: usize = 0;
        while i < server_addresses.len()
            invariant
                i <= server_addresses.len(),
                result@ == addresses_text(views(server_addresses@).take(i as int)),
            decreases server_addresses.len() - i,
        {
            let ghost done = views(server_addresses@).take(i as int);
            let ghost more = views(server_addresses@).take(i + 1);
            assert(more.drop_last() =~= done);
            if i > 0 {
                result.push(';');
            }
            result.append(server_addresses[i].to_string().as_str());
            i += 1;
        }
        assert(views(server_addresses@).take(i as int) =~= views(server_addresses@));
        result
    }
}

} // verus!
