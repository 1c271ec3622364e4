//! Decoding undoes encoding.

use crate::client_address::decode::address;
use crate::client_address::decode::addresses;
use crate::client_address::decode::all_digits;
use crate::client_address::decode::decimal_value;
use crate::client_address::decode::hex_value;
use crate::client_address::decode::optionally_escaped;
use crate::client_address::decode::port_value;
use crate::client_address::decode::socket_address;
use crate::client_address::decode::unescape;
use crate::client_address::decode::unix_path;
use crate::client_address::decode::AddressFault;
use crate::client_address::decode::SocketFault;
use crate::client_address::decode::UnixFault;
use crate::client_address::encode::address_text;
use crate::client_address::encode::addresses_text;
use crate::text::decimal;
use crate::client_address::encode::escape;
use crate::client_address::encode::escaped_byte;
use crate::client_address::encode::hex_digit;
use crate::client_address::AddressView;
use crate::text::first_break;
use crate::text::lemma_first_break;
use crate::text::lemma_first_break_is_break;
use vstd::prelude::*;
use vstd::utf8::encode_utf8;
use vstd::utf8::encode_utf8_decode_utf8;
use vstd::utf8::encode_utf8_valid_utf8;
use vstd::utf8::is_ascii_chars;
use vstd::utf8::is_ascii_chars_encode_utf8;

verus! {

/// A text that is ASCII and holds neither of the separators `;` and `,`.
pub open spec fn plain(text: Seq<char>) -> bool {
    &&& is_ascii_chars(text)
    &&& forall|i: int| 0 <= i < text.len() ==> (#[trigger] text[i]) != ';' && text[i] != ','
}

/// The bytes of an ASCII text.
pub open spec fn ascii_bytes(text: Seq<char>) -> Seq<u8> {
    text.map_values(|c: char| c as u8)
}

/// What holds of every address that decoding gives: the host of a TCP address is plain.
pub open spec fn decodable(address: AddressView) -> bool {
    match address {
        AddressView::Tcp(host, _) => plain(host),
        _ => true,
    }
}

/// A hexadecimal digit stands for its value, and is plain.
proof fn lemma_hex_digit(value: u8)
    requires
        value < 16,
    ensures
        hex_value(hex_digit(value) as u8) == Some(value),
        '\0' <= hex_digit(value) <= '\u{7f}',
        hex_digit(value) != ';',
        hex_digit(value) != ',',
{
}

/// What stands for a byte is plain.
proof fn lemma_escaped_byte_plain(byte: u8)
    ensures
        plain(escaped_byte(byte)),
{
    lemma_hex_digit(byte / 16);
}

/// An escaped path is plain.
pub proof fn lemma_escape_plain(bytes: Seq<u8>)
    ensures
        plain(escape(bytes)),
    decreases bytes.len(),
{
    if bytes.len() > 0 {
        lemma_escaped_byte_plain(bytes[0]);
        lemma_escape_plain(bytes.skip(1));
    }
}

/// The bytes of a plain text are its UTF-8 form.
pub proof fn lemma_plain_bytes(text: Seq<char>)
    requires
        plain(text),
    ensures
        is_ascii_chars(text),
        encode_utf8(text) == ascii_bytes(text),
{
    is_ascii_chars_encode_utf8(text);
}

/// Unescaping undoes escaping, byte for byte.
pub proof fn lemma_unescape_escape(bytes: Seq<u8>)
    ensures
        unescape(ascii_bytes(escape(bytes))) == Ok::<Seq<u8>, UnixFault>(bytes),
    decreases bytes.len(),
{
    if bytes.len() == 0 {
        assert(bytes =~= Seq::<u8>::empty());
    } else {
        let b = bytes[0];
        let tail = bytes.skip(1);
        lemma_unescape_escape(tail);
        let all = ascii_bytes(escape(bytes));
        let rest = ascii_bytes(escape(tail));
        lemma_hex_digit(b / 16);
        assert(escape(bytes) == escaped_byte(b) + escape(tail));
        if optionally_escaped(b) {
            assert(all.skip(1) =~= rest);
            assert(seq![b] + tail =~= bytes);
            assert(unescape(all) == crate::client_address::decode::extend(
                seq![b],
                unescape(all.skip(1)),
            ));
        } else {
            let high = hex_digit(b / 16) as u8;
            let low = hex_digit(b % 16) as u8;
            assert(all =~= seq![0x25u8, high, low] + rest);
            assert(all.skip(3) =~= rest);
            assert(all[2] == low);
            assert(seq![b] + tail =~= bytes);
            assert(all.len() >= 3);
            assert(unescape(all) == crate::client_address::decode::extend(
                seq![b],
                unescape(all.skip(3)),
            ));
        }
    }
}

/// Decoding a path undoes escaping it.
pub proof fn lemma_unix_path_round_trip(path: Seq<char>)
    ensures
        unix_path(escape(encode_utf8(path))) == Ok::<Seq<char>, UnixFault>(path),
{
    let escaped = escape(encode_utf8(path));
    lemma_escape_plain(encode_utf8(path));
    lemma_plain_bytes(escaped);
    lemma_unescape_escape(encode_utf8(path));
    encode_utf8_valid_utf8(path);
    encode_utf8_decode_utf8(path);
}

/// The decimal digits of a number are digits, and stand for the number.
pub proof fn lemma_decimal(n: nat)
    ensures
        decimal(n).len() > 0,
        all_digits(decimal(n)),
        decimal_value(decimal(n)) == n,
    decreases n,
{
    if n < 10 {
        let d = (0x30 + n) as u8 as char;
        assert(decimal(n).drop_last() =~= Seq::<char>::empty());
        assert(decimal_value(Seq::<char>::empty()) == 0);
    } else {
        lemma_decimal(n / 10);
        let d = (0x30 + n % 10) as u8 as char;
        assert(decimal(n) == decimal(n / 10).push(d));
        assert(decimal(n).drop_last() =~= decimal(n / 10));
        assert(d as nat - '0' as nat == n % 10);
    }
}

/// Reading a port undoes writing it.
pub proof fn lemma_port_round_trip(port: u16)
    ensures
        port_value(decimal(port as nat)) == Some(port),
        plain(decimal(port as nat)),
{
    lemma_decimal(port as nat);
}

/// Two plain texts make a plain text.
pub proof fn lemma_plain_concat(a: Seq<char>, b: Seq<char>)
    requires
        plain(a),
        plain(b),
    ensures
        plain(a + b),
{
}

/// A text that holds no `sep` is broken at its end.
pub proof fn lemma_unbroken(text: Seq<char>, sep: char)
    requires
        forall|i: int| 0 <= i < text.len() ==> text[i] != sep,
    ensures
        first_break(text, sep) == text.len(),
{
    lemma_first_break(text, sep, text.len() as int);
}

/// The literal texts of the address grammar.
proof fn lemma_literals()
    ensures
        "unix:path="@ == "unix:"@ + "path="@,
        "unix:abstract="@ == "unix:"@ + "abstract="@,
        "tcp:host="@ == "tcp:"@ + "host="@,
        ",port="@ == seq![','] + "port="@,
        plain("unix:"@),
        plain("path="@),
        plain("abstract="@),
        plain("tcp:"@),
        plain("host="@),
        plain("port="@),
        "unix:"@.len() == 5 && "unix:"@[0] == 'u',
        "tcp:"@.len() == 4 && "tcp:"@[0] == 't',
        "path="@.len() == 5 && "path="@[0] == 'p' && "path="@[1] == 'a',
        "abstract="@.len() == 9 && "abstract="@[0] == 'a',
        "host="@.len() == 5 && "host="@[0] == 'h',
        "port="@.len() == 5 && "port="@[0] == 'p' && "port="@[1] == 'o',
{
    reveal_strlit("unix:path=");
    reveal_strlit("unix:abstract=");
    reveal_strlit("tcp:host=");
    reveal_strlit(",port=");
    reveal_strlit("unix:");
    reveal_strlit("path=");
    reveal_strlit("abstract=");
    reveal_strlit("tcp:");
    reveal_strlit("host=");
    reveal_strlit("port=");
    assert("unix:path="@ =~= "unix:"@ + "path="@);
    assert("unix:abstract="@ =~= "unix:"@ + "abstract="@);
    assert("tcp:host="@ =~= "tcp:"@ + "host="@);
}

/// A text begins with what it was put together from first.
proof fn lemma_prefix(head: Seq<char>, tail: Seq<char>)
    ensures
        head.is_prefix_of(head + tail),
        (head + tail).skip(head.len() as int) == tail,
{
}

/// A text does not begin with a text whose first character is another.
proof fn lemma_not_prefix(head: Seq<char>, text: Seq<char>)
    requires
        head.len() > 0,
        text.len() > 0,
        head[0] != text[0],
    ensures
        !head.is_prefix_of(text),
{
    if head.is_prefix_of(text) {
        assert(text.subrange(0, head.len() as int)[0] == text[0]);
    }
}

/// Decoding the text of a unix address gives the address back.
proof fn lemma_unix_round_trip(path: Seq<char>, is_abstract: bool)
    ensures
        address(
            address_text(
                if is_abstract {
                    AddressView::UnixAbstract(path)
                } else {
                    AddressView::UnixPath(path)
                },
            ),
        ) == Ok::<AddressView, AddressFault>(
            if is_abstract {
                AddressView::UnixAbstract(path)
            } else {
                AddressView::UnixPath(path)
            },
        ),
        plain(
            address_text(
                if is_abstract {
                    AddressView::UnixAbstract(path)
                } else {
                    AddressView::UnixPath(path)
                },
            ),
        ),
{
    lemma_literals();
    let escaped = escape(encode_utf8(path));
    lemma_escape_plain(encode_utf8(path));
    lemma_unix_path_round_trip(path);
    let key = if is_abstract {
        "abstract="@
    } else {
        "path="@
    };
    let inner = key + escaped;
    let text = "unix:"@ + inner;
    assert(address_text(
        if is_abstract {
            AddressView::UnixAbstract(path)
        } else {
            AddressView::UnixPath(path)
        },
    ) =~= text);
    lemma_plain_concat("unix:"@, inner);
    lemma_prefix("unix:"@, inner);
    lemma_prefix(key, escaped);
    if is_abstract {
        lemma_not_prefix("path="@, inner);
    }
}

/// Decoding the text of a TCP address with a plain host gives the address back.
proof fn lemma_tcp_round_trip(host: Seq<char>, port: u16)
    requires
        plain(host),
    ensures
        address(address_text(AddressView::Tcp(host, port))) == Ok::<AddressView, AddressFault>(
            AddressView::Tcp(host, port),
        ),
        forall|i: int|
            0 <= i < address_text(AddressView::Tcp(host, port)).len() ==> address_text(
                AddressView::Tcp(host, port),
            )[i] != ';',
{
    lemma_literals();
    lemma_port_round_trip(port);
    let digits = decimal(port as nat);
    let first = "host="@ + host;
    let second = "port="@ + digits;
    let inner = first + seq![','] + second;
    let text = "tcp:"@ + inner;
    assert(address_text(AddressView::Tcp(host, port)) =~= text);
    lemma_prefix("tcp:"@, inner);
    assert forall|j: int| 0 <= j < first.len() implies inner[j] != ',' by {
        assert(inner[j] == first[j]);
    }
    lemma_first_break(inner, ',', first.len() as int);
    assert(inner.take(first.len() as int) =~= first);
    assert(inner.skip(first.len() as int + 1) =~= second);
    lemma_unbroken(second, ',');
    lemma_prefix("host="@, host);
    lemma_prefix("port="@, digits);
}

/// Decoding the text of an address that decoding can give gives that address back, and the
/// text holds no `;`.
pub proof fn lemma_address_round_trip(a: AddressView)
    requires
        decodable(a),
    ensures
        address(address_text(a)) == Ok::<AddressView, AddressFault>(a),
        forall|i: int| 0 <= i < address_text(a).len() ==> address_text(a)[i] != ';',
{
    match a {
        AddressView::UnixPath(path) => lemma_unix_round_trip(path, false),
        AddressView::UnixAbstract(path) => lemma_unix_round_trip(path, true),
        AddressView::Tcp(host, port) => lemma_tcp_round_trip(host, port),
    }
}

/// The text of a list of two or more addresses is the text of its first address, a `;`, and
/// the text of the others.
pub proof fn lemma_text_cons(list: Seq<AddressView>)
    requires
        list.len() >= 2,
    ensures
        addresses_text(list) == address_text(list[0]) + seq![';'] + addresses_text(list.skip(1)),
    decreases list.len(),
{
    let front = list.drop_last();
    if list.len() == 2 {
        assert(addresses_text(front) == address_text(list[0]));
    } else {
        lemma_text_cons(front);
        assert(front.skip(1) =~= list.skip(1).drop_last());
    }
}

/// Decoding the text of a list of addresses that decoding can give gives the list back.
pub proof fn lemma_addresses_round_trip(list: Seq<AddressView>)
    requires
        list.len() > 0,
        forall|i: int| 0 <= i < list.len() ==> decodable(#[trigger] list[i]),
    ensures
        addresses(addresses_text(list)) == Ok::<Seq<AddressView>, AddressFault>(list),
    decreases list.len(),
{
    reveal(addresses);
    let first = address_text(list[0]);
    lemma_address_round_trip(list[0]);
    lemma_unbroken(first, ';');
    if list.len() == 1 {
        assert(first.take(first.len() as int) =~= first);
        assert(seq![list[0]] =~= list);
    } else {
        let others = list.skip(1);
        let tail = addresses_text(others);
        let text = first + seq![';'] + tail;
        lemma_text_cons(list);
        lemma_addresses_round_trip(others);
        lemma_first_break(text, ';', first.len() as int);
        assert(text.take(first.len() as int) =~= first);
        assert(text.skip(first.len() as int + 1) =~= tail);
        assert(seq![list[0]] + others =~= list);
    }
}

/// The host that a socket address gives is plain, if the text of the address is.
proof fn lemma_socket_address_plain(text: Seq<char>, host: Seq<char>, port: u16)
    requires
        is_ascii_chars(text),
        forall|i: int| 0 <= i < text.len() ==> text[i] != ';',
        socket_address(text) == Ok::<(Seq<char>, u16), SocketFault>((host, port)),
    ensures
        plain(host),
{
    let a = first_break(text, ',');
    lemma_first_break_is_break(text, ',');
    let rest = text.skip(a as int + 1);
    lemma_first_break_is_break(rest, ',');
}

/// An address that a text without `;` stands for is one that decoding can give.
pub proof fn lemma_address_decodable(text: Seq<char>, a: AddressView)
    requires
        forall|i: int| 0 <= i < text.len() ==> text[i] != ';',
        address(text) == Ok::<AddressView, AddressFault>(a),
    ensures
        decodable(a),
{
    match a {
        AddressView::Tcp(host, port) => {
            let inner = text.skip("tcp:"@.len() as int);
            lemma_socket_address_plain(inner, host, port);
        },
        _ => {},
    }
}

/// Every address of a decoded list is one that decoding can give, and there is at least
/// one.
pub proof fn lemma_decoded_decodable(text: Seq<char>, list: Seq<AddressView>)
    requires
        addresses(text) == Ok::<Seq<AddressView>, AddressFault>(list),
    ensures
        list.len() > 0,
        forall|i: int| 0 <= i < list.len() ==> decodable(#[trigger] list[i]),
    decreases text.len(),
{
    reveal(addresses);
    let at = first_break(text, ';');
    lemma_first_break_is_break(text, ';');
    let piece = text.take(at as int);
    match address(piece) {
        Ok(first) => {
            lemma_address_decodable(piece, first);
            if at < text.len() {
                match addresses(text.skip(at as int + 1)) {
                    Ok(others) => {
                        lemma_decoded_decodable(text.skip(at as int + 1), others);
                    },
                    Err(_) => {},
                }
            }
        },
        Err(_) => {},
    }
}

/// Round trip on addresses: for every text that decodes, encoding what it decodes to and
/// decoding that again gives the same addresses.
pub proof fn lemma_decode_encode_decode(text: Seq<char>, list: Seq<AddressView>)
    requires
        addresses(text) == Ok::<Seq<AddressView>, AddressFault>(list),
    ensures
        addresses(addresses_text(list)) == addresses(text),
{
    lemma_decoded_decodable(text, list);
    lemma_addresses_round_trip(list);
}

} // verus!
