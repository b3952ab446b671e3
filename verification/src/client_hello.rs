//! Reading the first bytes of a connection: does it open with a TLS handshake,
//! and which host does its ClientHello ask for?

use vstd::prelude::*;
use vstd::slice::slice_subrange;
use vstd::utf8::{decode_utf8, valid_utf8};

verus! {

/// Record content type of handshake messages.
pub const HANDSHAKE_RECORD: u8 = 0x16;

/// Handshake message type of a ClientHello.
pub const CLIENT_HELLO: u8 = 0x01;

/// Extension type of `server_name`.
pub const SERVER_NAME: u16 = 0x0000;

/// Name type of a DNS host name in a `server_name` extension.
pub const HOST_NAME: u8 = 0x00;

/// Offset of the session id length byte: record header (5), handshake header
/// (4), client version (2) and random (32) stand before it.
pub const SESSION_ID_AT: usize = 43;

/// `peek` opens with a handshake record of SSL 3.0 up to TLS 1.3.
pub open spec fn opens_tls(peek: Seq<u8>) -> bool {
    peek.len() >= 3 && peek[0] == HANDSHAKE_RECORD && peek[1] == 0x03 && peek[2] <= 0x04
}

/// The two bytes of `s` at `i` as a big-endian number.
pub open spec fn be16(s: Seq<u8>, i: int) -> int {
    s[i] * 256 + s[i + 1]
}

/// The three bytes of `s` at `i` as a big-endian number.
pub open spec fn be24(s: Seq<u8>, i: int) -> int {
    s[i] * 65536 + s[i + 1] * 256 + s[i + 2]
}

/// Where the record that `data` opens with ends.
pub open spec fn record_end(data: Seq<u8>) -> int {
    5 + be16(data, 3)
}

/// Where the ClientHello ends, by the length in its handshake header.
pub open spec fn hello_end(data: Seq<u8>) -> int {
    9 + be24(data, 6)
}

/// Where the cipher suites of the ClientHello start.
pub open spec fn cipher_suites_at(data: Seq<u8>) -> int {
    SESSION_ID_AT + 1 + data[SESSION_ID_AT as int]
}

/// Where the compression methods of the ClientHello start.
pub open spec fn compression_at(data: Seq<u8>) -> int {
    cipher_suites_at(data) + 2 + be16(data, cipher_suites_at(data))
}

/// Where the extensions of the ClientHello start.
pub open spec fn extensions_at(data: Seq<u8>) -> int {
    compression_at(data) + 1 + data[compression_at(data)]
}

/// `data` opens with a whole handshake record of a valid ClientHello: it ends
/// within the record, and each of its fields, up to the end of the extensions,
/// lies within it.
pub open spec fn holds_client_hello(data: Seq<u8>) -> bool {
    let end = hello_end(data);
    &&& data.len() > SESSION_ID_AT
    &&& data[0] == HANDSHAKE_RECORD
    &&& record_end(data) <= data.len()
    &&& data[5] == CLIENT_HELLO
    &&& end <= record_end(data)
    &&& SESSION_ID_AT < end
    &&& cipher_suites_at(data) + 2 <= end
    &&& compression_at(data) + 1 <= end
    &&& extensions_at(data) + 2 <= end
    &&& extensions_at(data) + 2 + be16(data, extensions_at(data)) <= end
}

/// The encoded extensions of the ClientHello in `data`.
pub open spec fn extension_block(data: Seq<u8>) -> Seq<u8>
    recommends
        holds_client_hello(data),
{
    let start = extensions_at(data) + 2;
    data.subrange(start, start + be16(data, extensions_at(data)))
}

/// An extension that names the server: of type `server_name`, and long enough
/// for the length of the name list (2), a name type (1) and a name length (2).
pub open spec fn names_server(kind: int, len: int) -> bool {
    kind == SERVER_NAME && len >= 5
}

/// The host name in the body of a `server_name` extension: the first entry of
/// its list, where that is a host name which ends within the body.
pub open spec fn first_host_name(body: Seq<u8>) -> Option<Seq<u8>>
    recommends
        body.len() >= 5,
{
    if body[2] == HOST_NAME && 5 + be16(body, 3) <= body.len() {
        Some(body.subrange(5, 5 + be16(body, 3)))
    } else {
        None
    }
}

/// The host name in the first of the encoded extensions that names the server.
pub open spec fn host_name_in(block: Seq<u8>) -> Option<Seq<u8>>
    decreases block.len(),
{
    if block.len() < 4 || 4 + be16(block, 2) > block.len() {
        None
    } else if names_server(be16(block, 0), be16(block, 2)) {
        first_host_name(block.subrange(4, 4 + be16(block, 2)))
    } else {
        host_name_in(block.skip(4 + be16(block, 2)))
    }
}

/// `bytes` as text, where they are valid UTF-8.
pub open spec fn text_of(bytes: Seq<u8>) -> Option<Seq<char>> {
    if valid_utf8(bytes) {
        Some(decode_utf8(bytes))
    } else {
        None
    }
}

/// The host that the ClientHello in `data` asks for.
pub open spec fn server_name(data: Seq<u8>) -> Option<Seq<char>> {
    if holds_client_hello(data) {
        match host_name_in(extension_block(data)) {
            Some(name) => text_of(name),
            None => None,
        }
    } else {
        None
    }
}

/// Whether the peeked bytes look like the start of a TLS handshake.
///
/// A TLS record starts with its content type (`0x16` for a handshake) and a
/// version, `0x0300` (SSL 3.0) to `0x0304`. Plaintext HTTP, raw binary and
/// fewer than three bytes do not.
pub fn looks_like_tls(peek: &[u8]) -> (tls: bool)
    ensures
        tls == opens_tls(peek@),
{
    if peek.len() < 3 {
        return false;
    }
    if peek[0] != HANDSHAKE_RECORD {
        return false;
    }
    if peek[1] != 0x03 {
        return false;
    }
    peek[2] <= 0x04
}

/// Reads two bytes at `pos` as a big-endian number.
fn read_be16(data: &[u8], pos: usize) -> (n: usize)
    requires
        pos + 2 <= data@.len(),
    ensures
        n == be16(data@, pos as int),
        n <= 0xffff,
{
    data[pos] as usize * 256 + data[pos + 1] as usize
}

/// Reads three bytes at `pos` as a big-endian number.
fn read_be24(data: &[u8], pos: usize) -> (n: usize)
    requires
        pos + 3 <= data@.len(),
    ensures
        n == be24(data@, pos as int),
        n <= 0xff_ffff,
{
    data[pos] as usize * 65536 + data[pos + 1] as usize * 256 + data[pos + 2] as usize
}

/// `std::str::from_utf8`: the text that the bytes encode, or nothing where
/// they are not valid UTF-8.
#[verifier::external_body]
fn utf8_text(bytes: &[u8]) -> (text: Option<&str>)
    ensures
        match text {
            Some(s) => valid_utf8(bytes@) && s@ == decode_utf8(bytes@),
            None => !valid_utf8(bytes@),
        },
{
    std::str::from_utf8(bytes).ok()
}

/// The host name in the body of a `server_name` extension.
fn read_host_name(body: &[u8]) -> (name: Option<String>)
    requires
        body@.len() >= 5,
    ensures
        match name {
            Some(s) => first_host_name(body@) matches Some(bytes) && text_of(bytes) == Some(s@),
            None => first_host_name(body@) matches Some(bytes) ==> text_of(bytes) is None,
        },
{
    let name_len = read_be16(body, 3);
    if body[2] != HOST_NAME || name_len > body.len() - 5 {
        return None;
    }
    match utf8_text(slice_subrange(body, 5, 5 + name_len)) {
        Some(s) => Some(s.to_string()),
        None => None,
    }
}

/// Extracts the SNI (Server Name Indication) host name from a TLS ClientHello.
///
/// Parses the TLS record layer, the handshake header and the extensions to find
/// the `server_name` extension. Gives `None` if `data` does not open with a
/// whole record of a valid ClientHello, or if that has no `server_name`
/// extension with a host name in UTF-8.
pub fn extract_sni(data: &[u8]) -> (host: Option<String>)
    ensures
        match host {
            Some(s) => server_name(data@) == Some(s@),
            None => server_name(data@) is None,
        },
{
    if data.len() <= SESSION_ID_AT {
        return None;
    }
    if data[0] != HANDSHAKE_RECORD {
        return None;
    }
    let record_end = 5 + read_be16(data, 3);
    if data.len() < record_end {
        return None;
    }
    if data[5] != CLIENT_HELLO {
        return None;
    }
    let hello_end = 9 + read_be24(data, 6);
    if hello_end > record_end {
        return None;
    }

    // Session id
    let mut pos: usize = SESSION_ID_AT;
    if pos >= hello_end {
        return None;
    }
    pos = pos + 1 + data[pos] as usize;
    if pos + 2 > hello_end {
        return None;
    }

    // Cipher suites
    pos = pos + 2 + read_be16(data, pos);
    if pos + 1 > hello_end {
        return None;
    }

    // Compression methods
    pos = pos + 1 + data[pos] as usize;
    if pos + 2 > hello_end {
        return None;
    }

    // Extensions
    let extensions_end = pos + 2 + read_be16(data, pos);
    pos = pos + 2;
    if extensions_end > hello_end {
        return None;
    }

    while extensions_end - pos >= 4
        invariant
            holds_client_hello(data@),
            pos <= extensions_end <= data@.len(),
            host_name_in(data@.subrange(pos as int, extensions_end as int)) == host_name_in(
                extension_block(data@),
            ),
        decreases extensions_end - pos,
    {
        let ghost block = data@.subrange(pos as int, extensions_end as int);
        let kind = read_be16(data, pos);
        let len = read_be16(data, pos + 2);
        assert(be16(block, 0) == kind && be16(block, 2) == len);
        if len > extensions_end - pos - 4 {
            return None;
        }
        if kind == SERVER_NAME as usize && len >= 5 {
            let body = slice_subrange(data, pos + 4, pos + 4 + len);
            assert(body@ == block.subrange(4, 4 + len));
            return read_host_name(body);
        }
        assert(block.skip(4 + len as int) == data@.subrange(
            pos + 4 + len,
            extensions_end as int,
        ));
        pos = pos + 4 + len;
    }
    None
}

} // verus!
