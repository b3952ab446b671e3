//! What holds of the first bytes of every connection, byte by byte.
//!
//! The laws speak of the bytes on the wire. Those of [`crate::hello_encoding`]
//! say that reading gives back what was written; these say what each byte means.

use vstd::prelude::*;
use vstd::utf8::{decode_utf8, encode_utf8, valid_utf8};

use crate::client_hello::{
    extension_block, holds_client_hello, host_name_in, opens_tls, server_name, text_of,
};
use crate::hello_encoding::{
    be16_bytes, be24_bytes, extensions_bytes, server_name_reads_back, ClientHello, Extension,
};

verus! {

/// Only a handshake record of SSL 3.0 up to TLS 1.3 looks like TLS, and every
/// such record does.
pub proof fn tls_opens_with_handshake_record(peek: Seq<u8>)
    ensures
        opens_tls(peek) ==> peek.len() >= 3 && peek[0] == 0x16 && peek[1] == 0x03 && peek[2]
            <= 0x04,
        peek.len() >= 3 && peek[0] == 0x16 && peek[1] == 0x03 && peek[2] <= 0x04 ==> opens_tls(
            peek,
        ),
{
}

/// Text does not look like TLS: nothing does that opens with a printable
/// character.
pub proof fn text_does_not_open_tls(peek: Seq<u8>)
    requires
        peek.len() > 0,
        0x20 <= peek[0] <= 0x7e,
    ensures
        !opens_tls(peek),
{
}

/// An extension stands on the wire as its type, the length of its body and the
/// body, the numbers with the high byte first.
pub proof fn extension_on_the_wire(extension: Extension)
    requires
        extension.body.len() <= 0xffff,
    ensures
        ({
            let bytes = extension.bytes();
            &&& bytes.len() == 4 + extension.body.len()
            &&& bytes[0] * 256 + bytes[1] == extension.kind
            &&& bytes[2] * 256 + bytes[3] == extension.body.len()
            &&& bytes.skip(4) == extension.body
        }),
{
    let bytes = extension.bytes();
    assert(bytes[0] == be16_bytes(extension.kind as int)[0]);
    assert(bytes[1] == be16_bytes(extension.kind as int)[1]);
    assert(bytes[2] == be16_bytes(extension.body.len() as int)[0]);
    assert(bytes[3] == be16_bytes(extension.body.len() as int)[1]);
    assert(bytes.skip(4) =~= extension.body);
}

/// A client asks for a host by an extension of type 0 with a list of one name,
/// which is of type 0 and holds the host in UTF-8.
pub proof fn asking_for_a_host_on_the_wire(host: Seq<char>)
    requires
        encode_utf8(host).len() <= 0xffff - 5,
    ensures
        ({
            let extension = Extension::server_name(host);
            let body = extension.body;
            let len = encode_utf8(host).len();
            &&& extension.kind == 0
            &&& body.len() == 5 + len
            &&& body[0] * 256 + body[1] == 3 + len
            &&& body[2] == 0
            &&& body[3] * 256 + body[4] == len
            &&& body.skip(5) == encode_utf8(host)
        }),
{
    let body = Extension::server_name(host).body;
    let name = encode_utf8(host);
    assert(body[0] == be16_bytes(3 + name.len() as int)[0]);
    assert(body[1] == be16_bytes(3 + name.len() as int)[1]);
    assert(body[3] == be16_bytes(name.len() as int)[0]);
    assert(body[4] == be16_bytes(name.len() as int)[1]);
    assert(body.skip(5) =~= name);
}

/// Extensions stand on the wire one after the other, with nothing between them.
pub proof fn extensions_on_the_wire(first: Extension, rest: Seq<Extension>)
    ensures
        extensions_bytes(Seq::empty()) == Seq::<u8>::empty(),
        extensions_bytes(seq![first] + rest) == first.bytes() + extensions_bytes(rest),
{
    assert((seq![first] + rest).skip(1) =~= rest);
}

/// Where each field of a ClientHello record stands on the wire, and how its
/// length is written.
pub proof fn record_on_the_wire(hello: ClientHello)
    requires
        hello.wf(),
    ensures
        ({
            let r = hello.record();
            let suites: int = 44 + hello.session_id.len() as int;
            let methods: int = suites + 2 + hello.cipher_suites.len();
            let extensions: int = methods + 1 + hello.compression_methods.len();
            let block = extensions_bytes(hello.extensions);
            &&& r[0] == 0x16
            &&& r[1] == hello.record_version.0 && r[2] == hello.record_version.1
            &&& 5 + r[3] * 256 + r[4] == r.len()
            &&& r[5] == 0x01
            &&& 9 + r[6] * 65536 + r[7] * 256 + r[8] == r.len()
            &&& r[9] == hello.client_version.0 && r[10] == hello.client_version.1
            &&& r.subrange(11, 43) == hello.random
            &&& r[43] == hello.session_id.len()
            &&& r.subrange(44, suites) == hello.session_id
            &&& r[suites] * 256 + r[suites + 1] == hello.cipher_suites.len()
            &&& r.subrange(suites + 2, methods) == hello.cipher_suites
            &&& r[methods] == hello.compression_methods.len()
            &&& r.subrange(methods + 1, extensions) == hello.compression_methods
            &&& r[extensions] * 256 + r[extensions + 1] == block.len()
            &&& r.skip(extensions + 2) == block
        }),
{
    let r = hello.record();
    let b = hello.body();
    let h = hello.handshake();
    let block = extensions_bytes(hello.extensions);
    let sid = hello.session_id.len() as int;
    let n = hello.cipher_suites.len() as int;
    let m = hello.compression_methods.len() as int;
    assert(b.len() == 2 + 32 + 1 + sid + 2 + n + 1 + m + 2 + block.len());
    assert(h.len() == 4 + b.len() && r.len() == 5 + h.len());
    assert(r[3] == be16_bytes(h.len() as int)[0] && r[4] == be16_bytes(h.len() as int)[1]);
    assert(r[6] == be24_bytes(b.len() as int)[0]);
    assert(r[7] == be24_bytes(b.len() as int)[1]);
    assert(r[8] == be24_bytes(b.len() as int)[2]);
    assert(r.skip(9) =~= b);
    assert forall|i: int| 0 <= i < b.len() implies #[trigger] r[9 + i] == b[i] by {}
    assert(b[0] == hello.client_version.0 && b[1] == hello.client_version.1);
    assert(r[9int + 0] == b[0] && r[9int + 1] == b[1]);
    assert(r.subrange(11, 43) =~= hello.random);
    assert(b[34] == sid as u8);
    assert(r[9int + 34] == b[34]);
    assert(r.subrange(44, 44 + sid) =~= hello.session_id);
    let p1 = 35 + sid;
    assert(b[p1] == be16_bytes(n)[0] && b[p1 + 1] == be16_bytes(n)[1]);
    assert(r[9 + p1] == b[p1] && r[9 + (p1 + 1)] == b[p1 + 1]);
    assert(r.subrange(9 + p1 + 2, 9 + p1 + 2 + n) =~= hello.cipher_suites);
    let p2 = p1 + 2 + n;
    assert(b[p2] == m as u8);
    assert(r[9 + p2] == b[p2]);
    assert(r.subrange(9 + p2 + 1, 9 + p2 + 1 + m) =~= hello.compression_methods);
    let p3 = p2 + 1 + m;
    assert(b[p3] == be16_bytes(block.len() as int)[0]);
    assert(b[p3 + 1] == be16_bytes(block.len() as int)[1]);
    assert(r[9 + p3] == b[p3] && r[9 + (p3 + 1)] == b[p3 + 1]);
    assert(r.skip(9 + p3 + 2) =~= block);
}

/// A host is named only in bytes that are a whole record of a ClientHello, by
/// the types and the lengths in them.
pub proof fn host_is_named_in_whole_hello_only(data: Seq<u8>)
    requires
        server_name(data) is Some,
    ensures
        ({
            let record = 5 + data[3] * 256 + data[4];
            let hello = 9 + data[6] * 65536 + data[7] * 256 + data[8];
            let suites = 44 + data[43];
            let methods = suites + 2 + data[suites] * 256 + data[suites + 1];
            let extensions = methods + 1 + data[methods];
            let end = extensions + 2 + data[extensions] * 256 + data[extensions + 1];
            &&& data[0] == 0x16
            &&& data[5] == 0x01
            &&& 48 <= suites + 4 <= methods + 2 < extensions + 2 <= end <= hello <= record
                <= data.len()
        }),
{
}

/// Which host a whole ClientHello names is decided by its extensions alone:
/// where the lengths in `data` fit into each other, the answer is that of the
/// bytes that they mark out as extensions.
pub proof fn extensions_decide(data: Seq<u8>)
    requires
        data.len() >= 44,
        data[0] == 0x16,
        data[5] == 0x01,
        ({
            let record = 5 + data[3] * 256 + data[4];
            let hello = 9 + data[6] * 65536 + data[7] * 256 + data[8];
            let suites = 44 + data[43];
            let methods = suites + 2 + data[suites] * 256 + data[suites + 1];
            let extensions = methods + 1 + data[methods];
            &&& hello <= record <= data.len()
            &&& extensions + 2 + data[extensions] * 256 + data[extensions + 1] <= hello
        }),
    ensures
        ({
            let suites = 44 + data[43];
            let methods = suites + 2 + data[suites] * 256 + data[suites + 1];
            let extensions = methods + 1 + data[methods];
            let end = extensions + 2 + data[extensions] * 256 + data[extensions + 1];
            let block = data.subrange(extensions + 2, end);
            server_name(data) == (match host_name_in(block) {
                Some(name) => if valid_utf8(name) {
                    Some(decode_utf8(name))
                } else {
                    None
                },
                None => None,
            })
        }),
{
    assert(holds_client_hello(data));
}

/// Extensions of another type are passed over, and so is one of type 0 that is
/// too short to hold a name. The four bytes before `body` are the type and the
/// length.
pub proof fn other_extensions_are_passed_over(
    k1: u8,
    k0: u8,
    l1: u8,
    l0: u8,
    body: Seq<u8>,
    rest: Seq<u8>,
)
    requires
        l1 * 256 + l0 == body.len(),
        k1 != 0 || k0 != 0 || body.len() < 5,
    ensures
        host_name_in(seq![k1, k0, l1, l0] + body + rest) == host_name_in(rest),
{
    let block = seq![k1, k0, l1, l0] + body + rest;
    assert(block[0] == k1 && block[1] == k0 && block[2] == l1 && block[3] == l0);
    assert(block.skip(4 + body.len() as int) =~= rest);
}

/// The first extension of type 0 that can hold a name decides, whatever follows
/// it: it names the bytes that the name's length marks out, where the name is of
/// type 0 and ends within the extension.
pub proof fn first_server_name_extension_decides(l1: u8, l0: u8, body: Seq<u8>, rest: Seq<u8>)
    requires
        l1 * 256 + l0 == body.len(),
        body.len() >= 5,
    ensures
        ({
            let named = host_name_in(seq![0u8, 0u8, l1, l0] + body + rest);
            let len = body[3] * 256 + body[4];
            &&& body[2] == 0 && 5 + len <= body.len() ==> named == Some(body.subrange(5, 5 + len))
            &&& body[2] != 0 || 5 + len > body.len() ==> named is None
        }),
{
    let block = seq![0u8, 0u8, l1, l0] + body + rest;
    assert(block[0] == 0 && block[1] == 0 && block[2] == l1 && block[3] == l0);
    assert(block.subrange(4, 4 + body.len() as int) =~= body);
}

/// What is left of the extensions names nothing where it holds no whole one.
pub proof fn cut_extension_names_nothing(block: Seq<u8>)
    requires
        block.len() < 4 || 4 + block[2] * 256 + block[3] > block.len(),
    ensures
        host_name_in(block) is None,
{
}

/// A host is read back where the client asks for it, whatever extensions of
/// other types stand before that and whatever extensions follow.
pub proof fn host_after_other_extensions_reads_back(
    hello: ClientHello,
    i: int,
    host: Seq<char>,
    rest: Seq<u8>,
)
    requires
        hello.wf(),
        0 <= i < hello.extensions.len(),
        hello.extensions[i] == Extension::server_name(host),
        forall|j: int| 0 <= j < i ==> (#[trigger] hello.extensions[j]).kind != 0x0000,
    ensures
        server_name(hello.record() + rest) == Some(host),
{
    crate::hello_encoding::asked_host_reads_back(hello, i, host, rest);
}

/// A ClientHello without an extension of type 0 names no host.
pub proof fn no_server_name_extension_no_host(hello: ClientHello, rest: Seq<u8>)
    requires
        hello.wf(),
        forall|j: int| 0 <= j < hello.extensions.len() ==> (#[trigger] hello.extensions[j]).kind
            != 0x0000,
    ensures
        server_name(hello.record() + rest) is None,
{
    server_name_reads_back(hello, rest);
    lemma_no_host(hello.extensions);
}

proof fn lemma_no_host(extensions: Seq<Extension>)
    requires
        forall|j: int| 0 <= j < extensions.len() ==> (#[trigger] extensions[j]).kind != 0x0000,
    ensures
        crate::hello_encoding::named_host(extensions) is None,
    decreases extensions.len(),
{
    if extensions.len() > 0 {
        let rest = extensions.skip(1);
        assert(extensions[0].kind != 0x0000);
        assert forall|j: int| 0 <= j < rest.len() implies (#[trigger] rest[j]).kind != 0x0000 by {
            assert(rest[j] == extensions[j + 1]);
        }
        lemma_no_host(rest);
    }
}

/// Every host that is named is a text whose UTF-8 bytes stand somewhere in the
/// record, behind their length and the name type 0.
pub proof fn named_host_stands_in_the_record(data: Seq<u8>) -> (at: int)
    requires
        server_name(data) is Some,
    ensures
        ({
            let name = encode_utf8(server_name(data)->0);
            &&& 53 <= at
            &&& at + name.len() <= 5 + data[3] * 256 + data[4] <= data.len()
            &&& data.subrange(at, at + name.len() as int) == name
            &&& data[at - 2] * 256 + data[at - 1] == name.len()
            &&& data[at - 3] == 0
        }),
{
    broadcast use vstd::utf8::decode_utf8_encode_utf8;

    let block = extension_block(data);
    let start = crate::client_hello::extensions_at(data) + 2;
    let at = lemma_name_stands_in_block(block);
    let name = host_name_in(block)->0;
    assert(text_of(name) == server_name(data));
    assert(data.subrange(start + at, start + at + name.len() as int) =~= block.subrange(
        at,
        at + name.len() as int,
    ));
    assert(data[start + at - 2] == block[at - 2] && data[start + at - 1] == block[at - 1]);
    assert(data[start + at - 3] == block[at - 3]);
    start + at
}

proof fn lemma_name_stands_in_block(block: Seq<u8>) -> (at: int)
    requires
        host_name_in(block) is Some,
    ensures
        ({
            let name = host_name_in(block)->0;
            &&& 9 <= at
            &&& at + name.len() <= block.len()
            &&& block.subrange(at, at + name.len() as int) == name
            &&& block[at - 2] * 256 + block[at - 1] == name.len()
            &&& block[at - 3] == 0
        }),
    decreases block.len(),
{
    let kind = block[0] * 256 + block[1];
    let len = block[2] * 256 + block[3];
    if kind == 0 && len >= 5 {
        let body = block.subrange(4, 4 + len);
        let name = host_name_in(block)->0;
        assert(block.subrange(9, 9 + name.len() as int) =~= name);
        9
    } else {
        let rest = block.skip(4 + len);
        let at = lemma_name_stands_in_block(rest);
        let name = host_name_in(rest)->0;
        assert(block.subrange(4 + len + at, 4 + len + at + name.len() as int) =~= rest.subrange(
            at,
            at + name.len() as int,
        ));
        4 + len + at
    }
}

} // verus!
