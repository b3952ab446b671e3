//! How a client writes a ClientHello record, and what reading it gives back.

use vstd::prelude::*;
use vstd::utf8::encode_utf8;

use crate::client_hello::{
    be16, compression_at, cipher_suites_at, extension_block, extensions_at, first_host_name,
    holds_client_hello, host_name_in, names_server, opens_tls, record_end, server_name, text_of,
    CLIENT_HELLO, HANDSHAKE_RECORD, HOST_NAME, SERVER_NAME, SESSION_ID_AT,
};

verus! {

/// An extension of a ClientHello.
pub struct Extension {
    pub kind: u16,
    pub body: Seq<u8>,
}

/// The fields of a ClientHello and of the record that carries it.
pub struct ClientHello {
    /// Version in the record header, major before minor.
    pub record_version: (u8, u8),
    /// Version in the ClientHello itself.
    pub client_version: (u8, u8),
    pub random: Seq<u8>,
    pub session_id: Seq<u8>,
    pub cipher_suites: Seq<u8>,
    pub compression_methods: Seq<u8>,
    pub extensions: Seq<Extension>,
}

/// A length as two big-endian bytes.
pub open spec fn be16_bytes(n: int) -> Seq<u8> {
    seq![(n / 256) as u8, (n % 256) as u8]
}

/// A length as three big-endian bytes.
pub open spec fn be24_bytes(n: int) -> Seq<u8> {
    seq![(n / 65536) as u8, (n / 256 % 256) as u8, (n % 256) as u8]
}

impl Extension {
    /// The extension on the wire: type, length, body.
    pub open spec fn bytes(self) -> Seq<u8> {
        be16_bytes(self.kind as int) + be16_bytes(self.body.len() as int) + self.body
    }

    /// The `server_name` extension of a client that asks for `host`.
    pub open spec fn server_name(host: Seq<char>) -> Extension {
        let name = encode_utf8(host);
        Extension {
            kind: SERVER_NAME,
            body: be16_bytes(3 + name.len() as int) + seq![HOST_NAME] + be16_bytes(
                name.len() as int,
            ) + name,
        }
    }
}

/// The extensions on the wire, one after the other.
pub open spec fn extensions_bytes(extensions: Seq<Extension>) -> Seq<u8>
    decreases extensions.len(),
{
    if extensions.len() == 0 {
        Seq::empty()
    } else {
        extensions[0].bytes() + extensions_bytes(extensions.skip(1))
    }
}

/// The host name in the first of the extensions that names the server.
pub open spec fn named_host(extensions: Seq<Extension>) -> Option<Seq<char>>
    decreases extensions.len(),
{
    if extensions.len() == 0 {
        None
    } else if names_server(extensions[0].kind as int, extensions[0].body.len() as int) {
        match first_host_name(extensions[0].body) {
            Some(name) => text_of(name),
            None => None,
        }
    } else {
        named_host(extensions.skip(1))
    }
}

impl ClientHello {
    /// The ClientHello without its handshake header.
    pub open spec fn body(self) -> Seq<u8> {
        seq![self.client_version.0, self.client_version.1] + self.random
            + seq![self.session_id.len() as u8] + self.session_id + be16_bytes(
            self.cipher_suites.len() as int,
        ) + self.cipher_suites + seq![self.compression_methods.len() as u8]
            + self.compression_methods + be16_bytes(
            extensions_bytes(self.extensions).len() as int,
        ) + extensions_bytes(self.extensions)
    }

    /// The handshake message: type, length, body.
    pub open spec fn handshake(self) -> Seq<u8> {
        seq![CLIENT_HELLO] + be24_bytes(self.body().len() as int) + self.body()
    }

    /// The record on the wire: content type, version, length, handshake message.
    pub open spec fn record(self) -> Seq<u8> {
        seq![HANDSHAKE_RECORD, self.record_version.0, self.record_version.1] + be16_bytes(
            self.handshake().len() as int,
        ) + self.handshake()
    }

    /// Each field fits its length prefix, and the message fits one record.
    pub open spec fn wf(self) -> bool {
        &&& self.random.len() == 32
        &&& self.session_id.len() <= 0xff
        &&& self.cipher_suites.len() <= 0xffff
        &&& self.compression_methods.len() <= 0xff
        &&& forall|i: int|
            0 <= i < self.extensions.len() ==> (#[trigger] self.extensions[i]).body.len() <= 0xffff
        &&& self.handshake().len() <= 0xffff
    }
}

proof fn lemma_be16_bytes(n: int)
    requires
        0 <= n <= 0xffff,
    ensures
        be16_bytes(n).len() == 2,
        be16(be16_bytes(n), 0) == n,
{
}

/// Walking encoded extensions finds what the extensions themselves name.
proof fn lemma_walk_extensions(extensions: Seq<Extension>)
    requires
        forall|i: int|
            0 <= i < extensions.len() ==> (#[trigger] extensions[i]).body.len() <= 0xffff,
    ensures
        named_host(extensions) == (match host_name_in(extensions_bytes(extensions)) {
            Some(name) => text_of(name),
            None => None,
        }),
    decreases extensions.len(),
{
    if extensions.len() > 0 {
        let head = extensions[0];
        let rest = extensions.skip(1);
        let block = extensions_bytes(extensions);
        let len = head.body.len() as int;
        lemma_be16_bytes(head.kind as int);
        lemma_be16_bytes(len);
        assert(be16(block, 0) == head.kind);
        assert(be16(block, 2) == len);
        assert(block.subrange(4, 4 + len) =~= head.body);
        assert(block.skip(4 + len) =~= extensions_bytes(rest));
        assert forall|i: int| 0 <= i < rest.len() implies (#[trigger] rest[i]).body.len()
            <= 0xffff by {
            assert(rest[i] == extensions[i + 1]);
        }
        lemma_walk_extensions(rest);
    }
}

/// The fields of the record stand where reading looks for them.
proof fn lemma_record_layout(hello: ClientHello, rest: Seq<u8>)
    requires
        hello.wf(),
    ensures
        ({
            let data = hello.record() + rest;
            &&& record_end(data) == hello.record().len()
            &&& holds_client_hello(data)
            &&& extension_block(data) == extensions_bytes(hello.extensions)
        }),
{
    let data = hello.record() + rest;
    let block = extensions_bytes(hello.extensions);
    let sid = hello.session_id.len() as int;
    let suites = hello.cipher_suites.len() as int;
    let methods = hello.compression_methods.len() as int;
    lemma_be16_bytes(hello.handshake().len() as int);
    lemma_be16_bytes(suites);
    lemma_be16_bytes(block.len() as int);
    assert(hello.body().len() == 2 + 32 + 1 + sid + 2 + suites + 1 + methods + 2 + block.len());
    assert(hello.handshake().len() == 4 + hello.body().len());
    assert(hello.record().len() == 5 + hello.handshake().len());
    assert(data[3] == be16_bytes(hello.handshake().len() as int)[0]);
    assert(data[4] == be16_bytes(hello.handshake().len() as int)[1]);
    assert forall|i: int| 0 <= i < hello.body().len() implies data[9 + i] == hello.body()[i] by {}
    let body = hello.body();
    assert(body[34] == sid as u8);
    assert(data[SESSION_ID_AT as int] == body[34]);
    let p1 = 35 + sid;
    assert(body[p1] == be16_bytes(suites)[0] && body[p1 + 1] == be16_bytes(suites)[1]);
    assert(data[9 + p1] == body[p1] && data[9 + p1 + 1] == body[p1 + 1]);
    assert(cipher_suites_at(data) == 9 + p1);
    let p2 = p1 + 2 + suites;
    assert(body[p2] == methods as u8);
    assert(data[9 + p2] == body[p2]);
    assert(compression_at(data) == 9 + p2);
    let p3 = p2 + 1 + methods;
    assert(body[p3] == be16_bytes(block.len() as int)[0]);
    assert(body[p3 + 1] == be16_bytes(block.len() as int)[1]);
    assert(data[9 + p3] == body[p3] && data[9 + p3 + 1] == body[p3 + 1]);
    assert(extensions_at(data) == 9 + p3);
    assert(data.subrange(9 + p3 + 2, 9 + p3 + 2 + block.len()) =~= block) by {
        assert forall|i: int| 0 <= i < block.len() implies data[9 + p3 + 2 + i] == block[i] by {
            assert(data[9 + (p3 + 2 + i)] == body[p3 + 2 + i]);
        }
    }
}

/// Reading a written ClientHello record gives back the host that its
/// extensions name, whatever follows the record.
pub proof fn server_name_reads_back(hello: ClientHello, rest: Seq<u8>)
    requires
        hello.wf(),
    ensures
        server_name(hello.record() + rest) == named_host(hello.extensions),
{
    lemma_record_layout(hello, rest);
    lemma_walk_extensions(hello.extensions);
}

/// The `server_name` extension of a client that asks for `host` names `host`.
proof fn lemma_server_name_extension(host: Seq<char>)
    requires
        encode_utf8(host).len() <= 0xffff - 5,
    ensures
        ({
            let extension = Extension::server_name(host);
            &&& names_server(extension.kind as int, extension.body.len() as int)
            &&& first_host_name(extension.body) == Some(encode_utf8(host))
            &&& text_of(encode_utf8(host)) == Some(host)
        }),
{
    broadcast use vstd::utf8::encode_utf8_valid_utf8, vstd::utf8::encode_utf8_decode_utf8;

    let name = encode_utf8(host);
    let body = Extension::server_name(host).body;
    lemma_be16_bytes(name.len() as int);
    lemma_be16_bytes(3 + name.len() as int);
    assert(body[2] == HOST_NAME);
    assert(body[3] == be16_bytes(name.len() as int)[0]);
    assert(body[4] == be16_bytes(name.len() as int)[1]);
    assert(body.subrange(5, 5 + name.len() as int) =~= name);
}

/// Extensions before the first one that names the server do not matter.
proof fn lemma_named_by(extensions: Seq<Extension>, i: int, host: Seq<char>)
    requires
        0 <= i < extensions.len(),
        extensions[i] == Extension::server_name(host),
        extensions[i].body.len() <= 0xffff,
        forall|j: int|
            0 <= j < i ==> !names_server(
                (#[trigger] extensions[j]).kind as int,
                extensions[j].body.len() as int,
            ),
    ensures
        named_host(extensions) == Some(host),
    decreases i,
{
    let name = encode_utf8(host);
    assert(Extension::server_name(host).body.len() == 5 + name.len());
    lemma_server_name_extension(host);
    if i > 0 {
        let rest = extensions.skip(1);
        assert(rest[i - 1] == extensions[i]);
        assert forall|j: int| 0 <= j < i - 1 implies !names_server(
            (#[trigger] rest[j]).kind as int,
            rest[j].body.len() as int,
        ) by {
            assert(rest[j] == extensions[j + 1]);
        }
        assert(!names_server(extensions[0].kind as int, extensions[0].body.len() as int));
        lemma_named_by(rest, i - 1, host);
    }
}

/// A client that asks for `host` in its `server_name` extension, with any
/// other extensions around it, is read as asking for `host`.
pub proof fn asked_host_reads_back(hello: ClientHello, i: int, host: Seq<char>, rest: Seq<u8>)
    requires
        hello.wf(),
        0 <= i < hello.extensions.len(),
        hello.extensions[i] == Extension::server_name(host),
        forall|j: int|
            0 <= j < i ==> !names_server(
                (#[trigger] hello.extensions[j]).kind as int,
                hello.extensions[j].body.len() as int,
            ),
    ensures
        server_name(hello.record() + rest) == Some(host),
{
    server_name_reads_back(hello, rest);
    lemma_named_by(hello.extensions, i, host);
}

/// What does not hold all of the record that it opens with names no host,
/// whatever the rest would be.
pub proof fn partial_record_names_no_host(data: Seq<u8>, n: int)
    requires
        0 <= n <= data.len(),
        n < record_end(data),
    ensures
        server_name(data.take(n)) is None,
{
    if n > SESSION_ID_AT {
        assert(record_end(data.take(n)) == record_end(data));
    }
}

/// A written ClientHello record that has not arrived in full names no host.
pub proof fn partial_written_record_names_no_host(hello: ClientHello, n: int)
    requires
        hello.wf(),
        0 <= n < hello.record().len(),
    ensures
        server_name(hello.record().take(n)) is None,
{
    lemma_record_layout(hello, Seq::empty());
    assert(hello.record() + Seq::<u8>::empty() =~= hello.record());
    partial_record_names_no_host(hello.record(), n);
}

/// A written ClientHello record of SSL 3.0 up to TLS 1.3 looks like TLS.
pub proof fn written_record_opens_tls(hello: ClientHello, rest: Seq<u8>)
    requires
        hello.wf(),
        hello.record_version.0 == 0x03,
        hello.record_version.1 <= 0x04,
    ensures
        opens_tls(hello.record() + rest),
{
}

/// Bytes after the record of a ClientHello do not change the host it asks for.
pub proof fn bytes_after_record_do_not_matter(data: Seq<u8>, rest: Seq<u8>)
    requires
        holds_client_hello(data),
    ensures
        server_name(data + rest) == server_name(data),
{
    let longer = data + rest;
    assert forall|i: int| 0 <= i < data.len() implies longer[i] == data[i] by {}
    assert(record_end(longer) == record_end(data));
    assert(cipher_suites_at(longer) == cipher_suites_at(data));
    assert(compression_at(longer) == compression_at(data));
    assert(extensions_at(longer) == extensions_at(data));
    assert(extension_block(longer) =~= extension_block(data));
}

/// What opens with a TLS handshake does so in its first three bytes.
pub proof fn three_bytes_decide(peek: Seq<u8>)
    requires
        peek.len() >= 3,
    ensures
        opens_tls(peek) == opens_tls(peek.take(3)),
{
}

} // verus!
