# openshell_tls

TLS termination for a proxy that inspects the HTTPS traffic of a sandbox,
verified with [Verus](https://github.com/verus-lang/verus).

The proxy generates a CA of its own, puts it into the sandbox's trust store, and
presents a certificate for whichever host a client asks for. It connects to the
real server by Mozilla's root CAs.

- `src/` is the verified library:
  - `client_hello`: is it TLS, and which host does the client ask for?
    `hello_encoding` states how a ClientHello is written and proves that reading
    gives back what was written.
  - `replay`: gives the bytes that were read to find that out back to the acceptor.
  - `ca`, `cert_cache`: the sandbox CA, and the certificates that it issues per host.
  - `tls_state`, `upstream`: what the proxy accepts and connects with.
  - `trust_store`: the CA files of the sandbox, and certificates in PEM.
  - `x509`, `pki`, `tls_config`: the calls into `rcgen`, `rustls`,
    `rustls-pemfile` and `tokio-rustls`, and what is believed of them.
- `app/` does the I/O around it: sockets, files, and the lock that connections share.
- `tests/` runs the library, with handshakes in memory.
