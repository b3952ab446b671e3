use openshell_tls::{extract_sni, looks_like_tls};

#[test]
fn looks_like_tls_valid_clienthello() {
    // TLS 1.0 ClientHello
    assert!(looks_like_tls(&[0x16, 0x03, 0x01, 0x00, 0x05]));
    // TLS 1.2
    assert!(looks_like_tls(&[0x16, 0x03, 0x03, 0x01, 0x00]));
    // TLS 1.3 record layer (minor 0x01, but hello advertises 1.3 via extension)
    assert!(looks_like_tls(&[0x16, 0x03, 0x01]));
    // SSL 3.0
    assert!(looks_like_tls(&[0x16, 0x03, 0x00]));
}

#[test]
fn looks_like_tls_rejects_http() {
    assert!(!looks_like_tls(b"GET / HTTP/1.1"));
    assert!(!looks_like_tls(b"POST /api"));
    assert!(!looks_like_tls(b"CONNECT host:443"));
}

#[test]
fn looks_like_tls_rejects_short_input() {
    assert!(!looks_like_tls(&[]));
    assert!(!looks_like_tls(&[0x16]));
    assert!(!looks_like_tls(&[0x16, 0x03]));
}

#[test]
fn looks_like_tls_rejects_non_tls_binary() {
    // SSH protocol
    assert!(!looks_like_tls(b"SSH-2.0-OpenSSH"));
    // Random binary
    assert!(!looks_like_tls(&[0xFF, 0xFE, 0x00]));
    // Wrong content type
    assert!(!looks_like_tls(&[0x17, 0x03, 0x03])); // Application data, not handshake
}

#[test]
fn looks_like_tls_checks_versions() {
    assert!(looks_like_tls(&[0x16, 0x03, 0x04]));
    assert!(!looks_like_tls(&[0x16, 0x03, 0x05]));
    assert!(!looks_like_tls(&[0x16, 0x02, 0x01]));
}

#[test]
fn looks_like_tls_needs_three_bytes_only() {
    let mut peek = vec![0x16, 0x03, 0x03];
    assert!(looks_like_tls(&peek));
    peek.extend_from_slice(&[0xff; 40]);
    assert!(looks_like_tls(&peek));
}

#[test]
fn extract_sni_from_clienthello() {
    // Minimal TLS 1.2 ClientHello with SNI for "gateway.discord.gg"
    let hostname = b"gateway.discord.gg";
    let name_len = hostname.len();

    // Build SNI extension: type(2) + ext_len(2) + list_len(2) + name_type(1) + name_len(2) + name
    let sni_ext_data_len = 2 + 1 + 2 + name_len; // list_len + type + len + name
    let mut sni_ext = vec![
        0x00, 0x00, // extension type: server_name
    ];
    sni_ext.extend_from_slice(&(sni_ext_data_len as u16).to_be_bytes()); // extension data length
    sni_ext.extend_from_slice(&((1 + 2 + name_len) as u16).to_be_bytes()); // server_name_list length
    sni_ext.push(0x00); // name type: host_name
    sni_ext.extend_from_slice(&(name_len as u16).to_be_bytes());
    sni_ext.extend_from_slice(hostname);

    // Extensions block
    let extensions_len = sni_ext.len();
    let mut extensions = Vec::new();
    extensions.extend_from_slice(&(extensions_len as u16).to_be_bytes());
    extensions.extend_from_slice(&sni_ext);

    // ClientHello body: version(2) + random(32) + session_id(1+0) + cipher_suites(2+2) + compression(1+1) + extensions
    let mut client_hello_body = vec![
        0x03, 0x03, // TLS 1.2
    ];
    client_hello_body.extend_from_slice(&[0u8; 32]); // random
    client_hello_body.push(0x00); // session_id length = 0
    client_hello_body.extend_from_slice(&[0x00, 0x02, 0x00, 0xFF]); // cipher suites: 1 suite
    client_hello_body.extend_from_slice(&[0x01, 0x00]); // compression: 1 method (null)
    client_hello_body.extend_from_slice(&extensions);

    // Handshake header: type(1) + length(3)
    let hello_len = client_hello_body.len();
    let mut handshake = vec![0x01]; // ClientHello
    handshake.push(0x00);
    handshake.extend_from_slice(&(hello_len as u16).to_be_bytes());
    handshake.extend_from_slice(&client_hello_body);

    // TLS record header: type(1) + version(2) + length(2)
    let record_len = handshake.len();
    let mut record = vec![
        0x16, // ContentType::Handshake
        0x03, 0x01, // TLS 1.0 record layer
    ];
    record.extend_from_slice(&(record_len as u16).to_be_bytes());
    record.extend_from_slice(&handshake);

    assert_eq!(
        extract_sni(&record),
        Some("gateway.discord.gg".to_string())
    );
}

#[test]
fn extract_sni_returns_none_for_non_tls() {
    assert_eq!(extract_sni(b"GET / HTTP/1.1\r\n"), None);
    assert_eq!(extract_sni(&[]), None);
    assert_eq!(extract_sni(&[0x16, 0x03, 0x01]), None); // too short
}

fn extension(kind: u16, body: &[u8]) -> Vec<u8> {
    let mut bytes = kind.to_be_bytes().to_vec();
    bytes.extend_from_slice(&(body.len() as u16).to_be_bytes());
    bytes.extend_from_slice(body);
    bytes
}

fn server_name(name_type: u8, name: &[u8]) -> Vec<u8> {
    let mut body = ((name.len() + 3) as u16).to_be_bytes().to_vec();
    body.push(name_type);
    body.extend_from_slice(&(name.len() as u16).to_be_bytes());
    body.extend_from_slice(name);
    extension(0, &body)
}

fn record(session_id: &[u8], suites: &[u8], methods: &[u8], extensions: &[Vec<u8>]) -> Vec<u8> {
    let extensions: Vec<u8> = extensions.concat();
    let mut body = vec![0x03, 0x03];
    body.extend_from_slice(&[7u8; 32]);
    body.push(session_id.len() as u8);
    body.extend_from_slice(session_id);
    body.extend_from_slice(&(suites.len() as u16).to_be_bytes());
    body.extend_from_slice(suites);
    body.push(methods.len() as u8);
    body.extend_from_slice(methods);
    body.extend_from_slice(&(extensions.len() as u16).to_be_bytes());
    body.extend_from_slice(&extensions);
    let mut handshake = vec![0x01];
    handshake.extend_from_slice(&(body.len() as u32).to_be_bytes()[1..]);
    handshake.extend_from_slice(&body);
    let mut record = vec![0x16, 0x03, 0x01];
    record.extend_from_slice(&(handshake.len() as u16).to_be_bytes());
    record.extend_from_slice(&handshake);
    record
}

fn sni_of(extensions: &[Vec<u8>]) -> Option<String> {
    extract_sni(&record(&[9; 32], &[0x13, 0x01, 0x13, 0x02], &[0], extensions))
}

#[test]
fn asked_host_is_found_among_other_extensions() {
    let found = sni_of(&[
        extension(0x000b, &[3, 0, 1, 2]),
        extension(0x0023, &[]),
        server_name(0, b"example.com"),
        extension(0x002b, &[2, 3, 4]),
    ]);
    assert_eq!(found, Some("example.com".to_string()));
}

#[test]
fn first_server_name_extension_decides() {
    assert_eq!(
        sni_of(&[server_name(0, b"first.example"), server_name(0, b"second.example")]),
        Some("first.example".to_string())
    );
    assert_eq!(sni_of(&[server_name(1, b"first.example"), server_name(0, b"second.example")]), None);
    // Too short to hold a name: passed over
    assert_eq!(
        sni_of(&[extension(0, &[0, 0]), server_name(0, b"second.example")]),
        Some("second.example".to_string())
    );
}

#[test]
fn no_server_name_extension() {
    assert_eq!(sni_of(&[]), None);
    assert_eq!(sni_of(&[extension(0x000b, &[3, 0, 1, 2])]), None);
}

#[test]
fn host_names_are_utf8() {
    assert_eq!(sni_of(&[server_name(0, b"")]), Some(String::new()));
    assert_eq!(sni_of(&[server_name(0, "h\u{f6}st".as_bytes())]), Some("h\u{f6}st".to_string()));
    assert_eq!(sni_of(&[server_name(0, &[0x68, 0xff, 0xfe])]), None);
}

#[test]
fn name_must_end_within_its_extension() {
    // Name length 4, three bytes left
    assert_eq!(sni_of(&[extension(0, &[0, 6, 0, 0, 4, b'a', b'b', b'c'])]), None);
    // Bytes after the name do not matter
    assert_eq!(
        sni_of(&[extension(0, &[0, 6, 0, 0, 2, b'a', b'b', b'c'])]),
        Some("ab".to_string())
    );
}

#[test]
fn extension_must_end_within_the_block() {
    let mut overlong = server_name(0, b"example.com");
    overlong[3] += 1;
    assert_eq!(sni_of(&[overlong]), None);
    assert_eq!(sni_of(&[vec![0x00, 0x0b, 0x00, 0x09, 0x00]]), None);
}

#[test]
fn partial_record_gives_no_host() {
    let whole = record(&[], &[0, 0xff], &[0], &[server_name(0, b"example.com")]);
    assert_eq!(extract_sni(&whole), Some("example.com".to_string()));
    for n in 0..whole.len() {
        assert_eq!(extract_sni(&whole[..n]), None);
    }
    let mut longer = whole.clone();
    longer.extend_from_slice(b"bytes of the next record");
    assert_eq!(extract_sni(&longer), Some("example.com".to_string()));
    assert!(looks_like_tls(&longer));
}

#[test]
fn other_handshake_messages_give_no_host() {
    let mut server_hello = record(&[], &[0, 0xff], &[0], &[server_name(0, b"example.com")]);
    server_hello[5] = 0x02;
    assert_eq!(extract_sni(&server_hello), None);
    let mut alert = record(&[], &[0, 0xff], &[0], &[server_name(0, b"example.com")]);
    alert[0] = 0x15;
    assert_eq!(extract_sni(&alert), None);
}

#[test]
fn fields_must_end_within_the_record() {
    let whole = record(&[], &[0, 0xff], &[0], &[server_name(0, b"example.com")]);
    // Session id length, cipher suites length, compression methods length, extensions length
    for at in [43, 44, 48, 50] {
        let mut bad = whole.clone();
        bad[at] = 0xff;
        assert_eq!(extract_sni(&bad), None);
    }
}

#[test]
fn handshake_length_must_hold_the_hello() {
    let whole = record(&[], &[0, 0xff], &[0], &[server_name(0, b"gateway.discord.gg")]);
    let len = whole.len() - 9;
    assert_eq!(whole[6..9], [0, 0, len as u8]);
    for wrong in [0, 34, len - 1, len + 1, 0x0100 + len, 0x01_0000 + len, 0xff_ffff] {
        let mut bad = whole.clone();
        bad[6..9].copy_from_slice(&(wrong as u32).to_be_bytes()[1..]);
        assert_eq!(extract_sni(&bad), None);
    }
}

#[test]
fn hello_declared_empty_names_no_host() {
    let mut data = vec![0x16, 3, 1, 0, 74, 1, 0, 0, 0, 3, 3];
    data.extend_from_slice(&[0; 32]);
    data.extend_from_slice(&[0, 0, 2, 0, 0xFF, 1, 0, 0, 27, 0, 0, 0, 23, 0, 21, 0, 0, 18]);
    data.extend_from_slice(b"gateway.discord.gg");
    assert_eq!(extract_sni(&data), None);
    data[8] = 70;
    assert_eq!(extract_sni(&data), Some("gateway.discord.gg".to_string()));
}

#[test]
fn messages_after_the_hello_do_not_matter() {
    // Another handshake message in the same record
    let mut data = record(&[], &[0, 0xff], &[0], &[server_name(0, b"example.com")]);
    data.extend_from_slice(&[0x0b, 0, 0, 2, 7, 7]);
    data[4] += 6;
    assert_eq!(extract_sni(&data), Some("example.com".to_string()));
}
