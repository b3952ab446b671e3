use openshell_tls::{
    ca_bundle_file, ca_cert_file, combined_bundle, parse_pem_certs, BundleSearch, CertCache, SandboxCa,
};

#[test]
fn search_goes_through_the_paths_in_order() {
    let mut search = BundleSearch::start();
    let mut paths = Vec::new();
    while let Some(path) = search.path() {
        paths.push(path);
        search = search.on_read(None);
    }
    assert_eq!(
        paths,
        vec![
            "/etc/ssl/certs/ca-certificates.crt",
            "/etc/pki/tls/certs/ca-bundle.crt",
            "/etc/ssl/ca-bundle.pem",
            "/etc/ssl/cert.pem",
        ]
    );
    assert_eq!(search.into_bundle(), "");
}

#[test]
fn search_ends_with_the_first_bundle() {
    let search = BundleSearch::start();
    let search = search.on_read(None);
    let search = search.on_read(Some(String::new()));
    assert_eq!(search.path(), Some("/etc/ssl/ca-bundle.pem"));
    let search = search.on_read(Some("bundle".to_string()));
    assert_eq!(search.path(), None);
    let search = search.on_read(Some("later".to_string()));
    assert_eq!(search.into_bundle(), "bundle");
}

#[test]
fn combined_bundle_breaks_the_line() {
    assert_eq!(combined_bundle("system".to_string(), "ca\n"), "system\nca\n");
    assert_eq!(combined_bundle("system\n".to_string(), "ca\n"), "system\nca\n");
    assert_eq!(combined_bundle("\u{4e2d}".to_string(), "ca"), "\u{4e2d}\nca");
    assert_eq!(combined_bundle(String::new(), "ca\n"), "ca\n");
}

#[test]
fn files_of_the_trust_store() {
    let ca = SandboxCa::generate().unwrap();
    let cert = ca_cert_file(&ca);
    assert_eq!(cert.name, "openshell-ca.pem");
    assert_eq!(cert.contents, ca.cert_pem());
    let bundle = ca_bundle_file(&ca, "system".to_string());
    assert_eq!(bundle.name, "ca-bundle.pem");
    assert_eq!(bundle.contents, format!("system\n{}", ca.cert_pem()));
}

#[test]
fn ca_files_parse_back() {
    let system_a = SandboxCa::generate().unwrap();
    let system_b = SandboxCa::generate().unwrap();
    let ca = SandboxCa::generate().unwrap();
    let files = [
        (String::new(), 0),
        (format!("# system\n{}{}", system_a.cert_pem(), system_b.cert_pem()), 2),
        (format!("{}# no line break", system_a.cert_pem()), 1),
        (system_b.cert_pem().trim_end().to_string(), 1),
        (system_b.cert_pem().replace('\n', "\r"), 1),
    ];
    assert!(ca.pem_fits());
    let cert = ca_cert_file(&ca);
    let bundles: Vec<_> =
        files.iter().map(|(system, _)| ca_bundle_file(&ca, system.clone())).collect();
    let ca_der = CertCache::new(ca).generate_leaf("example.com").unwrap().cert_chain[1].clone();

    assert_eq!(parse_pem_certs(cert.contents.as_bytes()).unwrap(), vec![ca_der.clone()]);
    for ((system, count), bundle) in files.iter().zip(bundles) {
        let mut expected = parse_pem_certs(system.as_bytes()).unwrap();
        assert_eq!(expected.len(), *count);
        expected.push(ca_der.clone());
        assert_eq!(parse_pem_certs(bundle.contents.as_bytes()).unwrap(), expected);
    }
}
