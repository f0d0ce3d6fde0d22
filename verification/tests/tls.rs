use xhttp_tunnel::tls::{build_tls_config, choose_identity, protocols, Identity, TlsError, TlsFault};

fn section(kind: &str, body: &str) -> String {
    format!("-----BEGIN {}-----\n{}\n-----END {}-----\n", kind, body, kind)
}

fn certificates() -> String {
    section("CERTIFICATE", "Zmlyc3QgY2VydGlmaWNhdGU=") + &section("CERTIFICATE", "c2Vjb25kIGNlcnRpZmljYXRl")
}

/// An Ed25519 key whose seed is the bytes from 1 to 32.
fn key() -> String {
    section("PRIVATE KEY", "MC4CAQAwBQYDK2VwBCIEIAECAwQFBgcICQoLDA0ODxAREhMUFRYXGBkaGxwdHh8g")
}

#[test]
fn tls_with_certificates_and_key() {
    let config = match build_tls_config(certificates().as_bytes(), key().as_bytes()) {
        Ok(config) => config,
        Err(e) => panic!("{:?}", e),
    };
    assert_eq!(config.alpn_protocols, vec![b"h2".to_vec(), b"http/1.1".to_vec()]);
}

#[test]
fn tls_takes_the_first_key() {
    let bad = section("PRIVATE KEY", "bm90IGEga2V5");
    assert!(build_tls_config(certificates().as_bytes(), (key() + &bad).as_bytes()).is_ok());
    let result = build_tls_config(certificates().as_bytes(), (bad + &key()).as_bytes());
    assert!(matches!(result, Err(TlsError::BadKey(_))));
}

#[test]
fn tls_without_identity() {
    for (c, k) in [(String::new(), key()), (certificates(), String::new()), (key(), certificates())] {
        let result = build_tls_config(c.as_bytes(), k.as_bytes());
        assert!(matches!(result, Err(TlsError::NoIdentity)));
    }
}

#[test]
fn tls_with_malformed_files() {
    let open = "-----BEGIN CERTIFICATE-----\nAAAA\n";
    assert!(matches!(build_tls_config(open.as_bytes(), key().as_bytes()), Err(TlsError::BadPem(_))));
    let broken = section("PRIVATE KEY", "!!!!");
    let result = build_tls_config(certificates().as_bytes(), broken.as_bytes());
    assert!(matches!(result, Err(TlsError::BadPem(_))));
}

#[test]
fn identity_is_all_certificates_and_the_first_key() {
    assert_eq!(
        choose_identity(vec![vec![1], vec![2]], vec![vec![3], vec![4]]),
        Some(Identity { chain: vec![vec![1], vec![2]], key: vec![3] })
    );
    assert_eq!(choose_identity(vec![], vec![vec![3]]), None);
    assert_eq!(choose_identity(vec![vec![1]], vec![]), None);
}

#[test]
fn offered_protocol_names() {
    assert_eq!(protocols(), vec![b"h2".to_vec(), b"http/1.1".to_vec()]);
}

#[test]
fn tls_errors_keep_what_was_met() {
    assert_eq!(TlsError::NoIdentity.message(), Some("Certs empty".to_string()));
    assert_eq!(TlsError::NoIdentity.fault(), TlsFault::NoIdentity);
    let broken = section("PRIVATE KEY", "!!!!");
    match build_tls_config(certificates().as_bytes(), broken.as_bytes()) {
        Err(e) => {
            assert_eq!(e.fault(), TlsFault::BadPem);
            assert_eq!(e.message(), None);
        }
        Ok(_) => panic!("accepted"),
    }
    let bad = section("PRIVATE KEY", "bm90IGEga2V5");
    match build_tls_config(certificates().as_bytes(), bad.as_bytes()) {
        Err(TlsError::BadKey(e)) => assert!(e.to_string().contains("invalid private key")),
        _ => panic!("no error of the key"),
    }
}
