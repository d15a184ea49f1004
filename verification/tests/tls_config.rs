use zephyrchain::network::tls_config::{alpn_protocols, cipher_suites, CipherSuite};

#[test]
fn default_alpn_protocols() {
    assert_eq!(alpn_protocols(None), vec![b"http/1.1".to_vec(), b"h2".to_vec()]);
}

#[test]
fn configured_alpn_protocols_are_split_on_commas() {
    assert_eq!(alpn_protocols(Some("h3")), vec![b"h3".to_vec()]);
    assert_eq!(alpn_protocols(Some("a,,b")), vec![b"a".to_vec(), vec![], b"b".to_vec()]);
    assert_eq!(alpn_protocols(Some("")), vec![Vec::<u8>::new()]);
    assert_eq!(alpn_protocols(Some("é,x")), vec!["é".as_bytes().to_vec(), b"x".to_vec()]);
}

#[test]
fn default_cipher_suites() {
    assert_eq!(
        cipher_suites(None),
        Ok(vec![CipherSuite::Tls13Aes128GcmSha256, CipherSuite::Tls13Aes256GcmSha384])
    );
}

#[test]
fn configured_cipher_suites_keep_their_order() {
    assert_eq!(
        cipher_suites(Some("TLS13_AES_256_GCM_SHA384,TLS13_AES_128_GCM_SHA256")),
        Ok(vec![CipherSuite::Tls13Aes256GcmSha384, CipherSuite::Tls13Aes128GcmSha256])
    );
}

#[test]
fn first_unsupported_suite_is_refused() {
    assert_eq!(cipher_suites(Some("TLS13_AES_128_GCM_SHA256,bad,worse")), Err(b"bad".to_vec()));
    assert_eq!(cipher_suites(Some("")), Err(Vec::new()));
    assert_eq!(cipher_suites(Some("tls13_aes_128_gcm_sha256")), Err(b"tls13_aes_128_gcm_sha256".to_vec()));
}
