use std::time::Duration;
use zephyrchain::network::config::NetworkConfig;

#[test]
fn default_configuration() {
    let c = NetworkConfig::default();
    assert_eq!(c.listen_address, "/ip4/0.0.0.0/tcp/0");
    assert!(c.bootstrap_nodes.is_empty());
    assert_eq!(c.max_connections, 10);
    assert_eq!(c.handshake_timeout, Duration::from_secs(10));
    assert_eq!(c.message_timeout, Duration::from_secs(10));
    assert_eq!(c.ping_interval, Duration::from_secs(60));
    assert_eq!(c.max_message_size, 1024 * 1024);
    assert_eq!(c.max_frame_size, 1024 * 1024);
    assert!(!c.use_tls);
    assert!(c.tls_certificate_path.is_none());
    assert!(c.tls_private_key_path.is_none());
    assert!(!c.use_quantum);
}

#[test]
fn new_keeps_addresses_and_defaults() {
    let c = NetworkConfig::new("/ip4/1.2.3.4/tcp/9".to_string(), vec!["boot".to_string()]);
    assert_eq!(c.listen_address, "/ip4/1.2.3.4/tcp/9");
    assert_eq!(c.bootstrap_nodes, vec!["boot".to_string()]);
    assert_eq!(c.max_connections, 10);
    assert_eq!(c.ping_interval, Duration::from_secs(60));
}

#[test]
fn builders_set_only_their_field() {
    let c = NetworkConfig::default()
        .with_max_connections(3)
        .with_handshake_timeout(Duration::from_millis(1500))
        .with_message_timeout(Duration::from_secs(2))
        .with_ping_interval(Duration::from_secs(5))
        .with_max_message_size(64)
        .with_max_frame_size(32);
    assert_eq!(c.max_connections, 3);
    assert_eq!(c.handshake_timeout, Duration::from_millis(1500));
    assert_eq!(c.message_timeout, Duration::from_secs(2));
    assert_eq!(c.ping_interval, Duration::from_secs(5));
    assert_eq!(c.max_message_size, 64);
    assert_eq!(c.max_frame_size, 32);
    assert_eq!(c.listen_address, "/ip4/0.0.0.0/tcp/0");
    assert!(!c.use_tls);
}

#[test]
fn with_tls_enables_tls() {
    let c = NetworkConfig::default().with_tls("cert.pem".to_string(), "key.pem".to_string());
    assert!(c.use_tls);
    assert_eq!(c.tls_certificate_path.as_deref(), Some("cert.pem"));
    assert_eq!(c.tls_private_key_path.as_deref(), Some("key.pem"));
    assert_eq!(c.max_connections, 10);
}
