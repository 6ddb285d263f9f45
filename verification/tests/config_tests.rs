use common_models::config::{plan_connection, MqttConfig};

fn config(host: &str, port: u16) -> MqttConfig {
    MqttConfig {
        host: host.to_string(),
        port,
        client_id: "dash-test".to_string(),
        username: None,
        password: None,
        ca_cert_path: None,
        client_cert_path: None,
        client_key_path: None,
        insecure_skip_verify: None,
        topic: None,
    }
}

#[test]
fn default_config_points_at_local_broker() {
    let c = MqttConfig::default();
    assert_eq!(c.host, "127.0.0.1");
    assert_eq!(c.port, 1883);
    assert!(c.username.is_none());
    assert!(c.password.is_none());
    assert!(c.ca_cert_path.is_none());
    assert!(c.client_cert_path.is_none());
    assert!(c.client_key_path.is_none());
    assert!(c.insecure_skip_verify.is_none());
    assert!(c.topic.is_none());
}

#[test]
fn default_client_id_is_dashboard_and_random_v4_uuid() {
    let c = MqttConfig::default();
    assert!(c.client_id.starts_with("dashboard-"));
    let suffix = &c.client_id["dashboard-".len()..];
    assert_eq!(suffix.len(), 32);
    assert!(suffix.chars().all(|ch| ch.is_ascii_digit() || ('a'..='f').contains(&ch)));
    let parsed = uuid::Uuid::parse_str(suffix).unwrap();
    assert_eq!(parsed.get_version_num(), 4);
    assert_eq!(&suffix[12..13], "4");
    assert!("89ab".contains(&suffix[16..17]));
}

#[test]
fn default_client_ids_differ() {
    let a = MqttConfig::default();
    let b = MqttConfig::default();
    assert_ne!(a.client_id, b.client_id);
}

#[test]
fn plain_host_uses_tcp() {
    let plan = plan_connection(&config("broker.local", 1883));
    assert_eq!(plan.server_uri, "tcp://broker.local:1883");
    assert!(!plan.use_ssl);
    assert_eq!(plan.client_id, "dash-test");
}

#[test]
fn port_8883_uses_ssl() {
    let plan = plan_connection(&config("broker.local", 8883));
    assert_eq!(plan.server_uri, "ssl://broker.local:8883");
    assert!(plan.use_ssl);
}

#[test]
fn host_with_scheme_is_kept() {
    let plan = plan_connection(&config("ssl://secure.example", 1883));
    assert_eq!(plan.server_uri, "ssl://secure.example:1883");
    assert!(plan.use_ssl);
    let plan = plan_connection(&config("tcp://plain.example", 8883));
    assert_eq!(plan.server_uri, "tcp://plain.example:8883");
    assert!(!plan.use_ssl);
    let plan = plan_connection(&config("ws://web.example", 9001));
    assert_eq!(plan.server_uri, "ws://web.example:9001");
    assert!(!plan.use_ssl);
}

#[test]
fn port_rendering_edges() {
    assert_eq!(plan_connection(&config("h", 0)).server_uri, "tcp://h:0");
    assert_eq!(plan_connection(&config("h", 9)).server_uri, "tcp://h:9");
    assert_eq!(plan_connection(&config("h", 10)).server_uri, "tcp://h:10");
    assert_eq!(plan_connection(&config("h", 65535)).server_uri, "tcp://h:65535");
}

#[test]
fn credentials_need_both_parts() {
    let mut c = config("h", 1883);
    c.username = Some("user".to_string());
    assert!(plan_connection(&c).credentials.is_none());
    c.password = Some("secret".to_string());
    assert_eq!(
        plan_connection(&c).credentials,
        Some(("user".to_string(), "secret".to_string()))
    );
    c.username = None;
    assert!(plan_connection(&c).credentials.is_none());
}

#[test]
fn connection_settings_are_fixed() {
    let plan = plan_connection(&config("h", 1883));
    assert_eq!(plan.max_buffered_messages, 5000);
    assert!(plan.clean_session);
    assert_eq!(plan.min_retry_secs, 1);
    assert_eq!(plan.max_retry_secs, 60);
    assert_eq!(plan.keep_alive_secs, 20);
    assert!(!plan.verify_server_certificate);
}
