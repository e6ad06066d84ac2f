use nayud_batch::config::AppConfig;
use nayud_batch::config::EnvSnapshot;

#[test]
fn config_defaults_and_overrides() {
    let env = EnvSnapshot::new();
    let cfg = AppConfig::from_env(&env);
    assert_eq!(cfg.active.host, "127.0.0.1");
    assert_eq!(cfg.passive.port, 9043);
    assert_eq!(cfg.active.username, "cassandra");

    let mut env = EnvSnapshot::new();
    env.set("DB_HOST", "globalhost");
    env.set("DB_PORT", "9999");
    let cfg = AppConfig::from_env(&env);
    assert_eq!(cfg.active.host, "globalhost");
    assert_eq!(cfg.passive.host, "globalhost");
    assert_eq!(cfg.active.port, 9999);
    assert_eq!(cfg.passive.port, 9999);

    let mut env = EnvSnapshot::new();
    env.set("DB_HOST", "globalhost");
    env.set("ACTIVE_DB_HOST", "activehost");
    let cfg = AppConfig::from_env(&env);
    assert_eq!(cfg.active.host, "activehost");
    assert_eq!(cfg.passive.host, "globalhost");

    let mut env = EnvSnapshot::new();
    env.set("ACTIVE_DB_PORT", "not-a-number");
    let cfg = AppConfig::from_env(&env);
    assert_eq!(cfg.active.port, 9042);

    let mut env = EnvSnapshot::new();
    env.set("ACTIVE_DB_USERNAME", "");
    let cfg = AppConfig::from_env(&env);
    assert_eq!(cfg.active.username, "");
}

#[test]
fn driver_and_server_from_env() {
    let mut env = EnvSnapshot::new();
    env.set("DB_REQUEST_TIMEOUT_MS", "2500");
    env.set("DB_CONNECTION_TIMEOUT_MS", "oops");
    env.set("DB_COMPRESSION", "lz4");
    env.set("DB_DEFAULT_PAGE_SIZE", "-1");
    env.set("WEB_BIND_ADDR", "0.0.0.0:9999");
    let cfg = AppConfig::from_env(&env);
    assert_eq!(cfg.driver.request_timeout_ms, Some(2500));
    assert_eq!(cfg.driver.connection_timeout_ms, None);
    assert_eq!(cfg.driver.compression.as_deref(), Some("lz4"));
    assert_eq!(cfg.driver.default_page_size, Some(-1));
    assert_eq!(cfg.server.bind_addr, "0.0.0.0:9999");

    let cfg = AppConfig::from_env(&EnvSnapshot::new());
    assert_eq!(cfg.driver.request_timeout_ms, None);
    assert_eq!(cfg.server.bind_addr, "127.0.0.1:8080");
}

#[test]
fn later_set_wins() {
    let mut env = EnvSnapshot::new();
    env.set("DB_HOST", "first");
    env.set("DB_HOST", "second");
    let cfg = AppConfig::from_env(&env);
    assert_eq!(cfg.active.host, "second");
}

#[test]
fn tls_fields_from_env() {
    let mut env = EnvSnapshot::new();
    env.set("DB_USE_TLS", "true");
    env.set("ACTIVE_DB_TLS_CA_FILE", "/etc/ca.pem");
    env.set("PASSIVE_DB_TLS_INSECURE_SKIP_VERIFY", "yes");
    let cfg = AppConfig::from_env(&env);
    assert!(cfg.active.use_tls && cfg.passive.use_tls);
    assert_eq!(cfg.active.tls_ca_file.as_deref(), Some("/etc/ca.pem"));
    assert_eq!(cfg.passive.tls_ca_file, None);
    assert!(cfg.passive.tls_insecure_skip_verify);
    assert!(!cfg.active.tls_insecure_skip_verify);
    // Replication factor and durable writes stay at their defaults.
    assert_eq!(cfg.active.replication_factor, Some(3));
    assert_eq!(cfg.active.durable_writes, Some(true));
}
