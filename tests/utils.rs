use kafka_proxy::models::Configuration;
use kafka_proxy::utils::{resolve_configuration, split_brokers, try_split_brokers, ConfigError, ConfigInput};

fn input(
    cert: Option<&str>,
    key: Option<&str>,
    brokers: Option<&str>,
    port: Option<&str>,
) -> ConfigInput {
    ConfigInput {
        cert_path_flag: cert.map(|s| s.to_string()),
        cert_path_env: None,
        key_path_flag: key.map(|s| s.to_string()),
        key_path_env: None,
        brokers_flag: brokers.map(|s| s.to_string()),
        brokers_env: None,
        port_flag: port.map(|s| s.to_string()),
        port_env: None,
        panic_flag: false,
        panic_env: false,
        dry_run_flag: false,
    }
}

fn resolved(i: ConfigInput) -> Configuration {
    match resolve_configuration(i) {
        Ok(c) => c,
        Err(e) => panic!("unexpected error {:?}", e),
    }
}

#[test]
fn test_broker_split() {
    let example_brokers = "10.0.0.1:9092,10.0.0.1:9093,10.0.0.1:9095".to_string();

    assert!(split_brokers(example_brokers) == vec!["10.0.0.1:9092".to_string(),
        "10.0.0.1:9093".to_string(), "10.0.0.1:9095".to_string()]);
}

#[test]
fn broker_entry_without_port_is_refused() {
    assert_eq!(try_split_brokers("10.0.0.1,10.0.0.2"), None);
    assert_eq!(try_split_brokers("10.0.0.1:9092,10.0.0.2"), None);
    assert_eq!(try_split_brokers(""), None);
    assert_eq!(try_split_brokers("10.0.0.1:9092,"), None);
}

#[test]
fn broker_entry_keeps_host_and_first_port() {
    assert_eq!(
        try_split_brokers("10.0.0.1:9092:extra,h:1"),
        Some(vec!["10.0.0.1:9092".to_string(), "h:1".to_string()])
    );
    assert_eq!(try_split_brokers(":"), Some(vec![":".to_string()]));
    assert_eq!(try_split_brokers("only:1"), Some(vec!["only:1".to_string()]));
}

#[test]
fn test_configuration_parsing() {
    let config = resolved(input(
        Some("/opt/place"),
        Some("/opt/place2"),
        Some("10.0.0.1:9092,10.0.0.2:9093"),
        Some("3000"),
    ));

    let test_cert_path: String = "/opt/place".to_string();
    let test_key_path: String = "/opt/place2".to_string();

    assert!(config.brokers == vec!["10.0.0.1:9092".to_string(), "10.0.0.2:9093".to_string()]);
    assert!(config.cert_path == test_cert_path);
    assert!(config.key_path == test_key_path);
    assert!(config.port == 3000);
    assert!(config.panic_on_backup == false);
    assert!(config.dry_run == false);
}

#[test]
fn test_flag_parsing() {
    let mut flags = input(
        Some("/opt/place"),
        Some("/opt/place2"),
        Some("10.0.0.1:9092,10.0.0.2:9093"),
        Some("3000"),
    );
    flags.panic_flag = true;
    flags.dry_run_flag = true;
    let config = resolved(flags);

    let test_cert_path: String = "/opt/place".to_string();
    let test_key_path: String = "/opt/place2".to_string();

    assert!(config.brokers == vec!["10.0.0.1:9092".to_string(), "10.0.0.2:9093".to_string()]);
    assert!(config.cert_path == test_cert_path);
    assert!(config.key_path == test_key_path);
    assert!(config.port == 3000);
    assert!(config.panic_on_backup == true);
    assert!(config.dry_run == true);
}

#[test]
fn configuration_flags_and_environment() {
    let mut i = input(None, Some("/k"), None, Some("+8080"));
    i.cert_path_env = Some("/env/cert".to_string());
    i.brokers_env = Some("b:1".to_string());
    i.brokers_flag = None;
    i.port_env = Some("1".to_string());
    i.panic_env = true;
    i.dry_run_flag = true;
    let config = resolved(i);
    assert_eq!(config.cert_path, "/env/cert");
    assert_eq!(config.brokers, vec!["b:1".to_string()]);
    assert_eq!(config.port, 8080);
    assert!(config.panic_on_backup);
    assert!(config.dry_run);

    let mut j = input(Some("/c"), Some("/k"), Some("b:1"), Some("1"));
    j.panic_flag = true;
    assert!(resolved(j).panic_on_backup);
}

#[test]
fn configuration_errors() {
    let e = |i: ConfigInput| resolve_configuration(i).err();
    assert_eq!(e(input(None, Some("/k"), Some("b:1"), Some("1"))), Some(ConfigError::MissingCertPath));
    assert_eq!(e(input(Some("/c"), None, Some("b:1"), Some("1"))), Some(ConfigError::MissingKeyPath));
    assert_eq!(e(input(Some("/c"), Some("/k"), None, Some("1"))), Some(ConfigError::MissingBrokers));
    assert_eq!(e(input(Some("/c"), Some("/k"), Some("b"), Some("1"))), Some(ConfigError::BrokerWithoutPort));
    assert_eq!(e(input(Some("/c"), Some("/k"), Some("b:1"), None)), Some(ConfigError::MissingPort));
    assert_eq!(e(input(Some("/c"), Some("/k"), Some("b:1"), Some("30x"))), Some(ConfigError::InvalidPort));
    assert_eq!(e(input(Some("/c"), Some("/k"), Some("b:1"), Some("+"))), Some(ConfigError::InvalidPort));
    assert_eq!(e(input(Some("/c"), Some("/k"), Some("b:1"), Some("-1"))), Some(ConfigError::InvalidPort));
    assert_eq!(
        e(input(Some("/c"), Some("/k"), Some("b:1"), Some("18446744073709551616"))),
        Some(ConfigError::InvalidPort)
    );
    assert_eq!(resolved(input(Some("/c"), Some("/k"), Some("b:1"), Some("18446744073709551615"))).port, u64::MAX);
}
