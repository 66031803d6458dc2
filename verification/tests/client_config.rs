use fileserver::client_config::{create_config_from_args, ClientConfig, ClientSettings, ServerSettings};

fn valid_config() -> ClientConfig {
    ClientConfig {
        server: ServerSettings { host: "localhost".to_string(), port: 8080 },
        client: ClientSettings { timeout_seconds: 30, retry_attempts: 3 },
    }
}

#[test]
fn test_server_address_generation() {
    let config = ClientConfig {
        server: ServerSettings { host: "192.168.1.100".to_string(), port: 8080 },
        client: ClientSettings { timeout_seconds: 30, retry_attempts: 3 },
    };

    assert_eq!(config.server_address(), "http://192.168.1.100:8080");
}

#[test]
fn test_config_validation_valid() {
    let config = ClientConfig {
        server: ServerSettings { host: "localhost".to_string(), port: 8080 },
        client: ClientSettings { timeout_seconds: 30, retry_attempts: 3 },
    };

    assert!(config.validate().is_ok());
}

#[test]
fn test_config_validation_empty_host() {
    let config = ClientConfig {
        server: ServerSettings { host: "".to_string(), port: 8080 },
        client: ClientSettings { timeout_seconds: 30, retry_attempts: 3 },
    };

    let result = config.validate();
    assert!(result.is_err());
    assert!(result.unwrap_err().message().contains("Server host cannot be empty"));
}

#[test]
fn test_config_validation_zero_port() {
    let config = ClientConfig {
        server: ServerSettings { host: "localhost".to_string(), port: 0 },
        client: ClientSettings { timeout_seconds: 30, retry_attempts: 3 },
    };

    let result = config.validate();
    assert!(result.is_err());
    assert!(result.unwrap_err().message().contains("Server port cannot be 0"));
}

#[test]
fn test_config_validation_zero_timeout() {
    let config = ClientConfig {
        server: ServerSettings { host: "localhost".to_string(), port: 8080 },
        client: ClientSettings { timeout_seconds: 0, retry_attempts: 3 },
    };

    let result = config.validate();
    assert!(result.is_err());
    assert!(result.unwrap_err().message().contains("Timeout cannot be 0"));
}

#[test]
fn test_config_validation_zero_retries() {
    let config = ClientConfig {
        server: ServerSettings { host: "localhost".to_string(), port: 8080 },
        client: ClientSettings { timeout_seconds: 30, retry_attempts: 0 },
    };

    let result = config.validate();
    assert!(result.is_err());
    assert!(result.unwrap_err().message().contains("Retry attempts cannot be 0"));
}

#[test]
fn test_args_with_server_and_port() {
    let result = create_config_from_args(
        &Some("example.org".to_string()),
        &Some(9000),
        45,
        4,
        None,
    );
    let config = result.unwrap();
    assert_eq!(config.server.host, "example.org");
    assert_eq!(config.server.port, 9000);
    assert_eq!(config.client.timeout_seconds, 45);
    assert_eq!(config.client.retry_attempts, 4);
}

#[test]
fn test_args_override_loaded_config() {
    let loaded = valid_config();
    let result = create_config_from_args(&Some("other".to_string()), &None, 60, 5, Some(loaded));
    let config = result.unwrap();
    assert_eq!(config.server.host, "other");
    assert_eq!(config.server.port, 8080);
    assert_eq!(config.client.timeout_seconds, 60);
    assert_eq!(config.client.retry_attempts, 5);
}

#[test]
fn test_args_without_any_source() {
    let result = create_config_from_args(&None, &None, 30, 3, None);
    assert!(result.is_err());
    assert!(result.unwrap_err().message().contains(
        "Either provide --server and --port, or specify a config file with --config",
    ));
}

#[test]
fn test_args_invalid_merge_rejected() {
    let loaded = valid_config();
    let result = create_config_from_args(&None, &Some(0), 30, 3, Some(loaded));
    assert!(result.is_err());
    assert!(result.unwrap_err().message().contains("Server port cannot be 0"));
}
