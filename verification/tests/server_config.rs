use fileserver::net::{parse_ip, IpAddress};
use fileserver::server_config::{DirectoryConfig, ServerConfig, ServerSettings};

fn addr(text: &str) -> IpAddress {
    parse_ip(text).unwrap()
}

#[test]
fn test_ip_validation() {
    let config = ServerConfig {
        server: ServerSettings {
            port: 8080,
            allowed_ips: vec!["127.0.0.1".to_string(), "192.168.1.0/24".to_string()],
            user: None,
            group: None,
        },
        directories: vec![],
    };

    // Test localhost
    let localhost = addr("127.0.0.1");
    assert!(config.is_ip_allowed(&localhost));

    // Test IP in CIDR range
    let ip_in_range = addr("192.168.1.100");
    assert!(config.is_ip_allowed(&ip_in_range));

    // Test IP not in range
    let ip_not_allowed = addr("10.0.0.1");
    assert!(!config.is_ip_allowed(&ip_not_allowed));
}

#[test]
fn test_directory_lookup() {
    let config = ServerConfig {
        server: ServerSettings {
            port: 8080,
            allowed_ips: vec!["127.0.0.1".to_string()],
            user: None,
            group: None,
        },
        directories: vec![
            DirectoryConfig {
                name: "docs".to_string(),
                path: "/tmp/docs".to_string(),
                permissions: "read-only".to_string(),
            },
            DirectoryConfig {
                name: "workspace".to_string(),
                path: "/tmp/workspace".to_string(),
                permissions: "read-write".to_string(),
            },
        ],
    };

    assert!(config.get_directory("docs").is_some());
    assert!(config.get_directory("workspace").is_some());
    assert!(config.get_directory("nonexistent").is_none());

    let docs_dir = config.get_directory("docs").unwrap();
    assert_eq!(docs_dir.permissions, "read-only");
}

#[test]
fn test_config_validation_invalid_port() {
    let config = ServerConfig {
        server: ServerSettings {
            port: 0,
            allowed_ips: vec!["127.0.0.1".to_string()],
            user: None,
            group: None,
        },
        directories: vec![],
    };

    let result = config.validate();
    assert!(result.is_err());
    assert!(result.unwrap_err().message().contains("Port cannot be 0"));
}

#[test]
fn test_config_validation_invalid_permissions() {
    let config = ServerConfig {
        server: ServerSettings {
            port: 8080,
            allowed_ips: vec!["127.0.0.1".to_string()],
            user: None,
            group: None,
        },
        directories: vec![DirectoryConfig {
            name: "test".to_string(),
            path: "/tmp".to_string(),
            permissions: "invalid".to_string(),
        }],
    };

    let result = config.validate();
    assert!(result.is_err());
    assert!(result.unwrap_err().message().contains("Invalid permissions"));
}

#[test]
fn test_is_valid_ip_or_cidr() {
    assert!(ServerConfig::is_valid_ip_or_cidr("127.0.0.1"));
    assert!(ServerConfig::is_valid_ip_or_cidr("192.168.1.0/24"));
    assert!(ServerConfig::is_valid_ip_or_cidr("::1"));
    assert!(!ServerConfig::is_valid_ip_or_cidr("invalid_ip"));
    assert!(!ServerConfig::is_valid_ip_or_cidr("256.256.256.256"));
}

#[test]
fn test_config_validation_bad_allowlist_entry() {
    let config = ServerConfig {
        server: ServerSettings {
            port: 8080,
            allowed_ips: vec!["not-an-ip".to_string()],
            user: None,
            group: None,
        },
        directories: vec![],
    };

    let result = config.validate();
    assert!(result.is_err());
    assert!(result.unwrap_err().message().contains("Invalid IP address or CIDR: not-an-ip"));
}

#[test]
fn test_config_validation_missing_directory() {
    let config = ServerConfig {
        server: ServerSettings {
            port: 8080,
            allowed_ips: vec![],
            user: None,
            group: None,
        },
        directories: vec![DirectoryConfig {
            name: "gone".to_string(),
            path: "/tmp/fileserver_no_such_directory_anywhere".to_string(),
            permissions: "read-only".to_string(),
        }],
    };

    let result = config.validate();
    assert!(result.is_err());
    assert!(result.unwrap_err().message().contains("Directory does not exist"));
}

#[test]
fn test_ip_parsing_values() {
    assert_eq!(addr("127.0.0.1"), IpAddress::V4(0x7f000001));
    assert_eq!(addr("255.255.255.255"), IpAddress::V4(0xffffffff));
    assert_eq!(addr("::1"), IpAddress::V6(1));
    assert_eq!(addr("ff02::2"), IpAddress::V6(0xff020000000000000000000000000002));
    assert_eq!(addr("::ffff:192.0.2.1"), IpAddress::V6(0xffffc0000201));
    assert_eq!(addr("1:2:3:4:5:6:7:8"), IpAddress::V6(0x00010002000300040005000600070008));
    assert!(parse_ip("1.2.3").is_none());
    assert!(parse_ip("01.2.3.4").is_none());
    assert!(parse_ip("1.2.3.4.5").is_none());
    assert!(parse_ip("1:2:3:4:5:6:7:8:9").is_none());
    assert!(parse_ip("1::2::3").is_none());
    assert!(parse_ip("").is_none());
    assert!(parse_ip(":::").is_none());
}

#[test]
fn test_cidr_membership() {
    let config = ServerConfig {
        server: ServerSettings {
            port: 8080,
            allowed_ips: vec!["10.0.0.0/8".to_string(), "2001:db8::/32".to_string()],
            user: None,
            group: None,
        },
        directories: vec![],
    };

    assert!(config.is_ip_allowed(&addr("10.255.3.4")));
    assert!(!config.is_ip_allowed(&addr("11.0.0.1")));
    assert!(config.is_ip_allowed(&addr("2001:db8::1")));
    assert!(!config.is_ip_allowed(&addr("2001:db9::1")));
    // a value of one family never matches a range of the other
    assert!(!config.is_ip_allowed(&addr("::a00:1")));
}

#[test]
fn test_config_validation_ok_without_directories() {
    let config = ServerConfig {
        server: ServerSettings {
            port: 8080,
            allowed_ips: vec!["127.0.0.1".to_string(), "10.0.0.0/8".to_string()],
            user: None,
            group: None,
        },
        directories: vec![],
    };

    assert!(config.validate().is_ok());
}
