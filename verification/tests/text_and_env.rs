use std::collections::HashSet;
use subway::gateway_settings::EnvironmentVariable as GatewayVariable;
use subway::gateway_settings;
use subway::server_config::{missing_variable, Config, EnvironmentVariable as ServerVariable};
use subway::settings::{first_missing_variable, EnvironmentVariable, Settings};
use subway::text::{chars_of, parse_u16, prefix_before, starts_with, string_from_chars, u16_to_string};

fn vars(pairs: &[(&str, &str)]) -> Vec<(String, String)> {
    pairs.iter().map(|(k, v)| (k.to_string(), v.to_string())).collect()
}

#[test]
fn parse_u16_follows_std() {
    for text in ["0", "3000", "+80", "65535", "0065535", "", "+", "-1", "65536", "12a", " 1", "+-1"] {
        assert_eq!(parse_u16(text), text.parse::<u16>().ok(), "input {:?}", text);
    }
}

#[test]
fn u16_to_string_is_decimal() {
    assert_eq!(u16_to_string(0), "0");
    assert_eq!(u16_to_string(7), "7");
    assert_eq!(u16_to_string(3000), "3000");
    assert_eq!(u16_to_string(65535), "65535");
}

#[test]
fn u16_text_round_trip() {
    for n in [0u16, 1, 9, 10, 99, 100, 443, 8080, 65535] {
        assert_eq!(parse_u16(&u16_to_string(n)), Some(n));
    }
}

#[test]
fn prefixes_and_labels() {
    assert!(starts_with("https://x", "http"));
    assert!(!starts_with("htt", "http"));
    assert!(starts_with("abc", ""));
    assert_eq!(prefix_before("abc.example.com", '.'), "abc");
    assert_eq!(prefix_before("localhost", '.'), "localhost");
    assert_eq!(prefix_before(".x", '.'), "");
    assert_eq!(string_from_chars(&chars_of("héllo")), "héllo");
}

fn full_env() -> Vec<(String, String)> {
    vars(&[
        ("API_HOST", "api.internal"),
        ("API_PORT", "8081"),
        ("API_SECRET", "s3cret"),
        ("REVERSE_PROXY_HOST", "example.com"),
        ("REVERSE_PROXY_PORT", "443"),
        ("REVERSE_PROXY_CERT_PATH", "/certs"),
        ("DATABASE_URL", "postgres://db"),
    ])
}

#[test]
fn settings_read_every_variable() {
    let s = Settings::new(&full_env());
    assert_eq!(s.api_host, "api.internal");
    assert_eq!(s.api_port, 8081);
    assert_eq!(s.api_secret, "s3cret");
    assert_eq!(s.reverse_proxy_host, "example.com");
    assert_eq!(s.reverse_proxy_port, 443);
    assert_eq!(s.reverse_proxy_cert_path.as_deref(), Some("/certs"));
    assert_eq!(s.database_url, "postgres://db");
}

#[test]
fn settings_ports_default_to_3000() {
    let env = vars(&[
        ("API_HOST", "h"),
        ("API_PORT", "not-a-port"),
        ("API_SECRET", "s"),
        ("REVERSE_PROXY_HOST", "r"),
        ("DATABASE_URL", "d"),
    ]);
    assert!(first_missing_variable(&env).is_none());
    let s = Settings::new(&env);
    assert_eq!(s.api_port, 3000);
    assert_eq!(s.reverse_proxy_port, 3000);
    assert_eq!(s.reverse_proxy_cert_path, None);
}

#[test]
fn settings_report_first_missing_variable() {
    assert!(matches!(first_missing_variable(&vec![]), Some(EnvironmentVariable::ApiHost)));
    let env = vars(&[("API_HOST", "h"), ("REVERSE_PROXY_HOST", "r")]);
    assert!(matches!(first_missing_variable(&env), Some(EnvironmentVariable::ApiSecret)));
    let env = vars(&[("API_HOST", "h"), ("API_SECRET", "s"), ("DATABASE_URL", "d")]);
    assert!(matches!(first_missing_variable(&env), Some(EnvironmentVariable::ReverseProxyHost)));
    let env = vars(&[("API_HOST", "h"), ("API_SECRET", "s"), ("REVERSE_PROXY_HOST", "r")]);
    assert!(matches!(first_missing_variable(&env), Some(EnvironmentVariable::DatabaseUrl)));
    assert!(first_missing_variable(&full_env()).is_none());
}

#[test]
fn settings_use_the_first_entry_of_a_name() {
    let mut env = full_env();
    env.insert(0, ("API_HOST".to_string(), "first".to_string()));
    assert_eq!(Settings::new(&env).api_host, "first");
}

#[test]
fn variable_names() {
    assert_eq!(EnvironmentVariable::ApiPort.as_str(), "API_PORT");
    assert_eq!(EnvironmentVariable::ReverseProxyCertPath.as_str(), "REVERSE_PROXY_CERT_PATH");
    assert_eq!(gateway_settings::EnvironmentVariable::GatewayHost.as_str(), "GATEWAY_HOST");
    assert_eq!(ServerVariable::DbConnectionUrl.as_str(), "DB_CONNECTION_URL");
}

#[test]
fn gateway_settings_read_their_variables() {
    let env = vars(&[
        ("API_HOST", "h"),
        ("API_SECRET", "s"),
        ("GATEWAY_HOST", "g"),
        ("GATEWAY_PORT", "9000"),
        ("DATABASE_URL", "d"),
    ]);
    assert!(gateway_settings::first_missing_variable(&env).is_none());
    let s = gateway_settings::Settings::new(&env);
    assert_eq!(s.gateway_host, "g");
    assert_eq!(s.gateway_port, 9000);
    assert_eq!(s.api_port, 3000);
    assert_eq!(s.gateway_cert_path, None);
    let env = vars(&[("API_HOST", "h"), ("API_SECRET", "s"), ("DATABASE_URL", "d")]);
    assert!(matches!(
        gateway_settings::first_missing_variable(&env),
        Some(gateway_settings::EnvironmentVariable::GatewayHost)
    ));
    assert!(matches!(
        gateway_settings::first_missing_variable(&vec![]),
        Some(gateway_settings::EnvironmentVariable::ApiHost)
    ));
}

#[test]
fn server_config_reads_port_and_database() {
    let c = Config::new(&vars(&[("DB_CONNECTION_URL", "postgres://x"), ("SERVER_PORT", "4000")]));
    assert_eq!(c.server_port, 4000);
    assert_eq!(c.db_connection_url, "postgres://x");
    let c = Config::new(&vars(&[("DB_CONNECTION_URL", "postgres://x")]));
    assert_eq!(c.server_port, 3000);
    assert!(matches!(missing_variable(&vars(&[("SERVER_PORT", "1")])), Some(ServerVariable::DbConnectionUrl)));
    assert!(missing_variable(&vars(&[("DB_CONNECTION_URL", "")])).is_none());
}

#[test]
fn variable_names_are_distinct() {
    let all = [
        EnvironmentVariable::DatabaseUrl,
        EnvironmentVariable::ApiPort,
        EnvironmentVariable::ApiSecret,
        EnvironmentVariable::ApiHost,
        EnvironmentVariable::ReverseProxyPort,
        EnvironmentVariable::ReverseProxyHost,
        EnvironmentVariable::ReverseProxyCertPath,
    ];
    let names: HashSet<&str> = all.iter().map(|v| v.as_str()).collect();
    assert_eq!(names.len(), all.len());
    let all = [
        GatewayVariable::DatabaseUrl,
        GatewayVariable::ApiPort,
        GatewayVariable::ApiSecret,
        GatewayVariable::ApiHost,
        GatewayVariable::GatewayPort,
        GatewayVariable::GatewayHost,
        GatewayVariable::GatewayCertPath,
    ];
    let names: HashSet<&str> = all.iter().map(|v| v.as_str()).collect();
    assert_eq!(names.len(), all.len());
    assert_ne!(ServerVariable::ServerPort.as_str(), ServerVariable::DbConnectionUrl.as_str());
}
