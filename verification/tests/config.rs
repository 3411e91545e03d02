use influxdb_connector::config::{build_url, InfluxConfig};
use influxdb_connector::json::Json;
use influxdb_connector::tls::TlsConfig;

fn json(text: &str) -> Json {
    Json::parse(text).unwrap()
}

fn config(text: &str) -> InfluxConfig {
    InfluxConfig::from_request(&json(text)).unwrap()
}

#[test]
fn config_builds_url_database_and_redacts_token() {
    let request = json(
        r#"{
            "host": "influx.example.com",
            "port": 8086,
            "database": "sensors",
            "tls": true,
            "secrets": {
                "token": "secret-token"
            }
        }"#,
    );
    let config = InfluxConfig::from_request(&request).unwrap();
    assert_eq!(config.base_url, "https://influx.example.com:8086");
    assert_eq!(config.database, "sensors");
    assert_eq!(config.redact("failed with secret-token"), "failed with ****");
}

#[test]
fn an_oauth_access_token_is_accepted_under_its_own_name() {
    for field in ["token", "influxToken", "oauthAccessToken", "bearerToken"] {
        let text = format!(
            r#"{{ "profile": {{ "host": "influx.local", "options": {{ "{field}": "tok-value" }} }} }}"#
        );
        let config = InfluxConfig::from_request(&json(&text)).expect("config");
        assert_eq!(config.token.as_deref(), Some("tok-value"), "{field}");
    }
}

#[test]
fn an_empty_request_asks_for_the_defaults() {
    let config = config("{}");
    assert_eq!(config.base_url, "http://127.0.0.1:8086");
    assert_eq!(config.database, "default");
    assert_eq!(config.token, None);
    assert_eq!(config.query_type, "sql");
    assert_eq!(config.tls, TlsConfig::default());
    assert_eq!(config.redaction_values, Vec::<String>::new());
}

#[test]
fn a_url_goes_before_host_and_port() {
    let config = config(
        r#"{"host": "other", "url": "https://user:pw@db:9999/metrics?x=1", "token": "t0k"}"#,
    );
    assert_eq!(config.base_url, "https://user:pw@db:9999");
    assert_eq!(config.database, "metrics");
    assert_eq!(config.redaction_values, vec!["t0k", "user", "pw"]);
}

#[test]
fn a_named_database_goes_before_the_path() {
    let config = config(r#"{"url": "http://db/path", "bucket": "named"}"#);
    assert_eq!(config.database, "named");
}

#[test]
fn an_empty_connection_string_is_refused() {
    assert_eq!(
        InfluxConfig::from_request(&json(r#"{"url": " / "}"#)),
        Err("InfluxDB URL is empty.".to_string())
    );
}

#[test]
fn another_query_language_is_refused() {
    assert_eq!(
        InfluxConfig::from_request(&json(r#"{"queryType": "flux"}"#)),
        Err("this native InfluxDB driver currently supports SQL queryType only.".to_string())
    );
    assert_eq!(config(r#"{"language": "SQL"}"#).query_type, "sql");
}

#[test]
fn a_bad_url_is_refused_before_a_bad_language() {
    assert_eq!(
        InfluxConfig::from_request(&json(r#"{"url": "/", "queryType": "flux"}"#)),
        Err("InfluxDB URL is empty.".to_string())
    );
}

#[test]
fn a_port_out_of_range_is_passed_over() {
    assert_eq!(build_url(&json(r#"{"port": 65536}"#)), "http://127.0.0.1:8086");
    assert_eq!(build_url(&json(r#"{"port": "443", "ssl": "on"}"#)), "https://127.0.0.1:443");
    assert_eq!(
        build_url(&json(r#"{"port": 70000, "profile": {"port": 1}, "hostname": "h"}"#)),
        "http://h:1"
    );
}

#[test]
fn the_query_address_names_the_encoded_database() {
    let config = config(r#"{"host": "db", "database": "my sensors/1"}"#);
    assert_eq!(config.query_url(), "http://db:8086/api/v3/query?database=my%20sensors%2F1");
    assert_eq!(config.ping_url(), "http://db:8086/ping");
}

#[test]
fn a_token_is_sent_as_such() {
    assert_eq!(config(r#"{"apiKey": "abc"}"#).auth(), Some("Token abc".to_string()));
    assert_eq!(config("{}").auth(), None);
}

#[test]
fn the_address_is_redacted_before_the_secrets() {
    let config = config(r#"{"url": "http://user:pw@db:8086/x", "token": "t0k"}"#);
    assert_eq!(
        config.redact("GET http://user:pw@db:8086/ping as user with t0k, pw"),
        "GET <influxdb-url>/ping as **** with ****, ****"
    );
}

#[test]
fn a_message_without_secrets_is_kept() {
    let config = config(r#"{"host": "db", "token": "t0k"}"#);
    assert_eq!(config.redact("no such table: cpu"), "no such table: cpu");
}

#[test]
fn a_secret_within_another_is_hidden_too() {
    let config = InfluxConfig {
        redaction_values: vec!["abc".to_string(), "".to_string(), "b".to_string()],
        ..config(r#"{"host": "db"}"#)
    };
    assert_eq!(config.redact("aabcb abab"), "a******** a****a****");
}

#[test]
fn asterisks_can_spell_a_secret_made_of_them() {
    let config = InfluxConfig {
        redaction_values: vec!["*a".to_string()],
        ..config(r#"{"host": "db"}"#)
    };
    assert_eq!(config.redact("*aa"), "****a");
}

#[test]
fn an_empty_address_marks_every_place() {
    let config = InfluxConfig { base_url: String::new(), ..config("{}") };
    assert_eq!(config.redact("ab"), "<influxdb-url>a<influxdb-url>b<influxdb-url>");
}

#[test]
fn a_copy_of_a_configuration_is_equal() {
    let config = config(r#"{"host": "db", "token": "t", "sslCert": "/c.pem"}"#);
    assert_eq!(config.clone(), config);
}

#[test]
fn servers_are_reached_over_http() {
    for (text, base_url) in [
        (r#"{"url": "influxdb://db/x?y"}"#, "http://db"),
        (r#"{"url": "ftp://db"}"#, "http://ftp:"),
        (r#"{"dsn": "https://db:1/a#b"}"#, "https://db:1"),
        (r#"{"host": "db/x", "useTls": 1, "ssl": "yes"}"#, "https://db"),
    ] {
        assert_eq!(config(text).base_url, base_url);
    }
}
