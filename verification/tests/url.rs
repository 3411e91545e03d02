use influxdb_connector::url::{
    collect_url_auth, database_from_url, normalize_url, push_sensitive,
    strip_query_and_path_database, url_component,
};

fn normalized(url: &str) -> String {
    normalize_url(url).unwrap()
}

#[test]
fn a_url_without_a_scheme_is_one_over_http() {
    assert_eq!(normalize_url(" db:8086/ "), Ok("http://db:8086".to_string()));
}

#[test]
fn http_and_https_urls_are_kept() {
    assert_eq!(normalized("http://db:8086"), "http://db:8086");
    assert_eq!(normalized("\thttps://db/x//\n"), "https://db/x");
}

#[test]
fn an_influxdb_url_is_one_over_http() {
    assert_eq!(normalized("influxdb://db:8181/sensors/"), "http://db:8181/sensors");
}

#[test]
fn another_scheme_is_taken_for_a_host() {
    assert_eq!(normalized("ftp://db"), "http://ftp://db");
}

#[test]
fn a_bare_influxdb_scheme_leaves_no_host() {
    assert_eq!(normalized("influxdb:///"), "http://influxdb:");
}

#[test]
fn an_empty_url_is_refused() {
    assert_eq!(normalize_url(""), Err("InfluxDB URL is empty.".to_string()));
    assert_eq!(normalize_url("  /// "), Err("InfluxDB URL is empty.".to_string()));
}

#[test]
fn the_origin_drops_path_query_and_fragment() {
    assert_eq!(strip_query_and_path_database("http://db:8086/a/b?c=d#e"), "http://db:8086");
    assert_eq!(strip_query_and_path_database("https://db#x/y"), "https://db");
    assert_eq!(strip_query_and_path_database("db/a?b"), "db/a");
    assert_eq!(strip_query_and_path_database(""), "");
}

#[test]
fn the_origin_of_an_origin_is_itself() {
    let origin = strip_query_and_path_database("http://user:pw@db:8086/a?b");
    assert_eq!(origin, "http://user:pw@db:8086");
    assert_eq!(strip_query_and_path_database(&origin), origin);
}

#[test]
fn the_path_of_a_url_names_a_database() {
    assert_eq!(database_from_url("http://db:8086/sensors?x=/y"), Some("sensors".to_string()));
    assert_eq!(database_from_url("http://db:8086//a/b//"), Some("a/b".to_string()));
    assert_eq!(database_from_url("db/sensors"), Some("sensors".to_string()));
    assert_eq!(database_from_url("http://db:8086///"), None);
    assert_eq!(database_from_url("http://db:8086"), None);
    assert_eq!(database_from_url("http://db?a/b"), None);
}

#[test]
fn url_credentials_are_collected() {
    let mut values = vec!["token".to_string()];
    collect_url_auth("http://user:p:w@db:8086/a@b", &mut values);
    assert_eq!(values, vec!["token", "user", "p", "w"]);
}

#[test]
fn empty_url_credentials_are_passed_over() {
    let mut values: Vec<String> = Vec::new();
    collect_url_auth("http://:pw@db", &mut values);
    assert_eq!(values, vec!["pw"]);
    collect_url_auth("http://db:8086", &mut values);
    collect_url_auth("user:pw@db", &mut values);
    assert_eq!(values, vec!["pw"]);
}

#[test]
fn only_values_that_are_there_are_sensitive() {
    let mut values: Vec<String> = Vec::new();
    push_sensitive(&mut values, None);
    push_sensitive(&mut values, Some(""));
    push_sensitive(&mut values, Some("a"));
    assert_eq!(values, vec!["a"]);
}

#[test]
fn a_url_component_is_percent_encoded() {
    assert_eq!(url_component("aZ09-._~"), "aZ09-._~");
    assert_eq!(url_component("a b/c?d&e"), "a%20b%2Fc%3Fd%26e");
    assert_eq!(url_component("%"), "%25");
    assert_eq!(url_component("\u{e9}\u{1f600}"), "%C3%A9%F0%9F%98%80");
    assert_eq!(url_component(""), "");
}

#[test]
fn different_components_are_written_differently() {
    assert_ne!(url_component("a b"), url_component("a%20b"));
    assert_ne!(url_component("/"), url_component("%2F"));
}
