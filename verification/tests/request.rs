use influxdb_connector::json::Json;
use influxdb_connector::numeral::{parse_u64, to_decimal};
use influxdb_connector::request::{
    bool_value, nested_string, number_value, option_bool, option_string, option_u16,
    request_containers, secret_option, secret_string,
};

fn json(text: &str) -> Json {
    Json::parse(text).unwrap()
}

#[test]
fn options_are_sought_in_eight_places_in_turn() {
    let request = json(
        r#"{
            "profile": {"options": {"a": 1}, "auth": {"a": 2}, "secrets": {"a": 3}},
            "options": {"a": 4}, "auth": {"a": 5}, "secrets": {"a": 6}
        }"#,
    );
    let places = request_containers(&request);
    assert_eq!(places.len(), 8);
    assert_eq!(places[0], &request);
    assert_eq!(places[1], request.get("profile").unwrap());
    assert_eq!(places[2], &json(r#"{"a": 4}"#));
    assert_eq!(places[3], &json(r#"{"a": 5}"#));
    assert_eq!(places[4], &json(r#"{"a": 6}"#));
    assert_eq!(places[5], &json(r#"{"a": 1}"#));
    assert_eq!(places[6], &json(r#"{"a": 2}"#));
    assert_eq!(places[7], &json(r#"{"a": 3}"#));
}

#[test]
fn places_that_are_not_there_are_left_out() {
    assert_eq!(request_containers(&json("3")).len(), 1);
    assert_eq!(request_containers(&json(r#"{"secrets": null}"#)).len(), 2);
}

#[test]
fn what_the_request_itself_holds_goes_first() {
    let request = json(r#"{"options": {"host": "b"}, "profile": {"host": "c"}, "host": "a"}"#);
    assert_eq!(option_string(&request, &["host"]), Some("a".to_string()));
}

#[test]
fn the_place_goes_before_the_name() {
    let request = json(r#"{"hostname": "a", "profile": {"host": "b"}}"#);
    assert_eq!(option_string(&request, &["host", "hostname"]), Some("a".to_string()));
}

#[test]
fn a_blank_text_counts_as_none() {
    let request = json(r#"{"host": "  ", "profile": {"host": " b "}}"#);
    assert_eq!(option_string(&request, &["host"]), Some(" b ".to_string()));
    assert_eq!(option_string(&json(r#"{"host": ""}"#), &["host"]), None);
}

#[test]
fn no_option_is_found_in_what_is_no_object() {
    assert_eq!(option_string(&json(r#"["host"]"#), &["host"]), None);
    assert_eq!(option_string(&json("null"), &["host"]), None);
}

#[test]
fn a_text_may_stand_within_an_object() {
    assert_eq!(nested_string(&json(r#"{"uri": "u", "text": "t"}"#)), Some("t"));
    assert_eq!(nested_string(&json(r#"{"value": 1, "url": "u"}"#)), Some("u"));
    assert_eq!(nested_string(&json(r#"{"value": " ", "text": "t"}"#)), None);
    assert_eq!(nested_string(&json(r#"{"secret": "s"}"#)), None);
    assert_eq!(nested_string(&json("7")), None);
}

#[test]
fn a_secret_may_stand_within_an_object() {
    assert_eq!(secret_string(&json(r#"{"accessToken": "a", "apiKey": "k"}"#)), Some("k"));
    assert_eq!(secret_string(&json(r#"{"password": "p", "secret": "s"}"#)), Some("s"));
    assert_eq!(secret_string(&json(r#"{"text": "t"}"#)), None);
    assert_eq!(secret_string(&json("true")), None);
    let request = json(r#"{"auth": {"token": {"value": "v"}}}"#);
    assert_eq!(secret_option(&request, &["token"]), Some("v".to_string()));
}

#[test]
fn a_number_may_be_given_by_its_numeral() {
    assert_eq!(number_value(&json("8086")), Some(8086));
    assert_eq!(number_value(&json(r#"" 8086 ""#)), Some(8086));
    assert_eq!(number_value(&json(r#"{"value": {"value": "+9"}}"#)), Some(9));
    assert_eq!(number_value(&json("18446744073709551615")), Some(u64::MAX));
    assert_eq!(number_value(&json("-1")), None);
    assert_eq!(number_value(&json("1.0")), None);
    assert_eq!(number_value(&json(r#""1x""#)), None);
    assert_eq!(number_value(&json("[1]")), None);
}

#[test]
fn numerals_denote_the_numbers_they_were_made_of() {
    for n in [0, 7, 10, 8086, 65535, u64::MAX] {
        assert_eq!(parse_u64(&to_decimal(n)), Some(n));
    }
    assert_eq!(to_decimal(1234567890), "1234567890");
    assert_eq!(to_decimal(0), "0");
}

#[test]
fn numerals_that_are_none_are_refused() {
    assert_eq!(parse_u64(""), None);
    assert_eq!(parse_u64("+"), None);
    assert_eq!(parse_u64("-1"), None);
    assert_eq!(parse_u64("18446744073709551616"), None);
    assert_eq!(parse_u64("007"), Some(7));
    assert_eq!(parse_u64("\u{0661}"), None);
}

#[test]
fn a_flag_may_be_given_in_words() {
    for word in ["true", " YES ", "1", "On"] {
        assert_eq!(bool_value(&Json::text(word)), Some(true));
    }
    for word in ["false", "no", "0", "OFF"] {
        assert_eq!(bool_value(&Json::text(word)), Some(false));
    }
    assert_eq!(bool_value(&Json::text("maybe")), None);
    assert_eq!(bool_value(&json("1")), None);
    assert_eq!(bool_value(&json(r#"{"value": {"value": false}}"#)), Some(false));
}

#[test]
fn a_flag_that_cannot_be_read_is_passed_over() {
    let request = json(r#"{"tls": "maybe", "ssl": true}"#);
    assert_eq!(option_bool(&request, &["tls", "ssl"]), Some(true));
    assert_eq!(option_bool(&request, &["useTls"]), None);
}

#[test]
fn a_port_must_fit() {
    assert_eq!(option_u16(&json(r#"{"port": 65535}"#), &["port"]), Some(65535));
    assert_eq!(option_u16(&json(r#"{"port": 65536}"#), &["port"]), None);
}
