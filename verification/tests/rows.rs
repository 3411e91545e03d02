use influxdb_connector::config::InfluxConfig;
use influxdb_connector::exchange::{
    load_metadata, metadata_query, ping_outcome, query_outcome, status_is_success,
};
use influxdb_connector::json::Json;
use influxdb_connector::metadata::{metadata_from_columns, string_cell};
use influxdb_connector::order::{order_of, Order};
use influxdb_connector::rows::{
    document_lines, influx_response_to_output, parse_rows, rows_of_document, rows_of_lines,
    rows_to_output,
};

fn json(text: &str) -> Json {
    Json::parse(text).unwrap()
}

fn strings(list: &[&str]) -> Vec<String> {
    list.iter().map(|s| s.to_string()).collect()
}

fn at(value: &Json, index: usize) -> &Json {
    match value {
        Json::Array(items) => &items[index],
        _ => panic!("not an array"),
    }
}

#[test]
fn json_rows_shape_query_output() {
    let text = r#"[{"time":"2026-01-01T00:00:00Z","value":1.5},{"time":"2026-01-01T00:01:00Z","value":2.0}]"#;
    let (columns, rows, truncated) = influx_response_to_output(text, 1);
    assert_eq!(columns, vec!["time", "value"]);
    assert_eq!(rows, vec![vec![json(r#""2026-01-01T00:00:00Z""#), json("1.5")]]);
    assert!(truncated);
}

#[test]
fn ndjson_rows_shape_query_output() {
    let text = "{\"series\":\"cpu\",\"value\":1}\n{\"series\":\"mem\",\"value\":2}\n";
    let (columns, rows, truncated) = influx_response_to_output(text, 10);
    assert_eq!(columns, vec!["series", "value"]);
    assert_eq!(
        rows,
        vec![vec![json(r#""cpu""#), json("1")], vec![json(r#""mem""#), json("2")]]
    );
    assert!(!truncated);
}

#[test]
fn metadata_groups_information_schema_columns() {
    let columns = vec![
        "table_name".to_string(),
        "column_name".to_string(),
        "data_type".to_string(),
    ];
    let rows = vec![
        vec![json(r#""cpu""#), json(r#""time""#), json(r#""timestamp""#)],
        vec![json(r#""cpu""#), json(r#""usage""#), json(r#""float64""#)],
    ];
    let metadata = metadata_from_columns("sensors", &columns, rows);
    let schema = at(metadata.get("schemas").unwrap(), 0);
    let object = at(schema.get("objects").unwrap(), 0);
    assert_eq!(object.get("schema"), Some(&Json::text("sensors")));
    assert_eq!(object.get("name"), Some(&Json::text("cpu")));
    let column = at(object.get("columns").unwrap(), 1);
    assert_eq!(column.get("dataType"), Some(&Json::text("float64")));
}

#[test]
fn an_empty_response_has_no_rows() {
    assert_eq!(influx_response_to_output(" \n ", 5), (vec![], vec![], false));
    assert_eq!(influx_response_to_output("[]", 5), (vec![], vec![], false));
}

#[test]
fn the_data_of_an_object_are_its_rows() {
    assert_eq!(parse_rows(r#" {"data": [1, 2], "x": 3} "#), vec![json("1"), json("2")]);
    assert_eq!(parse_rows(r#"{"data": 7}"#), vec![json(r#"{"data": 7}"#)]);
    assert_eq!(parse_rows(r#"{"rows": [1]}"#), vec![json(r#"{"rows": [1]}"#)]);
    assert_eq!(rows_of_document(json("null")), vec![Json::Null]);
}

#[test]
fn lines_that_are_no_documents_are_passed_over() {
    assert_eq!(parse_rows("{\"a\":1}\r\n\n  oops\n [2] \n"), vec![
        json(r#"{"a":1}"#),
        json("[2]"),
    ]);
    assert_eq!(parse_rows("oops"), Vec::<Json>::new());
}

#[test]
fn the_lines_of_a_response_are_trimmed() {
    assert_eq!(document_lines(" a \r\n\n\tb\n  \nc"), vec!["a", "b", "c"]);
    assert_eq!(document_lines("\n"), Vec::<String>::new());
}

#[test]
fn the_documents_of_lines_keep_their_order() {
    assert_eq!(
        rows_of_lines(vec![None, Some(json("2")), None, Some(json("1"))]),
        vec![json("2"), json("1")]
    );
}

#[test]
fn columns_are_the_keys_of_all_rows_each_once() {
    let rows = vec![json(r#"{"b": 1}"#), json("5"), json(r#"{"c": 2, "a": 3, "b": 4}"#)];
    let (columns, rows, truncated) = rows_to_output(rows, 2);
    assert_eq!(columns, vec!["b", "a", "c"]);
    assert_eq!(rows, vec![vec![json("1"), Json::Null, Json::Null], vec![json("5")]]);
    assert!(truncated);
}

#[test]
fn rows_without_keys_have_one_column() {
    assert_eq!(
        influx_response_to_output("[1, [2]]", 9),
        (strings(&["value"]), vec![vec![json("1")], vec![json("[2]")]], false)
    );
    assert_eq!(
        influx_response_to_output("[{}]", 9),
        (strings(&["value"]), vec![vec![]], false)
    );
}

#[test]
fn a_cap_of_none_leaves_the_columns() {
    assert_eq!(influx_response_to_output(r#"[{"a": 1}]"#, 0), (strings(&["a"]), vec![], true));
}

#[test]
fn a_larger_cap_shows_more_of_the_same_rows() {
    let text = r#"[{"a": 1}, {"a": 2}, {"b": 3}]"#;
    let (few_columns, few, _) = influx_response_to_output(text, 1);
    let (columns, all, truncated) = influx_response_to_output(text, 3);
    assert_eq!(few_columns, columns);
    assert_eq!(few[..], all[..1]);
    assert!(!truncated);
}

#[test]
fn tables_come_in_order_with_their_columns_counted() {
    let columns = strings(&["data_type", "table_name", "column_name"]);
    let rows = vec![
        vec![json(r#""t1""#), json(r#""mem""#), json(r#""time""#)],
        vec![json(r#""t2""#), json(r#""cpu""#), json(r#""time""#)],
        vec![json("12"), json(r#""mem""#), json("true")],
        vec![json(r#""t3""#), json(r#""""#), json(r#""lost""#)],
        vec![json(r#""t4""#), json(r#""cpu""#)],
    ];
    let expected = json(
        r#"{"schemas": [{"name": "db", "objects": [
            {"schema": "db", "name": "cpu", "kind": "table", "indexes": [], "primaryKey": [],
             "foreignKeys": [],
             "columns": [{"name": "time", "dataType": "t2", "nullable": true, "ordinal": 1}]},
            {"schema": "db", "name": "mem", "kind": "table", "indexes": [], "primaryKey": [],
             "foreignKeys": [],
             "columns": [{"name": "time", "dataType": "t1", "nullable": true, "ordinal": 1},
                         {"name": "true", "dataType": "12", "nullable": true, "ordinal": 2}]}
        ]}]}"#,
    );
    let metadata = metadata_from_columns("db", &columns, rows);
    assert_eq!(metadata, expected);
    assert_eq!(Json::from_value(metadata.to_value()), metadata);
}

#[test]
fn without_the_three_columns_there_are_no_tables() {
    let expected = json(r#"{"schemas": [{"name": "db", "objects": []}]}"#);
    let rows = vec![vec![json(r#""a""#), json(r#""b""#)]];
    let columns = strings(&["table_name", "column_name"]);
    assert_eq!(metadata_from_columns("db", &columns, rows), expected);
}

#[test]
fn a_cell_is_read_as_text() {
    let row = vec![
        json(r#""\"quoted\"""#),
        json("1.5"),
        Json::Null,
        json(r#"{"b": [true], "a": "x"}"#),
        json("42"),
        json("false"),
    ];
    assert_eq!(string_cell(&row, 0), "\"quoted\"");
    assert_eq!(string_cell(&row, 1), "1.5");
    assert_eq!(string_cell(&row, 2), "null");
    assert_eq!(string_cell(&row, 3), r#"{"a":"x","b":[true]}"#);
    assert_eq!(string_cell(&row, 4), "42");
    assert_eq!(string_cell(&row, 5), "false");
    assert_eq!(string_cell(&row, 6), "");
}

#[test]
fn texts_are_ordered_by_their_characters() {
    assert!(order_of("cpu", "mem") == Order::Before);
    assert!(order_of("cpu", "cpu") == Order::Same);
    assert!(order_of("cpus", "cpu") == Order::After);
    assert!(order_of("", "a") == Order::Before);
    assert!(order_of("Z", "a") == Order::Before);
    assert!(order_of("\u{ffff}", "\u{1f600}") == Order::Before);
}

#[test]
fn objects_hold_their_keys_in_order() {
    assert_eq!(
        json(r#"{"b": 1, "a": 2, "b": 3}"#),
        Json::Object(vec![
            ("a".to_string(), Json::natural(2)),
            ("b".to_string(), Json::natural(3)),
        ])
    );
    assert_eq!(Json::parse("{"), None);
    assert_eq!(Json::parse(""), None);
}

#[test]
fn a_document_is_printed_compactly() {
    let text = r#"{"a":[1,2.5,null,true,"x\ny"],"b":{}}"#;
    assert_eq!(json(text).to_text(), text);
    assert_eq!(Json::natural(10).to_text(), "10");
    assert_eq!(Json::flag(true).to_text(), "true");
    assert_eq!(Json::flag(false).to_text(), "false");
    assert_eq!(Json::Null.to_text(), "null");
    assert_eq!(json(text).clone(), json(text));
}

#[test]
fn a_status_of_the_two_hundreds_is_success() {
    assert!(status_is_success(200) && status_is_success(204) && status_is_success(299));
    assert!(!status_is_success(199) && !status_is_success(300) && !status_is_success(404));
}

#[test]
fn a_greeting_names_the_version() {
    assert_eq!(
        ping_outcome(204, "204 No Content", "", Some("3.0.1")),
        Ok(Some("InfluxDB 3.0.1".to_string()))
    );
    assert_eq!(ping_outcome(200, "200 OK", "", Some("")), Ok(None));
    assert_eq!(ping_outcome(200, "200 OK", "", None), Ok(None));
    assert_eq!(
        ping_outcome(401, "401 Unauthorized", "who?", Some("3")),
        Err("InfluxDB ping returned HTTP 401 Unauthorized: who?".to_string())
    );
}

#[test]
fn a_refused_query_shows_the_start_of_the_answer() {
    let long = format!("  {}tail ", "\u{e9}".repeat(500));
    assert_eq!(
        query_outcome(500, "500 Internal Server Error", &long, 3),
        Err(format!(
            "InfluxDB query returned HTTP 500 Internal Server Error: {}",
            "\u{e9}".repeat(500)
        ))
    );
    assert_eq!(
        query_outcome(200, "200 OK", "[1]", 3),
        Ok((strings(&["value"]), vec![vec![json("1")]], false))
    );
}

#[test]
fn metadata_that_cannot_be_had_has_no_tables() {
    let config = InfluxConfig::from_request(&json(r#"{"db": "sensors"}"#)).unwrap();
    assert_eq!(
        load_metadata(&config, Err("refused".to_string())),
        json(r#"{"schemas": [{"name": "sensors", "objects": []}]}"#)
    );
}

#[test]
fn metadata_is_asked_of_the_information_schema() {
    assert_eq!(
        metadata_query(),
        "SELECT table_name, column_name, data_type \
         FROM information_schema.columns \
         WHERE table_schema = 'public' \
         ORDER BY table_name, ordinal_position"
    );
}
