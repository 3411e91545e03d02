use influxdb_connector::config::InfluxConfig;
use influxdb_connector::connections::{Connections, InfluxConnection};
use influxdb_connector::driver::{call_json, close, Call, Connector};
use influxdb_connector::json::Json;
use influxdb_connector::response::{state_poisoned, Response};
use influxdb_connector::session::{Admitted, Asking, Greeting, Opening, OpeningStep, Search};
use influxdb_connector::tls::PemFile;

fn json(text: &str) -> Json {
    Json::parse(text).unwrap()
}

fn connector() -> Connector {
    Connector {
        engine: "influxdb".to_string(),
        abi_version: Json::natural(1),
        driver_linked: true,
        manifest_json: r#"{"id": "irodori.influxdb"}"#.to_string(),
        config_json: "not a document".to_string(),
    }
}

fn success(text: &str) -> Response {
    match json(text) {
        Json::Object(fields) => Response::Success(fields),
        _ => panic!("not an object"),
    }
}

fn failure(code: &str, message: &str) -> Response {
    Response::error(code, message)
}

fn code_of(response: Response) -> String {
    match response {
        Response::Failure { code, .. } => code,
        _ => panic!("not a failure"),
    }
}

fn reply(method: &str, request: Option<&Json>) -> Response {
    match call_json(&connector(), method, request) {
        Call::Reply(response) => response,
        _ => panic!("no reply"),
    }
}

fn greeting(id: &str, request: &str) -> Greeting {
    let opening = Opening::begin(id.to_string(), &json(request)).ok().unwrap();
    match opening.advance() {
        OpeningStep::Greet(greeting) => greeting,
        _ => panic!("no client"),
    }
}

fn admitted(id: &str, request: &str, version: Option<&str>) -> Admitted {
    greeting(id, request).answered(204, "204 No Content", "", version).ok().unwrap()
}

fn asking(search: Search, connections: &Connections) -> Asking {
    search.find(connections).ok().unwrap()
}

fn open(request: &str) -> Connections {
    let mut connections = Connections::new();
    admitted("c1", request, None).enter(&mut connections, &connector());
    connections
}

fn select(sql: &str, cap: usize) -> Search {
    Search::query("c1".to_string(), Some(sql), None, None, cap).ok().unwrap()
}

#[test]
fn query_requires_open_connection() {
    let request = json(r#"{"method":"query","connectionId":"missing","sql":"select 1"}"#);
    let method = request.get("method").unwrap().as_str().unwrap();
    let request = match call_json(&connector(), method, Some(&request)) {
        Call::Query(request) => request,
        _ => panic!("no query"),
    };
    let id = request.get("connectionId").unwrap().as_str().unwrap();
    let sql = request.get("sql").unwrap().as_str();
    let search = Search::query(id.to_string(), sql, None, None, 1000).ok().unwrap();
    let response = search.find(&Connections::new()).err().unwrap();
    assert_eq!(code_of(response), "connector.connectionNotFound");
}

#[test]
fn health_and_ping_say_who_answers() {
    let expected = success(r#"{"engine": "influxdb", "abiVersion": 1, "driverLinked": true}"#);
    assert_eq!(reply("health", None), expected);
    assert_eq!(reply("ping", None), expected);
}

#[test]
fn a_description_holds_the_documents_that_can_be_read() {
    let expected = success(
        r#"{"engine": "influxdb", "abiVersion": 1, "driverLinked": true,
            "manifest": {"id": "irodori.influxdb"}, "config": null}"#,
    );
    assert_eq!(reply("describe", None), expected);
    assert_eq!(reply("capabilities", None), expected);
}

#[test]
fn the_documents_are_given_as_they_are() {
    assert_eq!(reply("manifest", None), Response::Raw(connector().manifest_json));
    assert_eq!(reply("config", None), Response::Raw(connector().config_json));
}

#[test]
fn an_unknown_method_is_named() {
    assert_eq!(
        reply("drop", Some(&Json::Null)),
        failure("connector.unknownMethod", "unknown connector method: drop")
    );
}

#[test]
fn methods_on_requests_are_told_apart() {
    let request = json("{}");
    let connector = connector();
    assert!(matches!(call_json(&connector, "connect", Some(&request)), Call::Connect(_)));
    assert!(matches!(call_json(&connector, "query", Some(&request)), Call::Query(_)));
    assert!(matches!(call_json(&connector, "metadata", Some(&request)), Call::Metadata(_)));
    assert!(matches!(call_json(&connector, "close", Some(&request)), Call::Close(_)));
}

#[test]
fn a_request_without_a_usable_configuration_is_invalid() {
    let response = Opening::begin("c1".to_string(), &json(r#"{"language": "flux"}"#)).err();
    assert_eq!(
        response,
        Some(failure(
            "connector.invalidRequest",
            "this native InfluxDB driver currently supports SQL queryType only."
        ))
    );
}

#[test]
fn a_file_that_cannot_be_read_ends_the_opening_without_its_secrets() {
    let request = json(r#"{"host": "db", "sslRootCert": "/s3cret/ca.pem", "token": "s3cret"}"#);
    let opening = Opening::begin("c1".to_string(), &request).ok().unwrap();
    let (mut opening, file) = match opening.advance() {
        OpeningStep::Read { opening, file, path } => {
            assert_eq!(path, "/s3cret/ca.pem");
            (opening, file)
        }
        _ => panic!("no file is asked for"),
    };
    assert_eq!(file, PemFile::RootCert);
    opening.files.record(file, Err("denied".to_string()));
    match opening.advance() {
        OpeningStep::Refused(response) => assert_eq!(
            response,
            failure(
                "connector.invalidRequest",
                "SSL root certificate at /****/ca.pem could not be read: denied"
            )
        ),
        _ => panic!("not refused"),
    }
}

#[test]
fn a_server_that_is_not_reached_fails_the_connection() {
    let request = r#"{"host": "db", "token": "t0k"}"#;
    assert_eq!(
        greeting("c1", request).unsent("error for http://db:8086/ping with t0k"),
        failure(
            "connector.connectFailed",
            "InfluxDB ping failed: error for <influxdb-url>/ping with ****"
        )
    );
    assert_eq!(
        greeting("c1", request).no_runtime("create tokio runtime failed.".to_string()),
        failure("connector.connectFailed", "create tokio runtime failed.")
    );
    assert_eq!(
        greeting("c1", request).answered(401, "401 Unauthorized", "bad t0k", None).err(),
        Some(failure(
            "connector.connectFailed",
            "InfluxDB ping returned HTTP 401 Unauthorized: bad ****"
        ))
    );
}

#[test]
fn a_new_connection_is_described() {
    let mut connections = Connections::new();
    let request = r#"{"host": "db", "database": "sensors"}"#;
    assert_eq!(
        admitted("c1", request, Some("3.1")).enter(&mut connections, &connector()),
        success(
            r#"{"connectionId": "c1", "database": "sensors", "driverLinked": true,
                "endpoint": "http://db:8086", "engine": "influxdb",
                "serverVersion": "InfluxDB 3.1"}"#
        )
    );
    assert_eq!(
        admitted("c2", request, None).enter(&mut connections, &connector()),
        success(
            r#"{"connectionId": "c2", "database": "sensors", "driverLinked": true,
                "endpoint": "http://db:8086", "engine": "influxdb"}"#
        )
    );
    assert!(connections.connection("c1").is_ok());
    assert!(connections.connection("c2").is_ok());
}

#[test]
fn a_connection_is_found_until_it_is_closed() {
    let mut connections = open(r#"{"host": "a"}"#);
    admitted("c2", r#"{"host": "b"}"#, None).enter(&mut connections, &connector());
    assert_eq!(
        close(&mut connections, "c1"),
        success(r#"{"closed": true, "connectionId": "c1"}"#)
    );
    assert_eq!(
        connections.connection("c1").err(),
        Some(failure("connector.connectionNotFound", "no open connection: c1"))
    );
    assert_eq!(connections.connection("c2").ok().unwrap().config.base_url, "http://b:8086");
    assert_eq!(
        close(&mut connections, "c1"),
        success(r#"{"closed": false, "connectionId": "c1"}"#)
    );
}

#[test]
fn a_second_connection_of_the_name_takes_its_place() {
    let mut connections = open(r#"{"host": "a"}"#);
    admitted("c1", r#"{"host": "b"}"#, None).enter(&mut connections, &connector());
    assert_eq!(connections.connection("c1").ok().unwrap().config.base_url, "http://b:8086");
    assert!(connections.remove("c1"));
    assert!(!connections.remove("c1"));
}

#[test]
fn a_query_takes_the_first_statement_given() {
    let connections = open("{}");
    let pick = |sql, query, statement| {
        Search::query("c1".to_string(), sql, query, statement, 5)
            .map(|search| asking(search, &connections).payload().to_text())
            .ok()
    };
    let posted = |sql: &str| Some(format!(r#"{{"query":"{sql}","type":"sql"}}"#));
    assert_eq!(pick(Some("a"), Some("b"), Some("c")), posted("a"));
    assert_eq!(pick(None, Some("b"), Some("c")), posted("b"));
    assert_eq!(pick(None, None, Some("c")), posted("c"));
    assert_eq!(
        Search::query("c1".to_string(), None, None, None, 5).err(),
        Some(failure(
            "connector.invalidRequest",
            "query requires a string sql, query, or statement field."
        ))
    );
}

#[test]
fn a_query_is_answered_with_a_table() {
    let connections = open("{}");
    let response = asking(select("select", 1), &connections).answered(
        200,
        "200 OK",
        r#"[{"b": 1, "a": "x"}, {"a": "y"}]"#,
    );
    assert_eq!(
        response,
        success(
            r#"{"connectionId": "c1", "columns": ["a", "b"], "rows": [["x", 1]],
                "truncated": true}"#
        )
    );
}

#[test]
fn a_query_that_fails_shows_no_secret() {
    let connections = open(r#"{"host": "db", "token": "t0k"}"#);
    assert_eq!(
        asking(select("x", 1), &connections).unsent("to http://db:8086 with t0k"),
        failure(
            "connector.queryFailed",
            "InfluxDB query request failed: to <influxdb-url> with ****"
        )
    );
    assert_eq!(
        asking(select("x", 1), &connections).unread("eof"),
        failure("connector.queryFailed", "InfluxDB response read failed: eof")
    );
    assert_eq!(
        asking(select("x", 1), &connections).answered(400, "400 Bad Request", " t0k? "),
        failure("connector.queryFailed", "InfluxDB query returned HTTP 400 Bad Request: ****?")
    );
    assert_eq!(
        asking(select("x", 1), &connections).no_runtime("none".to_string()),
        failure("connector.queryFailed", "none")
    );
}

#[test]
fn metadata_is_answered_with_a_description() {
    let connections = open(r#"{"database": "db"}"#);
    let search = || Search::metadata("c1".to_string());
    let answer = r#"[{"table_name": "cpu", "column_name": "time", "data_type": "timestamp"}]"#;
    assert_eq!(
        asking(search(), &connections).answered(200, "200 OK", answer),
        success(
            r#"{"connectionId": "c1", "metadata": {"schemas": [{"name": "db", "objects": [
                {"schema": "db", "name": "cpu", "kind": "table", "indexes": [],
                 "primaryKey": [], "foreignKeys": [],
                 "columns": [{"name": "time", "dataType": "timestamp", "nullable": true,
                              "ordinal": 1}]}]}]}}"#
        )
    );
    let bare = success(
        r#"{"connectionId": "c1", "metadata": {"schemas": [{"name": "db", "objects": []}]}}"#,
    );
    assert_eq!(asking(search(), &connections).answered(500, "500", "no"), bare);
    assert_eq!(asking(search(), &connections).unsent("no"), bare);
    assert_eq!(
        asking(search(), &connections).no_runtime("none".to_string()),
        failure("connector.metadataFailed", "none")
    );
    assert_eq!(
        asking(search(), &connections).payload().get("type"),
        Some(&Json::text("sql"))
    );
}

#[test]
fn a_lost_state_is_reported() {
    assert_eq!(
        state_poisoned(),
        failure("connector.statePoisoned", "Connector connection state is poisoned.")
    );
}

#[test]
fn a_connection_says_what_it_is() {
    let connection: InfluxConnection = open("{}").connection("c1").ok().unwrap();
    let fields = connection.connect_response(&connector(), "x");
    assert_eq!(fields.len(), 5);
    assert_eq!(fields[0], ("connectionId".to_string(), Json::text("x")));
    assert_eq!(connection.config, InfluxConfig::from_request(&json("{}")).unwrap());
}
