//! The calls that the connector answers, and the course of each.

use vstd::prelude::*;
use vstd::string::StringExecFns;

use crate::codec::json_document;
use crate::config::{config_asked, redacted, ConfigModel, InfluxConfig};
use crate::connections::{ConnectionModel, Connections, InfluxConnection};
use crate::exchange::{answer_result, outcome_valid};
use crate::json::{
    entry, entry_models, models, opt_document, opt_model, row_models, valid, Json, JsonModel,
};
use crate::response::{well_formed, Response, ResponseModel};
use crate::rows::{OutputModel, QueryOutput};
use crate::shape::{
    lemma_close_answer_valid, lemma_connect_answer_valid, lemma_metadata_answer_valid,
    lemma_query_answer_valid, lemma_self_description_valid,
};
use crate::text::{opt_str, opt_string, same, views};

verus! {

/// What the connector says of itself.
pub struct Connector {
    pub engine: String,
    pub abi_version: Json,
    pub driver_linked: bool,
    /// The manifest, as a JSON document.
    pub manifest_json: String,
    /// The configuration, as a JSON document.
    pub config_json: String,
}

/// What a [`Connector`] holds.
#[verifier::ext_equal]
pub struct ConnectorModel {
    pub engine: Seq<char>,
    pub abi_version: JsonModel,
    pub driver_linked: bool,
    pub manifest_json: Seq<char>,
    pub config_json: Seq<char>,
}

impl View for Connector {
    type V = ConnectorModel;

    open spec fn view(&self) -> ConnectorModel {
        ConnectorModel {
            engine: self.engine@,
            abi_version: self.abi_version@,
            driver_linked: self.driver_linked,
            manifest_json: self.manifest_json@,
            config_json: self.config_json@,
        }
    }
}

/// What a call comes to: an answer, or one of the operations on its request.
pub enum Call<'a> {
    Reply(Response),
    Connect(&'a Json),
    Query(&'a Json),
    Metadata(&'a Json),
    Close(&'a Json),
}

/// What a [`Call`] holds.
#[verifier::ext_equal]
pub enum CallModel {
    Reply(ResponseModel),
    Connect(JsonModel),
    Query(JsonModel),
    Metadata(JsonModel),
    Close(JsonModel),
}

impl<'a> View for Call<'a> {
    type V = CallModel;

    open spec fn view(&self) -> CallModel {
        match self {
            Call::Reply(response) => CallModel::Reply(response@),
            Call::Connect(request) => CallModel::Connect(request@),
            Call::Query(request) => CallModel::Query(request@),
            Call::Metadata(request) => CallModel::Metadata(request@),
            Call::Close(request) => CallModel::Close(request@),
        }
    }
}

/// The methods that work on a request.
pub open spec fn works_on_request(method: Seq<char>) -> bool {
    method == "connect"@ || method == "query"@ || method == "metadata"@ || method == "close"@
}

/// The answer to `health` and `ping`.
pub open spec fn health(connector: ConnectorModel) -> ResponseModel {
    ResponseModel::Success(
        seq![
            ("abiVersion"@, connector.abi_version),
            ("driverLinked"@, JsonModel::Bool(connector.driver_linked)),
            ("engine"@, JsonModel::String(connector.engine)),
        ],
    )
}

/// The document, or null where there is none.
pub open spec fn or_null(document: Option<JsonModel>) -> JsonModel {
    match document {
        Some(m) => m,
        None => JsonModel::Null,
    }
}

/// The answer to `describe` and `capabilities`.
pub open spec fn description(
    connector: ConnectorModel,
    manifest: Option<JsonModel>,
    config: Option<JsonModel>,
) -> ResponseModel {
    ResponseModel::Success(
        seq![
            ("abiVersion"@, connector.abi_version),
            ("config"@, or_null(config)),
            ("driverLinked"@, JsonModel::Bool(connector.driver_linked)),
            ("engine"@, JsonModel::String(connector.engine)),
            ("manifest"@, or_null(manifest)),
        ],
    )
}

/// The answer to a method that there is not.
pub open spec fn unknown_method(method: Seq<char>) -> ResponseModel {
    ResponseModel::Failure {
        code: "connector.unknownMethod"@,
        message: "unknown connector method: "@ + method,
    }
}

/// What a call comes to.
pub open spec fn call_of(
    connector: ConnectorModel,
    method: Seq<char>,
    request: Option<JsonModel>,
) -> CallModel {
    if method == "health"@ || method == "ping"@ {
        CallModel::Reply(health(connector))
    } else if method == "describe"@ || method == "capabilities"@ {
        CallModel::Reply(
            description(
                connector,
                json_document(connector.manifest_json),
                json_document(connector.config_json),
            ),
        )
    } else if method == "manifest"@ {
        CallModel::Reply(ResponseModel::Raw(connector.manifest_json))
    } else if method == "config"@ {
        CallModel::Reply(ResponseModel::Raw(connector.config_json))
    } else if method == "connect"@ {
        CallModel::Connect(request->0)
    } else if method == "query"@ {
        CallModel::Query(request->0)
    } else if method == "metadata"@ {
        CallModel::Metadata(request->0)
    } else if method == "close"@ {
        CallModel::Close(request->0)
    } else {
        CallModel::Reply(unknown_method(method))
    }
}

fn document_or_null(document: Option<Json>) -> (json: Json)
    ensures
        json@ == or_null(opt_document(document)),
{
    match document {
        Some(json) => json,
        None => Json::Null,
    }
}

/// The answer to `describe` and `capabilities`, given the two documents where they could be read.
pub fn describe(connector: &Connector, manifest: Option<Json>, config: Option<Json>) -> (response:
    Response)
    ensures
        response@ == description(connector@, opt_document(manifest), opt_document(config)),
        valid(connector@.abi_version) && valid(or_null(opt_document(manifest))) && valid(
            or_null(opt_document(config)),
        ) ==> well_formed(response@),
{
    proof {
        lemma_self_description_valid(connector@, opt_document(manifest), opt_document(config));
    }
    let ghost model = description(connector@, opt_document(manifest), opt_document(config));
    let fields = vec![
        entry("abiVersion", connector.abi_version.clone()),
        entry("config", document_or_null(config)),
        entry("driverLinked", Json::flag(connector.driver_linked)),
        entry("engine", Json::text(connector.engine.as_str())),
        entry("manifest", document_or_null(manifest)),
    ];
    proof {
        assert(entry_models(fields@) =~= model->Success_0);
    }
    Response::Success(fields)
}

/// What a call of `method` with a request comes to.
pub fn call_json<'a>(connector: &Connector, method: &str, request: Option<&'a Json>) -> (call: Call<
    'a,
>)
    requires
        works_on_request(method@) ==> request is Some,
    ensures
        call@ == call_of(connector@, method@, opt_model(request)),
        valid(connector@.abi_version) ==> (call matches Call::Reply(r) ==> well_formed(r@)),
{
    if same(method, "health") || same(method, "ping") {
        let fields = vec![
            entry("abiVersion", connector.abi_version.clone()),
            entry("driverLinked", Json::flag(connector.driver_linked)),
            entry("engine", Json::text(connector.engine.as_str())),
        ];
        proof {
            assert(entry_models(fields@) =~= health(connector@)->Success_0);
            lemma_self_description_valid(connector@, None, None);
        }
        return Call::Reply(Response::Success(fields));
    }
    if same(method, "describe") || same(method, "capabilities") {
        let manifest = Json::parse(connector.manifest_json.as_str());
        let config = Json::parse(connector.config_json.as_str());
        return Call::Reply(describe(connector, manifest, config));
    }
    if same(method, "manifest") {
        return Call::Reply(Response::Raw(connector.manifest_json.clone()));
    }
    if same(method, "config") {
        return Call::Reply(Response::Raw(connector.config_json.clone()));
    }
    if let Some(request) = request {
        if same(method, "connect") {
            return Call::Connect(request);
        }
        if same(method, "query") {
            return Call::Query(request);
        }
        if same(method, "metadata") {
            return Call::Metadata(request);
        }
        if same(method, "close") {
            return Call::Close(request);
        }
    }
    let message = "unknown connector method: ".to_string().concat(method);
    Call::Reply(Response::error("connector.unknownMethod", message.as_str()))
}

/// A request that cannot be met as it stands.
pub open spec fn invalid_request(message: Seq<char>) -> ResponseModel {
    ResponseModel::Failure { code: "connector.invalidRequest"@, message }
}

/// The first step of `connect`: the configuration, or the answer where there is none.
pub fn connect(request: &Json) -> (config: Result<InfluxConfig, Response>)
    ensures
        match config_asked(request@) {
            Ok(model) => config matches Ok(c) && c@ == model,
            Err(message) => config matches Err(r) && r@ == invalid_request(message),
        },
{
    match InfluxConfig::from_request(request) {
        Ok(config) => Ok(config),
        Err(err) => Err(Response::error("connector.invalidRequest", err.as_str())),
    }
}

/// The second step of `connect`: the connection, or the answer where no client could be built.
pub fn connect_client(config: InfluxConfig, client: Result<reqwest::Client, String>) -> (connection:
    Result<InfluxConnection, Response>)
    ensures
        match client {
            Ok(client) => connection matches Ok(c) && c@ == (ConnectionModel {
                client,
                config: config@,
            }),
            Err(err) => connection matches Err(r) && r@ == invalid_request(
                redacted(config@, err@),
            ),
        },
{
    match client {
        Ok(client) => Ok(InfluxConnection { client, config }),
        Err(err) => {
            let message = config.redact(err.as_str());
            Err(Response::error("connector.invalidRequest", message.as_str()))
        },
    }
}

/// A server that could not be greeted.
pub open spec fn connect_failed(config: ConfigModel, err: Seq<char>) -> ResponseModel {
    ResponseModel::Failure { code: "connector.connectFailed"@, message: redacted(config, err) }
}

/// The third step of `connect`: the server's version, or the answer where it was not greeted.
pub fn connect_greeted(connection: &InfluxConnection, greeting: Result<Option<String>, String>) -> (
version: Result<Option<String>, Response>)
    ensures
        match greeting {
            Ok(named) => version matches Ok(v) && v == named,
            Err(err) => version matches Err(r) && r@ == connect_failed(
                connection@.config,
                err@,
            ),
        },
{
    match greeting {
        Ok(version) => Ok(version),
        Err(err) => {
            let message = connection.config.redact(err.as_str());
            Err(Response::error("connector.connectFailed", message.as_str()))
        },
    }
}

/// What is said of a new connection.
pub open spec fn connection_fields(
    connector: ConnectorModel,
    id: Seq<char>,
    config: ConfigModel,
) -> Seq<(Seq<char>, JsonModel)> {
    seq![
        ("connectionId"@, JsonModel::String(id)),
        ("database"@, JsonModel::String(config.database)),
        ("driverLinked"@, JsonModel::Bool(connector.driver_linked)),
        ("endpoint"@, JsonModel::String(config.base_url)),
        ("engine"@, JsonModel::String(connector.engine)),
    ]
}

/// The answer to a `connect` that succeeded.
pub open spec fn connect_answer(
    connector: ConnectorModel,
    id: Seq<char>,
    config: ConfigModel,
    version: Option<Seq<char>>,
) -> ResponseModel {
    let fields = connection_fields(connector, id, config);
    ResponseModel::Success(
        match version {
            Some(v) => fields.push(("serverVersion"@, JsonModel::String(v))),
            None => fields,
        },
    )
}

impl InfluxConnection {
    /// What is said of a new connection.
    pub fn connect_response(&self, connector: &Connector, connection_id: &str) -> (fields: Vec<
        (String, Json),
    >)
        ensures
            entry_models(fields@) == connection_fields(
                connector@,
                connection_id@,
                self@.config,
            ),
    {
        let fields = vec![
            entry("connectionId", Json::text(connection_id)),
            entry("database", Json::text(self.config.database.as_str())),
            entry("driverLinked", Json::flag(connector.driver_linked)),
            entry("endpoint", Json::text(self.config.base_url.as_str())),
            entry("engine", Json::text(connector.engine.as_str())),
        ];
        proof {
            assert(entry_models(fields@) =~= connection_fields(
                connector@,
                connection_id@,
                self@.config,
            ));
        }
        fields
    }
}

/// The last step of `connect`: opens the connection under its name and answers.
pub fn connected(
    connections: &mut Connections,
    connector: &Connector,
    connection_id: String,
    connection: InfluxConnection,
    version: Option<String>,
) -> (response: Response)
    requires
        old(connections).wf(),
    ensures
        final(connections).wf(),
        final(connections)@ == old(connections)@.insert(connection_id@, connection@),
        response@ == connect_answer(
            connector@,
            connection_id@,
            connection@.config,
            opt_string(version),
        ),
        well_formed(response@),
{
    proof {
        lemma_connect_answer_valid(
            connector@,
            connection_id@,
            connection@.config,
            opt_string(version),
        );
    }
    let mut fields = connection.connect_response(connector, connection_id.as_str());
    let ghost plain = fields@;
    if let Some(version) = version {
        fields.push(entry("serverVersion", Json::text(version.as_str())));
        proof {
            assert(entry_models(fields@) =~= entry_models(plain).push(
                ("serverVersion"@, JsonModel::String(version@)),
            ));
        }
    }
    connections.insert(connection_id, connection);
    Response::Success(fields)
}

/// The statement of a query: of its three names, the first that is given.
pub open spec fn statement_given(
    sql: Option<Seq<char>>,
    query: Option<Seq<char>>,
    statement: Option<Seq<char>>,
) -> Option<Seq<char>> {
    if sql is Some {
        sql
    } else if query is Some {
        query
    } else {
        statement
    }
}

/// The first step of `query`: the statement, or the answer where none is given.
pub fn query_statement<'a>(
    sql: Option<&'a str>,
    query: Option<&'a str>,
    statement: Option<&'a str>,
) -> (chosen: Result<&'a str, Response>)
    ensures
        match statement_given(opt_str(sql), opt_str(query), opt_str(statement)) {
            Some(text) => chosen matches Ok(s) && s@ == text,
            None => chosen matches Err(r) && r@ == invalid_request(
                "query requires a string sql, query, or statement field."@,
            ),
        },
{
    let chosen = match (sql, query, statement) {
        (Some(s), _, _) => Some(s),
        (None, Some(s), _) => Some(s),
        (None, None, s) => s,
    };
    match chosen {
        Some(s) => Ok(s),
        None => Err(
            Response::error(
                "connector.invalidRequest",
                "query requires a string sql, query, or statement field.",
            ),
        ),
    }
}

/// The texts as JSON strings.
pub open spec fn json_strings(list: Seq<Seq<char>>) -> Seq<JsonModel> {
    list.map_values(|s: Seq<char>| JsonModel::String(s))
}

/// The rows as JSON arrays.
pub open spec fn json_rows(rows: Seq<Seq<JsonModel>>) -> Seq<JsonModel> {
    rows.map_values(|row: Seq<JsonModel>| JsonModel::Array(row))
}

/// The answer to a query.
pub open spec fn query_answer(
    id: Seq<char>,
    config: ConfigModel,
    outcome: Result<OutputModel, Seq<char>>,
) -> ResponseModel {
    match outcome {
        Ok(output) => ResponseModel::Success(
            seq![
                ("columns"@, JsonModel::Array(json_strings(output.columns))),
                ("connectionId"@, JsonModel::String(id)),
                ("rows"@, JsonModel::Array(json_rows(output.rows))),
                ("truncated"@, JsonModel::Bool(output.truncated)),
            ],
        ),
        Err(err) => ResponseModel::Failure {
            code: "connector.queryFailed"@,
            message: redacted(config, err),
        },
    }
}

fn string_list(list: Vec<String>) -> (json: Json)
    ensures
        json@ == JsonModel::Array(json_strings(views(list@))),
{
    let mut items: Vec<Json> = Vec::new();
    let mut i: usize = 0;
    while i < list.len()
        invariant
            i <= list@.len(),
            items@.len() == i,
            forall|k: int|
                0 <= k < i ==> (#[trigger] items@[k])@ == JsonModel::String(list@[k]@),
        decreases list@.len() - i,
    {
        items.push(Json::text(list[i].as_str()));
        i = i + 1;
    }
    proof {
        assert(models(items@) =~= json_strings(views(list@)));
    }
    Json::array(items)
}

fn row_list(rows: Vec<Vec<Json>>) -> (json: Json)
    ensures
        json@ == JsonModel::Array(json_rows(row_models(rows@))),
{
    let ghost given = rows@;
    let mut items: Vec<Json> = Vec::new();
    for row in it: rows.into_iter()
        invariant
            it.seq() == given,
            items@.len() == it.index(),
            forall|k: int|
                0 <= k < it.index() ==> (#[trigger] items@[k])@ == JsonModel::Array(
                    models(given[k]@),
                ),
    {
        items.push(Json::array(row));
    }
    proof {
        assert(models(items@) =~= json_rows(row_models(given)));
    }
    Json::array(items)
}

/// The last step of `query`: the answer, given the outcome.
pub fn query(
    connection_id: &str,
    connection: &InfluxConnection,
    outcome: Result<QueryOutput, String>,
) -> (response: Response)
    ensures
        response@ == query_answer(connection_id@, connection@.config, answer_result(outcome)),
        outcome_valid(outcome) ==> well_formed(response@),
{
    proof {
        lemma_query_answer_valid(connection_id@, connection@.config, answer_result(outcome));
    }
    let ghost model = query_answer(connection_id@, connection@.config, answer_result(outcome));
    match outcome {
        Ok((columns, rows, truncated)) => {
            let fields = vec![
                entry("columns", string_list(columns)),
                entry("connectionId", Json::text(connection_id)),
                entry("rows", row_list(rows)),
                entry("truncated", Json::flag(truncated)),
            ];
            proof {
                assert(entry_models(fields@) =~= model->Success_0);
            }
            Response::Success(fields)
        },
        Err(err) => {
            let message = connection.config.redact(err.as_str());
            Response::error("connector.queryFailed", message.as_str())
        },
    }
}

/// The answer to `metadata`.
pub open spec fn metadata_answer(
    id: Seq<char>,
    config: ConfigModel,
    outcome: Result<JsonModel, Seq<char>>,
) -> ResponseModel {
    match outcome {
        Ok(metadata) => ResponseModel::Success(
            seq![("connectionId"@, JsonModel::String(id)), ("metadata"@, metadata)],
        ),
        Err(err) => ResponseModel::Failure {
            code: "connector.metadataFailed"@,
            message: redacted(config, err),
        },
    }
}

/// The view of a description that was made or not.
pub open spec fn metadata_result(outcome: Result<Json, String>) -> Result<JsonModel, Seq<char>> {
    match outcome {
        Ok(json) => Ok(json@),
        Err(err) => Err(err@),
    }
}

/// The last step of `metadata`: the answer, given the description of the database.
pub fn metadata(
    connection_id: &str,
    connection: &InfluxConnection,
    outcome: Result<Json, String>,
) -> (response: Response)
    ensures
        response@ == metadata_answer(
            connection_id@,
            connection@.config,
            metadata_result(outcome),
        ),
        (outcome matches Ok(metadata) ==> valid(metadata@)) ==> well_formed(response@),
{
    proof {
        lemma_metadata_answer_valid(
            connection_id@,
            connection@.config,
            metadata_result(outcome),
        );
    }
    let ghost model = metadata_answer(
        connection_id@,
        connection@.config,
        metadata_result(outcome),
    );
    match outcome {
        Ok(metadata) => {
            let fields = vec![
                entry("connectionId", Json::text(connection_id)),
                entry("metadata", metadata),
            ];
            proof {
                assert(entry_models(fields@) =~= model->Success_0);
            }
            Response::Success(fields)
        },
        Err(err) => {
            let message = connection.config.redact(err.as_str());
            Response::error("connector.metadataFailed", message.as_str())
        },
    }
}

/// The answer to `close`.
pub open spec fn close_answer(id: Seq<char>, existed: bool) -> ResponseModel {
    ResponseModel::Success(
        seq![("closed"@, JsonModel::Bool(existed)), ("connectionId"@, JsonModel::String(id))],
    )
}

/// Closes the connection of a name, and answers whether one was open.
pub fn close(connections: &mut Connections, connection_id: &str) -> (response: Response)
    requires
        old(connections).wf(),
    ensures
        final(connections).wf(),
        final(connections)@ == old(connections)@.remove(connection_id@),
        response@ == close_answer(
            connection_id@,
            old(connections)@.contains_key(connection_id@),
        ),
        well_formed(response@),
{
    let existed = connections.remove(connection_id);
    let fields = vec![
        entry("closed", Json::flag(existed)),
        entry("connectionId", Json::text(connection_id)),
    ];
    proof {
        assert(entry_models(fields@) =~= close_answer(connection_id@, existed)->Success_0);
        lemma_close_answer_valid(connection_id@, existed);
    }
    Response::Success(fields)
}

} // verus!
