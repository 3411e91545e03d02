//! What the answers to calls hold.

use vstd::prelude::*;

use crate::codec::json_document;
use crate::config::{redacted, ConfigModel};
use crate::connections::not_found;
use crate::driver::{
    call_of, close_answer, connect_answer, connect_failed, description, health, invalid_request,
    metadata_answer, query_answer, statement_given, unknown_method, works_on_request, CallModel,
    ConnectorModel,
};
use crate::exchange::answer;
use crate::json::JsonModel;
use crate::laws::tables::law_number_of_rows;
use crate::metadata::described;
use crate::response::{poisoned, ResponseModel};
use crate::rows::{response_rows, table_of, OutputModel};
use crate::session::{reply, reply_without_runtime, PurposeModel};

verus! {

/// The answer holds the value under the key.
pub open spec fn holds(response: ResponseModel, key: Seq<char>, value: JsonModel) -> bool {
    response matches ResponseModel::Success(fields) && fields.contains((key, value))
}

/// The answer is a success with so many fields.
pub open spec fn has_fields(response: ResponseModel, n: nat) -> bool {
    response matches ResponseModel::Success(fields) && fields.len() == n
}

/// The answer is a failure of the code with the message.
pub open spec fn fails_with(
    response: ResponseModel,
    code: Seq<char>,
    message: Seq<char>,
) -> bool {
    response matches ResponseModel::Failure { code: c, message: m } && c == code && m == message
}

/// What stands among the fields of an answer is held by it.
proof fn lemma_held(response: ResponseModel, i: int)
    requires
        response is Success,
        0 <= i < response->Success_0.len(),
    ensures
        holds(response, response->Success_0[i].0, response->Success_0[i].1),
{
    let fields = response->Success_0;
    assert(fields[i] == (fields[i].0, fields[i].1));
    assert(fields.contains((fields[i].0, fields[i].1)));
}

/// The answer to `health` says who answers: the engine, the version of the interface and whether
/// the driver is there, and nothing else.
pub proof fn law_health(connector: ConnectorModel)
    ensures
        has_fields(health(connector), 3),
        holds(health(connector), "engine"@, JsonModel::String(connector.engine)),
        holds(health(connector), "abiVersion"@, connector.abi_version),
        holds(health(connector), "driverLinked"@, JsonModel::Bool(connector.driver_linked)),
{
    lemma_held(health(connector), 0);
    lemma_held(health(connector), 1);
    lemma_held(health(connector), 2);
}

/// A description says the same, and holds the two documents, each null where it cannot be read.
pub proof fn law_description(
    connector: ConnectorModel,
    manifest: Option<JsonModel>,
    config: Option<JsonModel>,
)
    ensures
        ({
            let r = description(connector, manifest, config);
            &&& has_fields(r, 5)
            &&& holds(r, "engine"@, JsonModel::String(connector.engine))
            &&& holds(r, "abiVersion"@, connector.abi_version)
            &&& holds(r, "driverLinked"@, JsonModel::Bool(connector.driver_linked))
            &&& manifest matches Some(m) ==> holds(r, "manifest"@, m)
            &&& manifest is None ==> holds(r, "manifest"@, JsonModel::Null)
            &&& config matches Some(m) ==> holds(r, "config"@, m)
            &&& config is None ==> holds(r, "config"@, JsonModel::Null)
        }),
{
    let r = description(connector, manifest, config);
    lemma_held(r, 0);
    lemma_held(r, 1);
    lemma_held(r, 2);
    lemma_held(r, 3);
    lemma_held(r, 4);
}

/// Each method does what it is named for, and hands the request on as it is.
pub proof fn law_methods(connector: ConnectorModel, request: JsonModel)
    ensures
        call_of(connector, "health"@, Some(request)) == CallModel::Reply(health(connector)),
        call_of(connector, "describe"@, Some(request)) == CallModel::Reply(
            description(
                connector,
                json_document(connector.manifest_json),
                json_document(connector.config_json),
            ),
        ),
        call_of(connector, "manifest"@, Some(request)) == CallModel::Reply(
            ResponseModel::Raw(connector.manifest_json),
        ),
        call_of(connector, "config"@, Some(request)) == CallModel::Reply(
            ResponseModel::Raw(connector.config_json),
        ),
        call_of(connector, "connect"@, Some(request)) == CallModel::Connect(request),
        call_of(connector, "query"@, Some(request)) == CallModel::Query(request),
        call_of(connector, "metadata"@, Some(request)) == CallModel::Metadata(request),
        call_of(connector, "close"@, Some(request)) == CallModel::Close(request),
{
    reveal_strlit("health");
    reveal_strlit("ping");
    reveal_strlit("describe");
    reveal_strlit("capabilities");
    reveal_strlit("manifest");
    reveal_strlit("config");
    reveal_strlit("connect");
    reveal_strlit("query");
    reveal_strlit("metadata");
    reveal_strlit("close");
    assert("health"@.len() == 6 && "health"@[0] == 'h');
    assert("ping"@.len() == 4);
    assert("describe"@.len() == 8 && "describe"@[0] == 'd');
    assert("capabilities"@.len() == 12);
    assert("manifest"@.len() == 8 && "manifest"@[0] == 'm' && "manifest"@[1] == 'a');
    assert("config"@.len() == 6 && "config"@[0] == 'c');
    assert("connect"@.len() == 7);
    assert("query"@.len() == 5 && "query"@[0] == 'q');
    assert("metadata"@.len() == 8 && "metadata"@[0] == 'm' && "metadata"@[1] == 'e');
    assert("close"@.len() == 5 && "close"@[0] == 'c');
}

/// A request is needed for four methods, and for no other.
pub proof fn law_methods_that_need_a_request(method: Seq<char>)
    ensures
        works_on_request(method) <==> seq!["connect"@, "query"@, "metadata"@, "close"@].contains(
            method,
        ),
{
    let all = seq!["connect"@, "query"@, "metadata"@, "close"@];
    assert(all[0] == "connect"@ && all[1] == "query"@ && all[2] == "metadata"@ && all[3]
        == "close"@);
}

/// Failures have a code each, and messages that hold what failed.
pub proof fn law_failures(
    config: ConfigModel,
    id: Seq<char>,
    method: Seq<char>,
    message: Seq<char>,
)
    ensures
        fails_with(
            unknown_method(method),
            "connector.unknownMethod"@,
            "unknown connector method: "@ + method,
        ),
        fails_with(invalid_request(message), "connector.invalidRequest"@, message),
        fails_with(
            connect_failed(config, message),
            "connector.connectFailed"@,
            redacted(config, message),
        ),
        fails_with(
            query_answer(id, config, Err(message)),
            "connector.queryFailed"@,
            redacted(config, message),
        ),
        fails_with(
            metadata_answer(id, config, Err(message)),
            "connector.metadataFailed"@,
            redacted(config, message),
        ),
        fails_with(not_found(id), "connector.connectionNotFound"@, "no open connection: "@ + id),
        fails_with(
            poisoned(),
            "connector.statePoisoned"@,
            "Connector connection state is poisoned."@,
        ),
{
}

/// A new connection is answered with its name, its database, its server, the engine and the
/// driver, and with the server's version where it is known; nothing else is said.
pub proof fn law_new_connections(
    connector: ConnectorModel,
    id: Seq<char>,
    config: ConfigModel,
    version: Option<Seq<char>>,
)
    ensures
        ({
            let r = connect_answer(connector, id, config, version);
            &&& holds(r, "connectionId"@, JsonModel::String(id))
            &&& holds(r, "database"@, JsonModel::String(config.database))
            &&& holds(r, "endpoint"@, JsonModel::String(config.base_url))
            &&& holds(r, "engine"@, JsonModel::String(connector.engine))
            &&& holds(r, "driverLinked"@, JsonModel::Bool(connector.driver_linked))
            &&& version matches Some(v) ==> has_fields(r, 6) && holds(
                r,
                "serverVersion"@,
                JsonModel::String(v),
            )
            &&& version is None ==> has_fields(r, 5)
        }),
{
    let r = connect_answer(connector, id, config, version);
    lemma_held(r, 0);
    lemma_held(r, 1);
    lemma_held(r, 2);
    lemma_held(r, 3);
    lemma_held(r, 4);
    if version is Some {
        lemma_held(r, 5);
    }
}

/// A close is answered with the name and whether a connection was open.
pub proof fn law_closed_connections(id: Seq<char>, existed: bool)
    ensures
        has_fields(close_answer(id, existed), 2),
        holds(close_answer(id, existed), "connectionId"@, JsonModel::String(id)),
        holds(close_answer(id, existed), "closed"@, JsonModel::Bool(existed)),
{
    lemma_held(close_answer(id, existed), 0);
    lemma_held(close_answer(id, existed), 1);
}

/// The statement of a query is the first that is given under its three names.
pub proof fn law_statement_of_a_query(
    sql: Option<Seq<char>>,
    query: Option<Seq<char>>,
    statement: Option<Seq<char>>,
)
    ensures
        sql matches Some(s) ==> statement_given(sql, query, statement) == Some(s),
        sql is None ==> (query matches Some(s) ==> statement_given(sql, query, statement) == Some(
            s,
        )),
        sql is None && query is None ==> statement_given(sql, query, statement) == statement,
{
}

/// The values are the texts, as JSON strings in their order.
pub open spec fn are_strings(values: Seq<JsonModel>, texts: Seq<Seq<char>>) -> bool {
    values.len() == texts.len() && forall|i: int|
        0 <= i < texts.len() ==> #[trigger] values[i] == JsonModel::String(texts[i])
}

/// The values are the rows, as JSON arrays in their order.
pub open spec fn are_rows(values: Seq<JsonModel>, rows: Seq<Seq<JsonModel>>) -> bool {
    values.len() == rows.len() && forall|i: int|
        0 <= i < rows.len() ==> #[trigger] values[i] == JsonModel::Array(rows[i])
}

/// A table is answered with its columns, its rows, whether rows were left out and the name of the
/// connection, and with nothing else.
pub proof fn law_answered_tables(id: Seq<char>, config: ConfigModel, output: OutputModel) -> (parts:
    (Seq<JsonModel>, Seq<JsonModel>))
    ensures
        ({
            let r = query_answer(id, config, Ok(output));
            &&& has_fields(r, 4)
            &&& holds(r, "connectionId"@, JsonModel::String(id))
            &&& holds(r, "columns"@, JsonModel::Array(parts.0))
            &&& are_strings(parts.0, output.columns)
            &&& holds(r, "rows"@, JsonModel::Array(parts.1))
            &&& are_rows(parts.1, output.rows)
            &&& holds(r, "truncated"@, JsonModel::Bool(output.truncated))
        }),
{
    let r = query_answer(id, config, Ok(output));
    lemma_held(r, 0);
    lemma_held(r, 1);
    lemma_held(r, 2);
    lemma_held(r, 3);
    let fields = r->Success_0;
    (fields[0].1->Array_0, fields[2].1->Array_0)
}

/// The answer to a query that the server met says that rows were left out exactly where the
/// response holds more rows than the cap, that is where it has fewer rows than the response.
pub proof fn law_answers_say_whether_rows_were_left_out(
    id: Seq<char>,
    config: ConfigModel,
    sql: Seq<char>,
    cap: nat,
    code: u16,
    status: Seq<char>,
    text: Seq<char>,
) -> (rows: Seq<JsonModel>)
    requires
        200 <= code <= 299,
    ensures
        ({
            let r = reply(
                id,
                config,
                PurposeModel::Query { sql, cap },
                answer(code, status, text, cap),
            );
            &&& has_fields(r, 4)
            &&& holds(r, "connectionId"@, JsonModel::String(id))
            &&& holds(r, "rows"@, JsonModel::Array(rows))
            &&& are_rows(rows, table_of(response_rows(text), cap).rows)
            &&& holds(r, "truncated"@, JsonModel::Bool(response_rows(text).len() > cap))
            &&& rows.len() < response_rows(text).len() <==> response_rows(text).len() > cap
            &&& response_rows(text).len() <= cap ==> rows.len() == response_rows(text).len()
        }),
{
    let output = table_of(response_rows(text), cap);
    law_number_of_rows(response_rows(text), cap);
    law_answered_tables(id, config, output).1
}

/// No two fields of the answer to a query have the same key: what it holds under a key is all that
/// it says there.
pub proof fn law_answers_say_one_thing(
    id: Seq<char>,
    config: ConfigModel,
    output: OutputModel,
    key: Seq<char>,
    a: JsonModel,
    b: JsonModel,
)
    requires
        holds(query_answer(id, config, Ok(output)), key, a),
        holds(query_answer(id, config, Ok(output)), key, b),
    ensures
        a == b,
{
    reveal_strlit("columns");
    reveal_strlit("connectionId");
    reveal_strlit("rows");
    reveal_strlit("truncated");
    assert("columns"@.len() == 7 && "connectionId"@.len() == 12 && "rows"@.len() == 4
        && "truncated"@.len() == 9);
    let fields = query_answer(id, config, Ok(output))->Success_0;
    let i = choose|i: int| 0 <= i < fields.len() && fields[i] == (key, a);
    let j = choose|j: int| 0 <= j < fields.len() && fields[j] == (key, b);
}

/// A description is answered with the name of the connection, and with nothing else.
pub proof fn law_answered_descriptions(id: Seq<char>, config: ConfigModel, metadata: JsonModel)
    ensures
        has_fields(metadata_answer(id, config, Ok(metadata)), 2),
        holds(metadata_answer(id, config, Ok(metadata)), "connectionId"@, JsonModel::String(id)),
        holds(metadata_answer(id, config, Ok(metadata)), "metadata"@, metadata),
{
    lemma_held(metadata_answer(id, config, Ok(metadata)), 0);
    lemma_held(metadata_answer(id, config, Ok(metadata)), 1);
}

/// A query is answered with what came of it. A description is answered with the tables where they
/// could be had, and as a success in any case. Where nothing could be sent both fail.
pub proof fn law_replies(
    id: Seq<char>,
    config: ConfigModel,
    sql: Seq<char>,
    cap: nat,
    output: OutputModel,
    err: Seq<char>,
)
    ensures
        reply(id, config, PurposeModel::Query { sql, cap }, Ok(output)) == query_answer(
            id,
            config,
            Ok(output),
        ),
        fails_with(
            reply(id, config, PurposeModel::Query { sql, cap }, Err(err)),
            "connector.queryFailed"@,
            redacted(config, err),
        ),
        holds(
            reply(id, config, PurposeModel::Metadata, Ok(output)),
            "metadata"@,
            described(config.database, output.columns, output.rows),
        ),
        has_fields(reply(id, config, PurposeModel::Metadata, Err(err)), 2),
        fails_with(
            reply_without_runtime(id, config, PurposeModel::Query { sql, cap }, err),
            "connector.queryFailed"@,
            redacted(config, err),
        ),
        fails_with(
            reply_without_runtime(id, config, PurposeModel::Metadata, err),
            "connector.metadataFailed"@,
            redacted(config, err),
        ),
{
    lemma_held(reply(id, config, PurposeModel::Metadata, Ok(output)), 1);
}

} // verus!
