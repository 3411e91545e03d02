//! What is asked of the server over HTTP, and what its answers mean.

use vstd::prelude::*;
use vstd::string::StringExecFns;

use crate::config::{ConfigModel, InfluxConfig};
use crate::json::{entry, entry_models, models, row_models, valid, Json, JsonModel};
use crate::metadata::{catalog, describe_database, described, metadata_from_columns};
use crate::rows::{
    cells_valid, influx_response_to_output, output_model, response_rows, table_of, OutputModel,
    QueryOutput,
};
use crate::shape::{lemma_description_valid, lemma_query_document_valid};
use crate::text::{first_chars, opt_str, opt_string, take_chars, trim, trimmed};

verus! {

/// How many characters of a refusal a message shows.
pub const REFUSAL_CHARS: usize = 500;

/// How many rows of the information schema are read.
pub const METADATA_ROWS: usize = 10_000;

/// A status that reports success.
pub open spec fn is_success(code: u16) -> bool {
    200 <= code < 300
}

/// Whether a status reports success.
pub fn status_is_success(code: u16) -> (success: bool)
    ensures
        success == is_success(code),
{
    200 <= code && code < 300
}

/// The version that the server names in its greeting.
pub open spec fn named_version(header: Option<Seq<char>>) -> Option<Seq<char>> {
    match header {
        Some(value) => if value.len() == 0 {
            None
        } else {
            Some("InfluxDB "@ + value)
        },
        None => None,
    }
}

/// The outcome of a greeting that was answered: the version of the server, or why it refused.
pub open spec fn greeting(
    code: u16,
    status: Seq<char>,
    body: Seq<char>,
    version: Option<Seq<char>>,
) -> Result<Option<Seq<char>>, Seq<char>> {
    if is_success(code) {
        Ok(named_version(version))
    } else {
        Err("InfluxDB ping returned HTTP "@ + status + ": "@ + body)
    }
}

/// The view of a greeting's outcome.
pub open spec fn greeting_result(result: Result<Option<String>, String>) -> Result<
    Option<Seq<char>>,
    Seq<char>,
> {
    match result {
        Ok(version) => Ok(opt_string(version)),
        Err(err) => Err(err@),
    }
}

/// The outcome of a greeting that was answered with status `code`, written `status`. The body is
/// read of a refusal only, the version is the header `X-Influxdb-Version`.
pub fn ping_outcome(code: u16, status: &str, body: &str, version: Option<&str>) -> (outcome: Result<
    Option<String>,
    String,
>)
    ensures
        greeting_result(outcome) == greeting(code, status@, body@, opt_str(version)),
{
    if !status_is_success(code) {
        return Err(
            "InfluxDB ping returned HTTP ".to_string().concat(status).concat(": ").concat(body),
        );
    }
    match version {
        Some(value) => if value.is_empty() {
            Ok(None)
        } else {
            Ok(Some("InfluxDB ".to_string().concat(value)))
        },
        None => Ok(None),
    }
}

/// Why a greeting could not be sent.
pub fn ping_unsent(err: &str) -> (message: String)
    ensures
        message@ == "InfluxDB ping failed: "@ + err@,
{
    "InfluxDB ping failed: ".to_string().concat(err)
}

/// What is posted for a query.
pub open spec fn query_document(config: ConfigModel, sql: Seq<char>) -> JsonModel {
    JsonModel::Object(
        seq![
            ("query"@, JsonModel::String(sql)),
            ("type"@, JsonModel::String(config.query_type)),
        ],
    )
}

/// What is posted for a query.
pub fn query_payload(config: &InfluxConfig, sql: &str) -> (payload: Json)
    ensures
        payload@ == query_document(config@, sql@),
        valid(payload@),
{
    let entries = vec![
        entry("query", Json::text(sql)),
        entry("type", Json::text(config.query_type.as_str())),
    ];
    proof {
        assert(entry_models(entries@) =~= query_document(config@, sql@)->Object_0);
        lemma_query_document_valid(config@, sql@);
    }
    Json::object(entries)
}

/// The outcome of a query that was answered: a table, or why the server refused.
pub open spec fn answer(code: u16, status: Seq<char>, text: Seq<char>, cap: nat) -> Result<
    OutputModel,
    Seq<char>,
> {
    if is_success(code) {
        Ok(table_of(response_rows(text), cap))
    } else {
        Err(
            "InfluxDB query returned HTTP "@ + status + ": "@ + first_chars(
                trimmed(text),
                REFUSAL_CHARS as nat,
            ),
        )
    }
}

/// The view of a query's outcome.
pub open spec fn answer_result(result: Result<QueryOutput, String>) -> Result<
    OutputModel,
    Seq<char>,
> {
    match result {
        Ok(output) => Ok(output_model(output)),
        Err(err) => Err(err@),
    }
}

/// The table of an outcome holds valid cells.
pub open spec fn outcome_valid(result: Result<QueryOutput, String>) -> bool {
    result matches Ok(output) ==> cells_valid(row_models(output.1@))
}

/// The outcome of a query that was answered with status `code`, written `status`.
pub fn query_outcome(code: u16, status: &str, text: &str, cap: usize) -> (outcome: Result<
    QueryOutput,
    String,
>)
    ensures
        answer_result(outcome) == answer(code, status@, text@, cap as nat),
        outcome_valid(outcome),
{
    if !status_is_success(code) {
        let detail = take_chars(trim(text).as_str(), REFUSAL_CHARS);
        return Err(
            "InfluxDB query returned HTTP ".to_string().concat(status).concat(": ").concat(
                detail.as_str(),
            ),
        );
    }
    Ok(influx_response_to_output(text, cap))
}

/// Why a query could not be sent.
pub fn query_unsent(err: &str) -> (message: String)
    ensures
        message@ == "InfluxDB query request failed: "@ + err@,
{
    "InfluxDB query request failed: ".to_string().concat(err)
}

/// Why the answer to a query could not be read.
pub fn query_unread(err: &str) -> (message: String)
    ensures
        message@ == "InfluxDB response read failed: "@ + err@,
{
    "InfluxDB response read failed: ".to_string().concat(err)
}

/// The query for the columns of all tables.
pub fn metadata_query() -> (sql: String)
    ensures
        sql@
            == "SELECT table_name, column_name, data_type FROM information_schema.columns WHERE table_schema = 'public' ORDER BY table_name, ordinal_position"@,
{
    "SELECT table_name, column_name, data_type FROM information_schema.columns WHERE table_schema = 'public' ORDER BY table_name, ordinal_position".to_string()
}

/// The description of a database, from the outcome of the query for its columns: without tables,
/// where the query failed.
pub open spec fn metadata_given(
    database: Seq<char>,
    outcome: Result<OutputModel, Seq<char>>,
) -> JsonModel {
    match outcome {
        Ok(output) => described(database, output.columns, output.rows),
        Err(_) => catalog(database, seq![]),
    }
}

/// The description of a database, from the outcome of the query for its columns.
pub fn load_metadata(config: &InfluxConfig, outcome: Result<QueryOutput, String>) -> (metadata:
    Json)
    requires
        outcome_valid(outcome),
    ensures
        metadata@ == metadata_given(config@.database, answer_result(outcome)),
        valid(metadata@),
{
    proof {
        lemma_description_valid(config@.database, seq![], seq![]);
        assert(models(Seq::<Json>::empty()) =~= seq![]);
    }
    match outcome {
        Ok((columns, rows, _)) => metadata_from_columns(
            config.database.as_str(),
            columns.as_slice(),
            rows,
        ),
        Err(_) => describe_database(config.database.as_str(), Vec::new()),
    }
}

} // verus!
