//! Models hold what the values hold: nothing is lost, added or changed on the way.

use vstd::prelude::*;

use crate::config::{config_result, InfluxConfig};
use crate::connections::InfluxConnection;
use crate::driver::{metadata_result, or_null, Call, Connector};
use crate::exchange::{answer_result, greeting_result, outcome_valid};
use crate::json::{
    entry_models, key_index, lemma_key_index, lemma_key_index_is, lookup, member, models,
    opt_document, opt_model, ref_models, row_models, string_of_model, valid, Json, JsonModel,
};
use crate::order::precedes;
use crate::request::{listed, names};
use crate::response::{well_formed, Response, ResponseModel};
use crate::rows::{document_models, output_model, QueryOutput};
use crate::session::{Purpose, PurposeModel};
use crate::text::{cut_view, opt_str, opt_string, views};
use crate::tls::{
    certificate_list, read_outcome, text_error, PemRead, PemReadModel, TlsConfig,
};
use crate::url::text_result;

verus! {

/// The model of a JSON value holds its kind and all that is in it, in order.
pub proof fn law_json_model(json: Json)
    ensures
        match json {
            Json::Null => json@ == JsonModel::Null,
            Json::Bool(b) => json@ == JsonModel::Bool(b),
            Json::Number(n) => json@ == JsonModel::Number(n),
            Json::String(s) => json@ == JsonModel::String(s@),
            Json::Array(items) => json@ matches JsonModel::Array(list) && list.len()
                == items@.len() && forall|i: int|
                0 <= i < list.len() ==> #[trigger] list[i] == items@[i]@,
            Json::Object(entries) => json@ matches JsonModel::Object(list) && list.len()
                == entries@.len() && forall|i: int|
                0 <= i < list.len() ==> (#[trigger] list[i]).0 == entries@[i].0@ && list[i].1
                    == entries@[i].1@,
        },
{
}

/// What an object holds under a key is what its first entry under that key holds; nothing, where
/// no entry has the key. What is no object holds nothing.
pub proof fn law_members(m: JsonModel, key: Seq<char>)
    ensures
        match m {
            JsonModel::Object(entries) => {
                &&& member(m, key) == lookup(entries, key)
                &&& match lookup(entries, key) {
                    Some(v) => exists|i: int|
                        0 <= i < entries.len() && #[trigger] entries[i] == (key, v) && forall|k:
                            int| 0 <= k < i ==> (#[trigger] entries[k]).0 != key,
                    None => forall|k: int|
                        0 <= k < entries.len() ==> (#[trigger] entries[k]).0 != key,
                }
            },
            _ => member(m, key) is None,
        },
{
    if let JsonModel::Object(entries) = m {
        lemma_key_index(entries, key);
        let i = key_index(entries, key) as int;
        if i < entries.len() {
            assert(entries[i] == (key, entries[i].1));
        }
    }
}

/// An entry that is the first under its key is what the object holds there.
pub proof fn law_first_entry_is_held(
    entries: Seq<(Seq<char>, JsonModel)>,
    key: Seq<char>,
    i: int,
)
    requires
        0 <= i < entries.len(),
        entries[i].0 == key,
        forall|k: int| 0 <= k < i ==> (#[trigger] entries[k]).0 != key,
    ensures
        lookup(entries, key) == Some(entries[i].1),
{
    lemma_key_index_is(entries, key, i);
}

/// A valid object has each key before the next, and valid values; a valid array has valid items.
pub proof fn law_valid_values(m: JsonModel, i: int)
    requires
        valid(m),
    ensures
        m matches JsonModel::Object(entries) ==> (0 <= i < entries.len() ==> valid(entries[i].1))
            && (0 <= i < entries.len() - 1 ==> precedes(entries[i].0, entries[i + 1].0)),
        m matches JsonModel::Array(items) ==> (0 <= i < items.len() ==> valid(items[i])),
{
    if let JsonModel::Object(entries) = m {
        let list = crate::json::keys(entries);
        if 0 <= i < entries.len() - 1 {
            assert(precedes(list[i], list[i + 1]));
        }
    }
}

/// The text of a value is there for strings only, and is theirs.
pub proof fn law_text_of_a_value(m: JsonModel)
    ensures
        string_of_model(m) matches Some(s) ==> m == JsonModel::String(s),
        m matches JsonModel::String(s) ==> string_of_model(m) == Some(s),
{
}

/// The models of lists have their items in the same places.
pub proof fn law_list_models(
    texts: Seq<String>,
    words: Seq<&str>,
    items: Seq<Json>,
    lent: Seq<&Json>,
    rows: Seq<Vec<Json>>,
    entries: Seq<(String, Json)>,
    documents: Seq<Option<Json>>,
    i: int,
)
    ensures
        views(texts).len() == texts.len(),
        0 <= i < texts.len() ==> views(texts)[i] == texts[i]@,
        names(words).len() == words.len(),
        0 <= i < words.len() ==> names(words)[i] == words[i]@,
        models(items).len() == items.len(),
        0 <= i < items.len() ==> models(items)[i] == items[i]@,
        ref_models(lent).len() == lent.len(),
        0 <= i < lent.len() ==> ref_models(lent)[i] == lent[i]@,
        row_models(rows).len() == rows.len(),
        0 <= i < rows.len() ==> row_models(rows)[i] == models(rows[i]@),
        entry_models(entries).len() == entries.len(),
        0 <= i < entries.len() ==> entry_models(entries)[i] == (entries[i].0@, entries[i].1@),
        document_models(documents).len() == documents.len(),
        0 <= i < documents.len() ==> document_models(documents)[i] == opt_document(documents[i]),
{
}

/// The models of what may be there are there exactly where it is.
pub proof fn law_optional_models(
    text: Option<&str>,
    string: Option<String>,
    json: Option<&Json>,
    document: Option<Json>,
    cut: Option<(String, String)>,
    m: Option<JsonModel>,
)
    ensures
        text matches Some(t) ==> opt_str(text) == Some(t@),
        text is None ==> opt_str(text) is None,
        string matches Some(t) ==> opt_string(string) == Some(t@),
        string is None ==> opt_string(string) is None,
        json matches Some(j) ==> opt_model(json) == Some(j@),
        json is None ==> opt_model(json) is None,
        document matches Some(j) ==> opt_document(document) == Some(j@),
        document is None ==> opt_document(document) is None,
        cut matches Some(parts) ==> cut_view(cut) == Some((parts.0@, parts.1@)),
        cut is None ==> cut_view(cut) is None,
        m matches Some(v) ==> listed(m) == seq![v] && or_null(m) == v,
        m is None ==> listed(m).len() == 0 && or_null(m) == JsonModel::Null,
{
}

/// The models of results keep success and failure apart, and what each holds.
pub proof fn law_result_models(
    config: Result<InfluxConfig, String>,
    url: Result<String, String>,
    greeting: Result<Option<String>, String>,
    output: Result<QueryOutput, String>,
    metadata: Result<Json, String>,
    certs: Result<Vec<reqwest::Certificate>, String>,
    client: Result<reqwest::Client, String>,
    identity: Result<reqwest::Identity, String>,
    read: Result<Vec<u8>, String>,
)
    ensures
        match config {
            Ok(c) => config_result(config) == Ok::<_, Seq<char>>(c@),
            Err(e) => config_result(config) == Err::<crate::config::ConfigModel, _>(e@),
        },
        match url {
            Ok(t) => text_result(url) == Ok::<_, Seq<char>>(t@),
            Err(e) => text_result(url) == Err::<Seq<char>, _>(e@),
        },
        match greeting {
            Ok(v) => greeting_result(greeting) == Ok::<_, Seq<char>>(opt_string(v)),
            Err(e) => greeting_result(greeting) == Err::<Option<Seq<char>>, _>(e@),
        },
        match output {
            Ok(o) => answer_result(output) == Ok::<_, Seq<char>>(output_model(o)),
            Err(e) => answer_result(output) == Err::<crate::rows::OutputModel, _>(e@),
        },
        match metadata {
            Ok(j) => metadata_result(metadata) == Ok::<_, Seq<char>>(j@),
            Err(e) => metadata_result(metadata) == Err::<JsonModel, _>(e@),
        },
        match certs {
            Ok(list) => certificate_list(certs) == Ok::<_, Seq<char>>(list@),
            Err(e) => certificate_list(certs) == Err::<Seq<reqwest::Certificate>, _>(e@),
        },
        match client {
            Ok(c) => text_error(client) == Ok::<_, Seq<char>>(c),
            Err(e) => text_error(client) == Err::<reqwest::Client, _>(e@),
        },
        match identity {
            Ok(i) => text_error(identity) == Ok::<_, Seq<char>>(i),
            Err(e) => text_error(identity) == Err::<reqwest::Identity, _>(e@),
        },
        match read {
            Ok(bytes) => read_outcome(read) == PemReadModel::Bytes(bytes@),
            Err(e) => read_outcome(read) == PemReadModel::Failed(e@),
        },
{
}

/// The model of a table holds its columns, its rows and whether rows were left out.
pub proof fn law_table_model(output: QueryOutput)
    ensures
        output_model(output).columns == views(output.0@),
        output_model(output).rows == row_models(output.1@),
        output_model(output).truncated == output.2,
{
}

/// The models of configurations, connections and the connector hold their fields.
pub proof fn law_settings_models(
    config: InfluxConfig,
    tls: TlsConfig,
    connection: InfluxConnection,
    connector: Connector,
)
    ensures
        config@.base_url == config.base_url@,
        config@.database == config.database@,
        config@.token == opt_string(config.token),
        config@.query_type == config.query_type@,
        config@.tls == config.tls@,
        config@.redaction_values == views(config.redaction_values@),
        tls@.root_cert_path == opt_string(tls.root_cert_path),
        tls@.client_cert_path == opt_string(tls.client_cert_path),
        tls@.client_key_path == opt_string(tls.client_key_path),
        tls@.accept_invalid_certs == tls.accept_invalid_certs,
        connection@.client == connection.client,
        connection@.config == connection.config@,
        connector@.engine == connector.engine@,
        connector@.abi_version == connector.abi_version@,
        connector@.driver_linked == connector.driver_linked,
        connector@.manifest_json == connector.manifest_json@,
        connector@.config_json == connector.config_json@,
{
}

/// The model of an answer holds its kind and all that is in it.
pub proof fn law_response_model(response: Response)
    ensures
        match response {
            Response::Success(fields) => response@ == ResponseModel::Success(
                entry_models(fields@),
            ),
            Response::Failure { code, message } => response@ == (ResponseModel::Failure {
                code: code@,
                message: message@,
            }),
            Response::Raw(text) => response@ == ResponseModel::Raw(text@),
        },
{
}

/// The fields of a well-formed success make a valid object, and the cells of a valid table are
/// valid.
pub proof fn law_well_formed_answers(
    fields: Seq<(Seq<char>, JsonModel)>,
    output: QueryOutput,
    i: int,
    j: int,
)
    ensures
        well_formed(ResponseModel::Success(fields)) <==> valid(JsonModel::Object(fields)),
        outcome_valid(Ok(output)) && 0 <= i < output.1@.len() && 0 <= j < output.1@[i]@.len()
            ==> valid(output.1@[i]@[j]@),
{
    if outcome_valid(Ok(output)) && 0 <= i < output.1@.len() && 0 <= j < output.1@[i]@.len() {
        assert(row_models(output.1@)[i] == models(output.1@[i]@));
        assert(models(output.1@[i]@)[j] == output.1@[i]@[j]@);
    }
}

/// The model of a call tells the operations apart and holds the request.
pub proof fn law_call_model(call: Call)
    ensures
        match call {
            Call::Reply(r) => call@ == crate::driver::CallModel::Reply(r@),
            Call::Connect(r) => call@ == crate::driver::CallModel::Connect(r@),
            Call::Query(r) => call@ == crate::driver::CallModel::Query(r@),
            Call::Metadata(r) => call@ == crate::driver::CallModel::Metadata(r@),
            Call::Close(r) => call@ == crate::driver::CallModel::Close(r@),
        },
{
}

/// The model of what a server is asked for holds the statement and the cap.
pub proof fn law_purpose_model(purpose: Purpose)
    ensures
        match purpose {
            Purpose::Query { sql, cap } => purpose@ == (PurposeModel::Query {
                sql: sql@,
                cap: cap as nat,
            }),
            Purpose::Metadata => purpose@ == PurposeModel::Metadata,
        },
{
}

/// The model of what came of a file holds its bytes or why there are none.
pub proof fn law_read_model(read: PemRead)
    ensures
        match read {
            PemRead::Unread => read@ == PemReadModel::Unread,
            PemRead::Bytes(bytes) => read@ == PemReadModel::Bytes(bytes@),
            PemRead::Failed(err) => read@ == PemReadModel::Failed(err@),
        },
{
}

} // verus!
