//! The objects that the connector makes have their keys in order.

use vstd::prelude::*;

use crate::config::ConfigModel;
use crate::driver::{
    close_answer, connect_answer, connection_fields, description, health, json_rows,
    json_strings, metadata_answer, or_null, query_answer, ConnectorModel,
};
use crate::exchange::query_document;
use crate::json::{keys, valid, JsonModel};
use crate::metadata::{
    catalog, column_description, column_descriptions, column_index, described, fields_given,
    fields_of_table, table_description, table_descriptions, table_names, Field,
};
use crate::order::{lemma_increasing, lemma_precedes_at, precedes};
use crate::response::well_formed;
use crate::rows::{all_valid, cells_valid, OutputModel};

verus! {

/// The keys of the objects that the connector makes, each before the next in its object.
proof fn lemma_keys_in_order()
    ensures
        precedes("abiVersion"@, "config"@),
        precedes("abiVersion"@, "driverLinked"@),
        precedes("closed"@, "connectionId"@),
        precedes("columns"@, "connectionId"@),
        precedes("columns"@, "foreignKeys"@),
        precedes("config"@, "driverLinked"@),
        precedes("connectionId"@, "database"@),
        precedes("connectionId"@, "metadata"@),
        precedes("connectionId"@, "rows"@),
        precedes("dataType"@, "name"@),
        precedes("database"@, "driverLinked"@),
        precedes("driverLinked"@, "endpoint"@),
        precedes("driverLinked"@, "engine"@),
        precedes("endpoint"@, "engine"@),
        precedes("engine"@, "manifest"@),
        precedes("engine"@, "serverVersion"@),
        precedes("foreignKeys"@, "indexes"@),
        precedes("indexes"@, "kind"@),
        precedes("kind"@, "name"@),
        precedes("name"@, "nullable"@),
        precedes("name"@, "objects"@),
        precedes("name"@, "primaryKey"@),
        precedes("nullable"@, "ordinal"@),
        precedes("primaryKey"@, "schema"@),
        precedes("query"@, "type"@),
        precedes("rows"@, "truncated"@),
{
    reveal_strlit("abiVersion");
    reveal_strlit("closed");
    reveal_strlit("columns");
    reveal_strlit("config");
    reveal_strlit("connectionId");
    reveal_strlit("dataType");
    reveal_strlit("database");
    reveal_strlit("driverLinked");
    reveal_strlit("endpoint");
    reveal_strlit("engine");
    reveal_strlit("foreignKeys");
    reveal_strlit("indexes");
    reveal_strlit("kind");
    reveal_strlit("manifest");
    reveal_strlit("metadata");
    reveal_strlit("name");
    reveal_strlit("nullable");
    reveal_strlit("objects");
    reveal_strlit("ordinal");
    reveal_strlit("primaryKey");
    reveal_strlit("query");
    reveal_strlit("rows");
    reveal_strlit("schema");
    reveal_strlit("serverVersion");
    reveal_strlit("truncated");
    reveal_strlit("type");
    lemma_precedes_at("abiVersion"@, "config"@, 0);
    lemma_precedes_at("abiVersion"@, "driverLinked"@, 0);
    lemma_precedes_at("closed"@, "connectionId"@, 1);
    lemma_precedes_at("columns"@, "connectionId"@, 2);
    lemma_precedes_at("columns"@, "foreignKeys"@, 0);
    lemma_precedes_at("config"@, "driverLinked"@, 0);
    lemma_precedes_at("connectionId"@, "database"@, 0);
    lemma_precedes_at("connectionId"@, "metadata"@, 0);
    lemma_precedes_at("connectionId"@, "rows"@, 0);
    lemma_precedes_at("dataType"@, "name"@, 0);
    lemma_precedes_at("database"@, "driverLinked"@, 1);
    lemma_precedes_at("driverLinked"@, "endpoint"@, 0);
    lemma_precedes_at("driverLinked"@, "engine"@, 0);
    lemma_precedes_at("endpoint"@, "engine"@, 2);
    lemma_precedes_at("engine"@, "manifest"@, 0);
    lemma_precedes_at("engine"@, "serverVersion"@, 0);
    lemma_precedes_at("foreignKeys"@, "indexes"@, 0);
    lemma_precedes_at("indexes"@, "kind"@, 0);
    lemma_precedes_at("kind"@, "name"@, 0);
    lemma_precedes_at("name"@, "nullable"@, 1);
    lemma_precedes_at("name"@, "objects"@, 0);
    lemma_precedes_at("name"@, "primaryKey"@, 0);
    lemma_precedes_at("nullable"@, "ordinal"@, 0);
    lemma_precedes_at("primaryKey"@, "schema"@, 0);
    lemma_precedes_at("query"@, "type"@, 0);
    lemma_precedes_at("rows"@, "truncated"@, 0);
}

/// An object is valid where each key comes before the next and each value is valid.
proof fn lemma_object_valid(entries: Seq<(Seq<char>, JsonModel)>)
    requires
        forall|i: int|
            0 <= i < entries.len() - 1 ==> precedes(#[trigger] entries[i].0, entries[i + 1].0),
        forall|i: int| 0 <= i < entries.len() ==> valid((#[trigger] entries[i]).1),
    ensures
        valid(JsonModel::Object(entries)),
{
    let list = keys(entries);
    assert forall|i: int| 0 <= i < list.len() - 1 implies precedes(
        #[trigger] list[i],
        list[i + 1],
    ) by {
        assert(precedes(entries[i].0, entries[i + 1].0));
    }
    lemma_increasing(list);
}

/// The answers to `health` and `describe` are well-formed.
pub proof fn lemma_self_description_valid(
    connector: ConnectorModel,
    manifest: Option<JsonModel>,
    config: Option<JsonModel>,
)
    ensures
        valid(connector.abi_version) ==> well_formed(health(connector)),
        valid(connector.abi_version) && valid(or_null(manifest)) && valid(or_null(config))
            ==> well_formed(description(connector, manifest, config)),
{
    lemma_keys_in_order();
    if valid(connector.abi_version) {
        lemma_object_valid(health(connector)->Success_0);
        if valid(or_null(manifest)) && valid(or_null(config)) {
            lemma_object_valid(description(connector, manifest, config)->Success_0);
        }
    }
}

/// The answer to `connect` is well-formed.
pub proof fn lemma_connect_answer_valid(
    connector: ConnectorModel,
    id: Seq<char>,
    config: ConfigModel,
    version: Option<Seq<char>>,
)
    ensures
        well_formed(connect_answer(connector, id, config, version)),
{
    lemma_keys_in_order();
    assert(connection_fields(connector, id, config).len() == 5);
    lemma_object_valid(connect_answer(connector, id, config, version)->Success_0);
}

/// The answer to `close` is well-formed.
pub proof fn lemma_close_answer_valid(id: Seq<char>, existed: bool)
    ensures
        well_formed(close_answer(id, existed)),
{
    lemma_keys_in_order();
    lemma_object_valid(close_answer(id, existed)->Success_0);
}

/// The answer to a query is well-formed where its cells are valid.
pub proof fn lemma_query_answer_valid(
    id: Seq<char>,
    config: ConfigModel,
    outcome: Result<OutputModel, Seq<char>>,
)
    ensures
        (outcome matches Ok(output) ==> cells_valid(output.rows)) ==> well_formed(
            query_answer(id, config, outcome),
        ),
{
    if outcome is Ok && cells_valid(outcome->Ok_0.rows) {
        let output = outcome->Ok_0;
        lemma_keys_in_order();
        let columns = json_strings(output.columns);
        let rows = json_rows(output.rows);
        assert forall|i: int| 0 <= i < columns.len() implies valid(#[trigger] columns[i]) by {
            assert(columns[i] is String);
        }
        assert forall|i: int| 0 <= i < rows.len() implies valid(#[trigger] rows[i]) by {
            assert(rows[i] == JsonModel::Array(output.rows[i]));
            assert(all_valid(output.rows[i]));
        }
        assert(valid(JsonModel::Array(columns)));
        assert(valid(JsonModel::Array(rows)));
        lemma_object_valid(query_answer(id, config, outcome)->Success_0);
    }
}

/// The answer to `metadata` is well-formed where the description is valid.
pub proof fn lemma_metadata_answer_valid(
    id: Seq<char>,
    config: ConfigModel,
    outcome: Result<JsonModel, Seq<char>>,
)
    ensures
        (outcome matches Ok(metadata) ==> valid(metadata)) ==> well_formed(
            metadata_answer(id, config, outcome),
        ),
{
    if outcome is Ok && valid(outcome->Ok_0) {
        lemma_keys_in_order();
        lemma_object_valid(metadata_answer(id, config, outcome)->Success_0);
    }
}

/// What is posted for a query is valid.
pub proof fn lemma_query_document_valid(config: ConfigModel, sql: Seq<char>)
    ensures
        valid(query_document(config, sql)),
{
    lemma_keys_in_order();
    lemma_object_valid(query_document(config, sql)->Object_0);
}

proof fn lemma_catalog_valid(database: Seq<char>, tables: Seq<JsonModel>)
    requires
        all_valid(tables),
    ensures
        valid(catalog(database, tables)),
{
    lemma_keys_in_order();
    assert(valid(JsonModel::Array(tables)));
    let schema = seq![
        ("name"@, JsonModel::String(database)),
        ("objects"@, JsonModel::Array(tables)),
    ];
    lemma_object_valid(schema);
    let schemas = seq![JsonModel::Object(schema)];
    assert(valid(JsonModel::Array(schemas)));
    lemma_object_valid(catalog(database, tables)->Object_0);
}

proof fn lemma_table_valid(database: Seq<char>, name: Seq<char>, fields: Seq<Field>)
    ensures
        valid(table_description(database, name, column_descriptions(fields))),
{
    lemma_keys_in_order();
    let columns = column_descriptions(fields);
    assert forall|i: int| 0 <= i < columns.len() implies valid(#[trigger] columns[i]) by {
        assert(columns[i] == column_description(fields[i], i + 1));
        lemma_object_valid(columns[i]->Object_0);
    }
    assert(valid(JsonModel::Array(columns)));
    assert(valid(JsonModel::Array(seq![])));
    lemma_object_valid(table_description(database, name, columns)->Object_0);
}

/// The description of a database is valid.
pub proof fn lemma_description_valid(
    database: Seq<char>,
    columns: Seq<Seq<char>>,
    rows: Seq<Seq<JsonModel>>,
)
    ensures
        valid(described(database, columns, rows)),
        valid(catalog(database, seq![])),
{
    lemma_catalog_valid(database, seq![]);
    let table = column_index(columns, "table_name"@);
    let column = column_index(columns, "column_name"@);
    let data_type = column_index(columns, "data_type"@);
    let fields = fields_given(rows, table as int, column as int, data_type as int);
    let tables = table_descriptions(database, fields);
    assert forall|i: int| 0 <= i < tables.len() implies valid(#[trigger] tables[i]) by {
        let name = table_names(fields)[i];
        lemma_table_valid(database, name, fields_of_table(fields, name));
    }
    lemma_catalog_valid(database, tables);
}

} // verus!
