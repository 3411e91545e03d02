//! The tables and columns of a database, gathered from the rows of its information schema.

use vstd::prelude::*;

use crate::codec::{json_text, natural_number};
use crate::json::{entry, entry_models, models, row_models, valid, Json, JsonModel};
use crate::order::{
    increasing, lemma_precedes_irreflexive, lemma_precedes_total, lemma_precedes_transitive,
    order_of, precedes, Order,
};
use crate::rows::{all_valid, cells_valid};
use crate::shape::lemma_description_valid;
use crate::text::{same, strip, strip_both, views, CharSet};

verus! {

/// A table, as it is gathered.
pub struct ObjectMeta {
    pub schema: String,
    pub name: String,
    pub columns: Vec<Json>,
}

/// One row of the information schema: a column of a table.
#[verifier::ext_equal]
pub struct Field {
    pub table: Seq<char>,
    pub column: Seq<char>,
    pub data_type: Seq<char>,
}

/// The text of a cell: of a string, its own; of another value, its JSON form without surrounding
/// quotation marks; none, where the row has no such cell.
pub open spec fn cell_text(row: Seq<JsonModel>, index: int) -> Seq<char> {
    if 0 <= index < row.len() {
        match row[index] {
            JsonModel::String(s) => s,
            other => strip_both(json_text(other), CharSet::One('"')),
        }
    } else {
        seq![]
    }
}

/// The text of a cell.
pub fn string_cell(row: &[Json], index: usize) -> (text: String)
    requires
        all_valid(models(row@)),
    ensures
        text@ == cell_text(models(row@), index as int),
{
    if index >= row.len() {
        return String::new();
    }
    proof {
        assert(models(row@)[index as int] == row@[index as int]@);
    }
    match row[index].as_str() {
        Some(text) => text.to_string(),
        None => strip(row[index].to_text().as_str(), CharSet::One('"')),
    }
}

/// Where a column of the name first stands: after the last one, where there is none.
pub open spec fn column_index(columns: Seq<Seq<char>>, name: Seq<char>) -> nat
    decreases columns.len(),
{
    if columns.len() == 0 || columns[0] == name {
        0
    } else {
        1 + column_index(columns.skip(1), name)
    }
}

proof fn lemma_column_index_is(columns: Seq<Seq<char>>, name: Seq<char>, i: int)
    requires
        0 <= i <= columns.len(),
        i < columns.len() ==> columns[i] == name,
        forall|k: int| 0 <= k < i ==> #[trigger] columns[k] != name,
    ensures
        column_index(columns, name) == i,
    decreases columns.len(),
{
    if columns.len() > 0 && i > 0 {
        assert(columns[0] != name);
        assert forall|k: int| 0 <= k < i - 1 implies #[trigger] columns.skip(1)[k] != name by {
            assert(columns.skip(1)[k] == columns[k + 1]);
        }
        lemma_column_index_is(columns.skip(1), name, i - 1);
    }
}

fn find_column(columns: &[String], name: &str) -> (index: Option<usize>)
    ensures
        index matches Some(i) ==> i == column_index(views(columns@), name@) && i < columns@.len(),
        index is None ==> column_index(views(columns@), name@) == columns@.len(),
{
    let mut i: usize = 0;
    while i < columns.len()
        invariant
            i <= columns@.len(),
            forall|k: int| 0 <= k < i ==> #[trigger] views(columns@)[k] != name@,
        decreases columns@.len() - i,
    {
        proof {
            assert(views(columns@)[i as int] == columns@[i as int]@);
        }
        if same(columns[i].as_str(), name) {
            proof {
                lemma_column_index_is(views(columns@), name@, i as int);
            }
            return Some(i);
        }
        i = i + 1;
    }
    proof {
        lemma_column_index_is(views(columns@), name@, i as int);
    }
    None
}

/// The fields that the rows give: those that name both a table and a column.
pub open spec fn fields_given(
    rows: Seq<Seq<JsonModel>>,
    table: int,
    column: int,
    data_type: int,
) -> Seq<Field>
    decreases rows.len(),
{
    if rows.len() == 0 {
        seq![]
    } else {
        let head = fields_given(rows.drop_last(), table, column, data_type);
        let row = rows.last();
        if cell_text(row, table).len() == 0 || cell_text(row, column).len() == 0 {
            head
        } else {
            head.push(
                Field {
                    table: cell_text(row, table),
                    column: cell_text(row, column),
                    data_type: cell_text(row, data_type),
                },
            )
        }
    }
}

/// The list with `name` at its place in the order, unless it is there.
pub open spec fn with_name(list: Seq<Seq<char>>, name: Seq<char>) -> Seq<Seq<char>>
    decreases list.len(),
{
    if list.len() == 0 {
        seq![name]
    } else if list[0] == name {
        list
    } else if precedes(name, list[0]) {
        seq![name] + list
    } else {
        seq![list[0]] + with_name(list.skip(1), name)
    }
}

/// The tables of the fields, each once, in order.
pub open spec fn table_names(fields: Seq<Field>) -> Seq<Seq<char>>
    decreases fields.len(),
{
    if fields.len() == 0 {
        seq![]
    } else {
        with_name(table_names(fields.drop_last()), fields.last().table)
    }
}

/// The fields of one table, in the order of the rows.
pub open spec fn fields_of_table(fields: Seq<Field>, table: Seq<char>) -> Seq<Field> {
    fields.filter(|f: Field| f.table == table)
}

/// A column as it is described: its place counts from one.
pub open spec fn column_description(field: Field, place: int) -> JsonModel {
    JsonModel::Object(
        seq![
            ("dataType"@, JsonModel::String(field.data_type)),
            ("name"@, JsonModel::String(field.column)),
            ("nullable"@, JsonModel::Bool(true)),
            ("ordinal"@, JsonModel::Number(natural_number(place as u64))),
        ],
    )
}

/// The columns of a table as they are described.
pub open spec fn column_descriptions(fields: Seq<Field>) -> Seq<JsonModel> {
    fields.map(|i: int, f: Field| column_description(f, i + 1))
}

/// A table as it is described.
pub open spec fn table_description(
    database: Seq<char>,
    name: Seq<char>,
    columns: Seq<JsonModel>,
) -> JsonModel {
    JsonModel::Object(
        seq![
            ("columns"@, JsonModel::Array(columns)),
            ("foreignKeys"@, JsonModel::Array(seq![])),
            ("indexes"@, JsonModel::Array(seq![])),
            ("kind"@, JsonModel::String("table"@)),
            ("name"@, JsonModel::String(name)),
            ("primaryKey"@, JsonModel::Array(seq![])),
            ("schema"@, JsonModel::String(database)),
        ],
    )
}

/// The tables of the fields as they are described.
pub open spec fn table_descriptions(database: Seq<char>, fields: Seq<Field>) -> Seq<JsonModel> {
    table_names(fields).map_values(
        |name: Seq<char>|
            table_description(
                database,
                name,
                column_descriptions(fields_of_table(fields, name)),
            ),
    )
}

/// A database as it is described: one schema with its tables.
pub open spec fn catalog(database: Seq<char>, tables: Seq<JsonModel>) -> JsonModel {
    JsonModel::Object(
        seq![
            (
                "schemas"@,
                JsonModel::Array(
                    seq![
                        JsonModel::Object(
                            seq![
                                ("name"@, JsonModel::String(database)),
                                ("objects"@, JsonModel::Array(tables)),
                            ],
                        ),
                    ],
                ),
            ),
        ],
    )
}

/// The description of a database that rows of its information schema give: without tables, where
/// one of the three columns is missing.
pub open spec fn described(
    database: Seq<char>,
    columns: Seq<Seq<char>>,
    rows: Seq<Seq<JsonModel>>,
) -> JsonModel {
    let table = column_index(columns, "table_name"@);
    let column = column_index(columns, "column_name"@);
    let data_type = column_index(columns, "data_type"@);
    if table < columns.len() && column < columns.len() && data_type < columns.len() {
        catalog(
            database,
            table_descriptions(
                database,
                fields_given(rows, table as int, column as int, data_type as int),
            ),
        )
    } else {
        catalog(database, seq![])
    }
}

fn describe_column(column: &str, data_type: &str, place: u64, Ghost(field): Ghost<Field>) -> (json:
    Json)
    requires
        field.column == column@,
        field.data_type == data_type@,
    ensures
        json@ == column_description(field, place as int),
{
    let entries = vec![
        entry("dataType", Json::text(data_type)),
        entry("name", Json::text(column)),
        entry("nullable", Json::flag(true)),
        entry("ordinal", Json::natural(place)),
    ];
    proof {
        assert(entry_models(entries@) =~= column_description(field, place as int)->Object_0);
    }
    Json::object(entries)
}

fn describe_table(object: ObjectMeta) -> (json: Json)
    ensures
        json@ == table_description(object.schema@, object.name@, models(object.columns@)),
{
    let ghost description = table_description(
        object.schema@,
        object.name@,
        models(object.columns@),
    );
    let none_f = Json::array(Vec::new());
    let none_i = Json::array(Vec::new());
    let none_p = Json::array(Vec::new());
    proof {
        assert(models(Seq::<Json>::empty()) =~= seq![]);
    }
    let entries = vec![
        entry("columns", Json::array(object.columns)),
        entry("foreignKeys", none_f),
        entry("indexes", none_i),
        entry("kind", Json::text("table")),
        entry("name", Json::text(object.name.as_str())),
        entry("primaryKey", none_p),
        entry("schema", Json::text(object.schema.as_str())),
    ];
    proof {
        assert(entry_models(entries@) =~= description->Object_0);
    }
    Json::object(entries)
}

/// A database with the given tables.
pub fn describe_database(database: &str, tables: Vec<Json>) -> (json: Json)
    ensures
        json@ == catalog(database@, models(tables@)),
{
    let ghost list = models(tables@);
    let inner = vec![entry("name", Json::text(database)), entry("objects", Json::array(tables))];
    proof {
        assert(entry_models(inner@) =~= seq![
            ("name"@, JsonModel::String(database@)),
            ("objects"@, JsonModel::Array(list)),
        ]);
    }
    let schemas = vec![Json::object(inner)];
    proof {
        assert(models(schemas@) =~= seq![
            JsonModel::Object(
                seq![
                    ("name"@, JsonModel::String(database@)),
                    ("objects"@, JsonModel::Array(list)),
                ],
            ),
        ]);
    }
    let outer = vec![entry("schemas", Json::array(schemas))];
    proof {
        assert(entry_models(outer@) =~= catalog(database@, list)->Object_0);
    }
    Json::object(outer)
}

/// Putting a name in its place keeps the order, and adds that name and no other.
proof fn lemma_with_name(list: Seq<Seq<char>>, name: Seq<char>)
    requires
        increasing(list),
    ensures
        increasing(with_name(list, name)),
        forall|x: Seq<char>| #[trigger]
            with_name(list, name).contains(x) <==> (list.contains(x) || x == name),
    decreases list.len(),
{
    let result = with_name(list, name);
    if list.len() == 0 {
        assert forall|x: Seq<char>| #[trigger] result.contains(x) <==> (list.contains(x) || x
            == name) by {
            assert(result[0] == name);
        }
    } else if list[0] == name {
        assert(list.contains(name));
    } else if precedes(name, list[0]) {
        assert forall|i: int, j: int| 0 <= i < j < result.len() implies precedes(
            #[trigger] result[i],
            #[trigger] result[j],
        ) by {
            if i == 0 {
                if j > 1 {
                    lemma_precedes_transitive(name, list[0], list[j - 1]);
                }
            } else {
                assert(precedes(list[i - 1], list[j - 1]));
            }
        }
        assert forall|x: Seq<char>| #[trigger] result.contains(x) <==> (list.contains(x) || x
            == name) by {
            assert(result[0] == name);
            if list.contains(x) {
                let k = choose|k: int| 0 <= k < list.len() && list[k] == x;
                assert(result[k + 1] == x);
            }
            if result.contains(x) {
                let k = choose|k: int| 0 <= k < result.len() && result[k] == x;
                if k > 0 {
                    assert(list[k - 1] == x);
                }
            }
        }
    } else {
        let rest = list.skip(1);
        assert forall|i: int, j: int| 0 <= i < j < rest.len() implies precedes(
            #[trigger] rest[i],
            #[trigger] rest[j],
        ) by {
            assert(precedes(list[i + 1], list[j + 1]));
        }
        lemma_with_name(rest, name);
        let tail = with_name(rest, name);
        lemma_precedes_total(list[0], name);
        assert forall|i: int, j: int| 0 <= i < j < result.len() implies precedes(
            #[trigger] result[i],
            #[trigger] result[j],
        ) by {
            assert(result[j] == tail[j - 1]);
            if i == 0 {
                assert(tail.contains(tail[j - 1]));
                if tail[j - 1] != name {
                    let k = choose|k: int| 0 <= k < rest.len() && rest[k] == tail[j - 1];
                    assert(precedes(list[0], list[k + 1]));
                }
            } else {
                assert(precedes(tail[i - 1], tail[j - 1]));
            }
        }
        assert forall|x: Seq<char>| #[trigger] result.contains(x) <==> (list.contains(x) || x
            == name) by {
            assert(tail.contains(x) <==> (rest.contains(x) || x == name));
            if result.contains(x) {
                let k = choose|k: int| 0 <= k < result.len() && result[k] == x;
                if k > 0 {
                    assert(tail[k - 1] == x);
                    if x != name {
                        let l = choose|l: int| 0 <= l < rest.len() && rest[l] == x;
                        assert(list[l + 1] == x);
                    }
                } else {
                    assert(list[0] == x);
                }
            }
            if list.contains(x) {
                let k = choose|k: int| 0 <= k < list.len() && list[k] == x;
                if k > 0 {
                    assert(rest[k - 1] == x);
                    let l = choose|l: int| 0 <= l < tail.len() && tail[l] == x;
                    assert(result[l + 1] == x);
                } else {
                    assert(result[0] == x);
                }
            }
            if x == name {
                let l = choose|l: int| 0 <= l < tail.len() && tail[l] == x;
                assert(result[l + 1] == x);
            }
        }
    }
}

/// The tables come in increasing order of their names, each once, and they are those of the
/// fields.
pub proof fn law_tables_ordered_and_complete(fields: Seq<Field>)
    ensures
        increasing(table_names(fields)),
        forall|name: Seq<char>| #[trigger]
            table_names(fields).contains(name) <==> exists|i: int|
                0 <= i < fields.len() && (#[trigger] fields[i]).table == name,
    decreases fields.len(),
{
    if fields.len() > 0 {
        let head = fields.drop_last();
        law_tables_ordered_and_complete(head);
        lemma_with_name(table_names(head), fields.last().table);
        assert forall|name: Seq<char>| #[trigger]
            table_names(fields).contains(name) <==> exists|i: int|
                0 <= i < fields.len() && (#[trigger] fields[i]).table == name by {
            assert(table_names(head).contains(name) <==> exists|i: int|
                0 <= i < head.len() && (#[trigger] head[i]).table == name);
            if exists|i: int| 0 <= i < head.len() && (#[trigger] head[i]).table == name {
                let i = choose|i: int| 0 <= i < head.len() && (#[trigger] head[i]).table == name;
                assert(fields[i].table == name);
            }
            if exists|i: int| 0 <= i < fields.len() && (#[trigger] fields[i]).table == name {
                let i = choose|i: int|
                    0 <= i < fields.len() && (#[trigger] fields[i]).table == name;
                if i < head.len() {
                    assert(head[i].table == name);
                }
            }
            if name == fields.last().table {
                assert(fields[fields.len() - 1].table == name);
            }
        }
    }
}

/// Where a name has its place.
proof fn lemma_place_of_name(list: Seq<Seq<char>>, name: Seq<char>, p: int)
    requires
        0 <= p <= list.len(),
        forall|k: int| 0 <= k < p ==> precedes(#[trigger] list[k], name),
        p < list.len() ==> list[p] == name || precedes(name, list[p]),
    ensures
        with_name(list, name) == if p < list.len() && list[p] == name {
            list
        } else {
            list.insert(p, name)
        },
    decreases list.len(),
{
    if p == 0 {
        if list.len() == 0 {
            assert(list.insert(0, name) =~= seq![name]);
        } else if list[0] != name {
            assert(list.insert(0, name) =~= seq![name] + list);
        }
    } else {
        lemma_precedes_irreflexive(name);
        assert(precedes(list[0], name));
        if precedes(name, list[0]) {
            lemma_precedes_transitive(name, list[0], name);
        }
        let rest = list.skip(1);
        assert forall|k: int| 0 <= k < p - 1 implies precedes(#[trigger] rest[k], name) by {
            assert(precedes(list[k + 1], name));
        }
        lemma_place_of_name(rest, name, p - 1);
        if p < list.len() && list[p] == name {
            assert(seq![list[0]] + rest =~= list);
        } else {
            assert(seq![list[0]] + rest.insert(p - 1, name) =~= list.insert(p, name));
        }
    }
}

/// The names of the tables gathered so far.
spec fn object_names(objects: Seq<ObjectMeta>) -> Seq<Seq<char>> {
    objects.map_values(|o: ObjectMeta| o.name@)
}

/// The table at `i` holds the columns of its fields.
spec fn holds_fields(
    objects: Seq<ObjectMeta>,
    database: Seq<char>,
    fields: Seq<Field>,
    i: int,
) -> bool {
    &&& objects[i].schema@ == database
    &&& models(objects[i].columns@) == column_descriptions(
        fields_of_table(fields, objects[i].name@),
    )
}

/// The tables of the fields have been gathered.
spec fn gathered(objects: Seq<ObjectMeta>, database: Seq<char>, fields: Seq<Field>) -> bool {
    &&& object_names(objects) == table_names(fields)
    &&& forall|i: int|
        0 <= i < objects.len() ==> #[trigger] holds_fields(objects, database, fields, i)
}

/// What one more field does to the fields of a table.
proof fn lemma_fields_of_table_push(fields: Seq<Field>, field: Field, table: Seq<char>)
    ensures
        fields_of_table(fields.push(field), table) == if field.table == table {
            fields_of_table(fields, table).push(field)
        } else {
            fields_of_table(fields, table)
        },
{
    fields.lemma_filter_push(field, |f: Field| f.table == table);
}

/// A table that no field names has no fields.
proof fn lemma_no_fields(fields: Seq<Field>, table: Seq<char>)
    requires
        forall|i: int| 0 <= i < fields.len() ==> (#[trigger] fields[i]).table != table,
    ensures
        fields_of_table(fields, table) == Seq::<Field>::empty(),
    decreases fields.len(),
{
    let keep = |f: Field| f.table == table;
    reveal(Seq::filter);
    if fields.len() > 0 {
        let head = fields.drop_last();
        assert forall|i: int| 0 <= i < head.len() implies (#[trigger] head[i]).table != table by {
            assert(head[i] == fields[i]);
        }
        lemma_no_fields(head, table);
        assert(fields.last() == fields[fields.len() - 1]);
        assert(fields.filter(keep) == head.filter(keep));
    }
    assert(fields.filter(keep) =~= Seq::<Field>::empty());
}

fn place_of(objects: &Vec<ObjectMeta>, table: &str) -> (p: usize)
    ensures
        p <= objects@.len(),
        forall|k: int| 0 <= k < p ==> precedes(#[trigger] object_names(objects@)[k], table@),
        p < objects@.len() ==> object_names(objects@)[p as int] == table@ || precedes(
            table@,
            object_names(objects@)[p as int],
        ),
{
    let mut p: usize = 0;
    while p < objects.len()
        invariant
            p <= objects@.len(),
            forall|k: int| 0 <= k < p ==> precedes(#[trigger] object_names(objects@)[k], table@),
        decreases objects@.len() - p,
    {
        proof {
            assert(object_names(objects@)[p as int] == objects@[p as int].name@);
        }
        match order_of(objects[p].name.as_str(), table) {
            Order::Before => {
                p = p + 1;
            },
            _ => return p,
        }
    }
    p
}

fn add_field(
    objects: &mut Vec<ObjectMeta>,
    database: &str,
    table: &str,
    column: &str,
    data_type: &str,
    Ghost(fields): Ghost<Seq<Field>>,
)
    requires
        gathered(old(objects)@, database@, fields),
        fields.len() < usize::MAX,
    ensures
        gathered(
            final(objects)@,
            database@,
            fields.push(Field { table: table@, column: column@, data_type: data_type@ }),
        ),
{
    let ghost field = Field { table: table@, column: column@, data_type: data_type@ };
    let ghost all = fields.push(field);
    let ghost before = objects@;
    let ghost list = object_names(before);
    proof {
        law_tables_ordered_and_complete(fields);
        assert(all.drop_last() =~= fields);
    }
    let n = objects.len();
    let p = place_of(objects, table);
    proof {
        lemma_place_of_name(list, table@, p as int);
        lemma_precedes_irreflexive(table@);
    }
    if p < n && same(objects[p].name.as_str(), table) {
        proof {
            assert(holds_fields(before, database@, fields, p as int));
            fields.lemma_filter_len(|f: Field| f.table == table@);
            assert(models(before[p as int].columns@).len() <= fields.len());
        }
        let place = objects[p].columns.len() + 1;
        let description = describe_column(column, data_type, place as u64, Ghost(field));
        objects[p].columns.push(description);
        proof {
            assert(object_names(objects@) =~= list);
            assert forall|i: int| 0 <= i < objects@.len() implies #[trigger] holds_fields(
                objects@,
                database@,
                all,
                i,
            ) by {
                assert(holds_fields(before, database@, fields, i));
                lemma_fields_of_table_push(fields, field, before[i].name@);
                if i == p {
                    let known = fields_of_table(fields, table@);
                    assert(objects@[i].columns@ == before[i].columns@.push(description));
                    assert(models(objects@[i].columns@) =~= models(before[i].columns@).push(
                        description@,
                    ));
                    assert(column_descriptions(known.push(field)) =~= column_descriptions(
                        known,
                    ).push(column_description(field, known.len() as int + 1)));
                } else {
                    assert(list[i] == before[i].name@);
                    if i > p {
                        assert(precedes(list[p as int], list[i]));
                    } else {
                        assert(precedes(list[i], table@));
                    }
                }
            }
        }
    } else {
        let description = describe_column(column, data_type, 1, Ghost(field));
        let columns = vec![description];
        let object = ObjectMeta {
            schema: database.to_string(),
            name: table.to_string(),
            columns,
        };
        objects.insert(p, object);
        proof {
            assert(object_names(objects@) =~= list.insert(p as int, table@));
            assert(!list.contains(table@)) by {
                if list.contains(table@) {
                    let k = choose|k: int| 0 <= k < list.len() && list[k] == table@;
                    if k < p {
                        assert(precedes(list[k], table@));
                    } else if k > p {
                        assert(precedes(list[p as int], list[k]));
                        lemma_precedes_transitive(table@, list[p as int], list[k]);
                    }
                }
            }
            assert forall|i: int| 0 <= i < fields.len() implies (#[trigger] fields[i]).table
                != table@ by {
                if fields[i].table == table@ {
                    assert(table_names(fields).contains(table@));
                }
            }
            lemma_no_fields(fields, table@);
            lemma_fields_of_table_push(fields, field, table@);
            assert forall|i: int| 0 <= i < objects@.len() implies #[trigger] holds_fields(
                objects@,
                database@,
                all,
                i,
            ) by {
                if i == p {
                    assert(objects@[i] == object);
                    assert(models(columns@) =~= column_descriptions(fields_of_table(all, table@)));
                } else {
                    let k = if i < p {
                        i
                    } else {
                        i - 1
                    };
                    assert(objects@[i] == before[k]);
                    assert(holds_fields(before, database@, fields, k));
                    assert(list[k] == before[k].name@);
                    assert(list.contains(list[k]));
                    lemma_fields_of_table_push(fields, field, before[k].name@);
                }
            }
        }
    }
}

/// There are no more fields than rows.
proof fn lemma_fields_given_len(
    rows: Seq<Seq<JsonModel>>,
    table: int,
    column: int,
    data_type: int,
)
    ensures
        fields_given(rows, table, column, data_type).len() <= rows.len(),
    decreases rows.len(),
{
    if rows.len() > 0 {
        lemma_fields_given_len(rows.drop_last(), table, column, data_type);
    }
}

/// The description of a database that rows of its information schema give.
pub fn metadata_from_columns(database: &str, columns: &[String], rows: Vec<Vec<Json>>) -> (metadata:
    Json)
    requires
        cells_valid(row_models(rows@)),
    ensures
        metadata@ == described(database@, views(columns@), row_models(rows@)),
        valid(metadata@),
{
    proof {
        lemma_description_valid(database@, views(columns@), row_models(rows@));
        assert(models(Seq::<Json>::empty()) =~= seq![]);
    }
    let (table_idx, column_idx, type_idx) = match (
        find_column(columns, "table_name"),
        find_column(columns, "column_name"),
        find_column(columns, "data_type"),
    ) {
        (Some(t), Some(c), Some(d)) => (t, c, d),
        _ => return describe_database(database, Vec::new()),
    };
    let ghost given = row_models(rows@);
    let ghost (t, c, d) = (table_idx as int, column_idx as int, type_idx as int);
    let mut objects: Vec<ObjectMeta> = Vec::new();
    let n = rows.len();
    let mut i: usize = 0;
    proof {
        assert(object_names(objects@) =~= table_names(fields_given(given.take(0), t, c, d)));
    }
    while i < n
        invariant
            n == rows@.len(),
            given == row_models(rows@),
            cells_valid(given),
            t == table_idx,
            c == column_idx,
            d == type_idx,
            i <= n,
            gathered(objects@, database@, fields_given(given.take(i as int), t, c, d)),
        decreases n - i,
    {
        let row = rows[i].as_slice();
        let ghost done = fields_given(given.take(i as int), t, c, d);
        proof {
            assert(given[i as int] == models(rows@[i as int]@));
            let now = given.take(i + 1);
            assert(now.drop_last() =~= given.take(i as int));
            assert(now.last() == given[i as int]);
            lemma_fields_given_len(given.take(i as int), t, c, d);
        }
        let table = string_cell(row, table_idx);
        let column = string_cell(row, column_idx);
        if !table.as_str().is_empty() && !column.as_str().is_empty() {
            let data_type = string_cell(row, type_idx);
            add_field(
                &mut objects,
                database,
                table.as_str(),
                column.as_str(),
                data_type.as_str(),
                Ghost(done),
            );
        }
        i = i + 1;
    }
    proof {
        assert(given.take(n as int) =~= given);
    }
    let ghost fields = fields_given(given, t, c, d);
    let ghost gatherings = objects@;
    let ghost wanted = table_descriptions(database@, fields);
    let mut tables: Vec<Json> = Vec::new();
    for object in it: objects.into_iter()
        invariant
            it.seq() == gatherings,
            gathered(gatherings, database@, fields),
            wanted == table_descriptions(database@, fields),
            tables@.len() == it.index(),
            forall|k: int| 0 <= k < it.index() ==> (#[trigger] tables@[k])@ == wanted[k],
    {
        proof {
            let k = it.index();
            assert(holds_fields(gatherings, database@, fields, k));
            assert(object_names(gatherings)[k] == object.name@);
        }
        tables.push(describe_table(object));
    }
    proof {
        assert(object_names(gatherings).len() == gatherings.len());
        assert(models(tables@) =~= wanted);
    }
    describe_database(database, tables)
}

} // verus!
