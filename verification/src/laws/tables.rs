//! The tables that responses make, and the description of a database.

use vstd::prelude::*;

use crate::codec::{json_document, json_text, natural_number};
use crate::json::{
    key_index, keys, lemma_key_index, lemma_key_index_is, lookup, valid, JsonModel,
};
use crate::metadata::{
    cell_text, column_descriptions, column_index, described, fields_given, fields_of_table,
    law_tables_ordered_and_complete, table_descriptions, table_names, Field,
};
use crate::order::{lemma_precedes_irreflexive, precedes};
use crate::rows::{
    all_keys, capped, distinct, document_rows, documents_given, documents_of, line_texts,
    response_rows, row_cells, row_keys, table_of,
};
use crate::text::{split_at, strip_both, trimmed, CharSet};

verus! {

/// The distinct texts of a list are each there once, and they are those of the list.
proof fn lemma_distinct(list: Seq<Seq<char>>)
    ensures
        distinct(list).no_duplicates(),
        forall|x: Seq<char>| #[trigger] distinct(list).contains(x) <==> list.contains(x),
    decreases list.len(),
{
    if list.len() > 0 {
        let init = list.drop_last();
        let head = distinct(init);
        let last = list.last();
        lemma_distinct(init);
        assert forall|x: Seq<char>| #[trigger]
            distinct(list).contains(x) <==> list.contains(x) by {
            if list.contains(x) {
                let k = choose|k: int| 0 <= k < list.len() && list[k] == x;
                if k < init.len() {
                    assert(init[k] == x);
                    assert(head.contains(x));
                }
                if !head.contains(last) {
                    if x == last {
                        assert(distinct(list)[head.len() as int] == x);
                    } else {
                        let j = choose|j: int| 0 <= j < head.len() && head[j] == x;
                        assert(distinct(list)[j] == x);
                    }
                }
            }
            if distinct(list).contains(x) {
                if head.contains(x) {
                    let k = choose|k: int| 0 <= k < init.len() && init[k] == x;
                    assert(list[k] == x);
                } else {
                    let j = choose|j: int| 0 <= j < distinct(list).len() && distinct(list)[j] == x;
                    if j < head.len() {
                        assert(head[j] == x);
                    }
                    assert(list[list.len() - 1] == x);
                }
            }
        }
        if !head.contains(last) {
            let result = head.push(last);
            assert forall|i: int, j: int|
                0 <= i < result.len() && 0 <= j < result.len() && i != j implies result[i]
                != result[j] by {
                if i == head.len() {
                    assert(head[j] == result[j]);
                } else if j == head.len() {
                    assert(head[i] == result[i]);
                }
            }
        }
    }
}

/// The keys of all rows are the keys of the rows.
proof fn lemma_all_keys(rows: Seq<JsonModel>, key: Seq<char>)
    ensures
        all_keys(rows).contains(key) <==> exists|i: int|
            0 <= i < rows.len() && row_keys(#[trigger] rows[i]).contains(key),
    decreases rows.len(),
{
    if rows.len() > 0 {
        let init = rows.drop_last();
        let head = all_keys(init);
        let tail = row_keys(rows.last());
        lemma_all_keys(init, key);
        if all_keys(rows).contains(key) {
            let k = choose|k: int| 0 <= k < all_keys(rows).len() && all_keys(rows)[k] == key;
            if k < head.len() {
                assert(head[k] == key);
                let i = choose|i: int|
                    0 <= i < init.len() && row_keys(#[trigger] init[i]).contains(key);
                assert(rows[i] == init[i]);
            } else {
                assert(tail[k - head.len()] == key);
                assert(row_keys(rows[rows.len() - 1]).contains(key));
            }
        }
        if exists|i: int| 0 <= i < rows.len() && row_keys(#[trigger] rows[i]).contains(key) {
            let i = choose|i: int|
                0 <= i < rows.len() && row_keys(#[trigger] rows[i]).contains(key);
            if i < init.len() {
                assert(init[i] == rows[i]);
                let k = choose|k: int| 0 <= k < head.len() && head[k] == key;
                assert(all_keys(rows)[k] == key);
            } else {
                let k = choose|k: int| 0 <= k < tail.len() && tail[k] == key;
                assert(all_keys(rows)[head.len() + k] == key);
            }
        }
    }
}

/// The columns of a table are each there once. Where any row has a key, they are the keys of the
/// rows, those left out too; where none has, there is one column, or none for no row.
pub proof fn law_columns_are_the_keys(rows: Seq<JsonModel>, cap: nat)
    ensures
        table_of(rows, cap).columns.no_duplicates(),
        all_keys(rows).len() > 0 ==> forall|key: Seq<char>| #[trigger]
            table_of(rows, cap).columns.contains(key) <==> exists|i: int|
                0 <= i < rows.len() && row_keys(#[trigger] rows[i]).contains(key),
        all_keys(rows).len() == 0 && rows.len() > 0 ==> table_of(rows, cap).columns
            == seq!["value"@],
        rows.len() == 0 ==> table_of(rows, cap).columns.len() == 0,
{
    lemma_distinct(all_keys(rows));
    let columns = distinct(all_keys(rows));
    if all_keys(rows).len() > 0 {
        assert(all_keys(rows).contains(all_keys(rows)[0]));
        assert(columns.contains(all_keys(rows)[0]));
        assert forall|key: Seq<char>| #[trigger]
            table_of(rows, cap).columns.contains(key) <==> exists|i: int|
                0 <= i < rows.len() && row_keys(#[trigger] rows[i]).contains(key) by {
            lemma_all_keys(rows, key);
        }
    }
}

/// Of the rows the first are kept, as many as the cap allows, and a table says whether some were
/// left out.
pub proof fn law_rows_are_capped(rows: Seq<JsonModel>, cap: nat)
    ensures
        table_of(rows, cap).rows.len() <= cap,
        table_of(rows, cap).rows.len() <= rows.len(),
        table_of(rows, cap).truncated <==> table_of(rows, cap).rows.len() < rows.len(),
        forall|i: int|
            0 <= i < table_of(rows, cap).rows.len() ==> #[trigger] table_of(rows, cap).rows[i]
                == row_cells(rows[i], distinct(all_keys(rows))),
{
    assert(rows.len() > cap ==> rows.take(cap as int).len() == cap);
    assert forall|i: int| 0 <= i < table_of(rows, cap).rows.len() implies #[trigger] table_of(
        rows,
        cap,
    ).rows[i] == row_cells(rows[i], distinct(all_keys(rows))) by {
        assert(capped(rows, cap)[i] == rows[i]);
    }
}

/// A row that is an object has one cell for each column.
pub proof fn law_rows_are_as_wide_as_the_table(rows: Seq<JsonModel>, cap: nat, i: int)
    requires
        0 <= i < table_of(rows, cap).rows.len(),
        rows[i] is Object,
        all_keys(rows).len() > 0,
    ensures
        table_of(rows, cap).rows[i].len() == table_of(rows, cap).columns.len(),
{
    law_rows_are_capped(rows, cap);
    lemma_distinct(all_keys(rows));
    assert(all_keys(rows).contains(all_keys(rows)[0]));
    assert(distinct(all_keys(rows)).contains(all_keys(rows)[0]));
    assert(table_of(rows, cap).rows[i] == row_cells(rows[i], distinct(all_keys(rows))));
}

/// A larger cap shows the same columns, and the same rows before others.
pub proof fn law_cap_only_cuts(rows: Seq<JsonModel>, small: nat, large: nat)
    requires
        small <= large,
    ensures
        table_of(rows, small).columns == table_of(rows, large).columns,
        table_of(rows, small).rows.is_prefix_of(table_of(rows, large).rows),
{
    law_rows_are_capped(rows, small);
    law_rows_are_capped(rows, large);
    let a = table_of(rows, small).rows;
    let b = table_of(rows, large).rows;
    assert(a.len() <= b.len());
    assert forall|i: int| 0 <= i < a.len() implies a[i] == b[i] by {
        assert(a[i] == row_cells(rows[i], distinct(all_keys(rows))));
        assert(b[i] == row_cells(rows[i], distinct(all_keys(rows))));
    }
    assert(a =~= b.take(a.len() as int));
}

/// `m` describes a database of the name with the tables: one schema, and nothing beside it.
pub open spec fn one_schema(m: JsonModel, database: Seq<char>, tables: Seq<JsonModel>) -> bool {
    m == JsonModel::Object(
        seq![
            (
                "schemas"@,
                JsonModel::Array(
                    seq![
                        JsonModel::Object(
                            seq![
                                ("name"@, JsonModel::String(database)),
                                ("objects"@, JsonModel::Array(tables)),
                            ],
                        ),
                    ],
                ),
            ),
        ],
    )
}

/// Every field of the information schema stands among the columns of its table, which is
/// described, and no table has a column of another.
pub proof fn law_fields_are_described(fields: Seq<Field>, i: int)
    requires
        0 <= i < fields.len(),
    ensures
        table_names(fields).contains(fields[i].table),
        fields_of_table(fields, fields[i].table).contains(fields[i]),
        forall|name: Seq<char>, k: int|
            0 <= k < fields_of_table(fields, name).len() ==> (#[trigger] fields_of_table(
                fields,
                name,
            )[k]).table == name,
{
    law_tables_ordered_and_complete(fields);
    let table = fields[i].table;
    fields.lemma_filter_contains(|f: Field| f.table == table, i);
    assert forall|name: Seq<char>, k: int|
        0 <= k < fields_of_table(fields, name).len() implies (#[trigger] fields_of_table(
        fields,
        name,
    )[k]).table == name by {
        fields.lemma_filter_pred(|f: Field| f.table == name, k);
    }
}

/// The place where a text first stands in a list.
proof fn lemma_first_place(list: Seq<Seq<char>>, text: Seq<char>) -> (p: int)
    requires
        list.contains(text),
    ensures
        0 <= p < list.len(),
        list[p] == text,
        forall|q: int| 0 <= q < p ==> #[trigger] list[q] != text,
    decreases list.len(),
{
    if list[0] == text {
        0
    } else {
        let rest = list.skip(1);
        let k = choose|k: int| 0 <= k < list.len() && list[k] == text;
        assert(rest[k - 1] == text);
        let p = lemma_first_place(rest, text);
        assert forall|q: int| 0 <= q < p + 1 implies #[trigger] list[q] != text by {
            if q > 0 {
                assert(rest[q - 1] == list[q]);
            }
        }
        assert(rest[p] == list[p + 1]);
        p + 1
    }
}

/// `a` stands in the list before `b` first does.
pub open spec fn comes_before(list: Seq<Seq<char>>, a: Seq<char>, b: Seq<char>) -> bool {
    exists|p: int|
        0 <= p < list.len() && #[trigger] list[p] == a && forall|q: int|
            0 <= q <= p ==> #[trigger] list[q] != b
}

/// Texts come in the order in which they first occur, each once.
pub proof fn law_distinct_texts_keep_their_order(list: Seq<Seq<char>>, i: int, j: int)
    requires
        0 <= i < j < distinct(list).len(),
    ensures
        comes_before(list, distinct(list)[i], distinct(list)[j]),
    decreases list.len(),
{
    lemma_distinct(list);
    let d = distinct(list);
    let init = list.drop_last();
    let head = distinct(init);
    lemma_distinct(init);
    if j < head.len() {
        law_distinct_texts_keep_their_order(init, i, j);
        let p = choose|p: int|
            0 <= p < init.len() && #[trigger] init[p] == head[i] && forall|q: int|
                0 <= q <= p ==> #[trigger] init[q] != head[j];
        assert(list[p] == d[i]);
        assert forall|q: int| 0 <= q <= p implies #[trigger] list[q] != d[j] by {
            assert(init[q] == list[q]);
        }
    } else {
        assert(head.contains(d[i])) by {
            assert(head[i] == d[i]);
        }
        let p = lemma_first_place(init, d[i]);
        assert(list[p] == d[i]);
        assert forall|q: int| 0 <= q <= p implies #[trigger] list[q] != d[j] by {
            if list[q] == d[j] {
                assert(init[q] == d[j]);
                assert(init.contains(d[j]));
                assert(head.contains(d[j]));
            }
        }
    }
}

/// The keys of rows are those of the one row after those of the other: of an object its keys in
/// their order, of anything else none.
pub proof fn law_keys_of_rows(
    a: Seq<JsonModel>,
    row: JsonModel,
    entries: Seq<(Seq<char>, JsonModel)>,
    i: int,
)
    ensures
        all_keys(seq![]).len() == 0,
        all_keys(a.push(row)) == all_keys(a) + row_keys(row),
        row !is Object ==> row_keys(row).len() == 0,
        row_keys(JsonModel::Object(entries)).len() == entries.len(),
        0 <= i < entries.len() ==> row_keys(JsonModel::Object(entries))[i] == entries[i].0,
{
    assert(a.push(row).drop_last() =~= a);
}

/// The columns of a table come in the order in which the rows first hold them as keys.
pub proof fn law_columns_keep_their_order(rows: Seq<JsonModel>, cap: nat, i: int, j: int)
    requires
        all_keys(rows).len() > 0,
        0 <= i < j < table_of(rows, cap).columns.len(),
    ensures
        comes_before(
            all_keys(rows),
            table_of(rows, cap).columns[i],
            table_of(rows, cap).columns[j],
        ),
{
    lemma_distinct(all_keys(rows));
    assert(all_keys(rows).contains(all_keys(rows)[0]));
    assert(distinct(all_keys(rows)).contains(all_keys(rows)[0]));
    law_distinct_texts_keep_their_order(all_keys(rows), i, j);
}

/// As many rows are kept as there are, up to the cap, and rows were left out exactly where there
/// are more.
pub proof fn law_number_of_rows(rows: Seq<JsonModel>, cap: nat)
    ensures
        rows.len() <= cap ==> table_of(rows, cap).rows.len() == rows.len(),
        rows.len() > cap ==> table_of(rows, cap).rows.len() == cap,
        table_of(rows, cap).truncated <==> rows.len() > cap,
{
}

/// A cell holds what its row holds under the name of its column, whatever that is, and is null
/// where the row holds nothing there. A row that is no object is its own only cell.
pub proof fn law_cells_are_what_rows_hold(rows: Seq<JsonModel>, cap: nat, i: int, j: int, k: int)
    requires
        0 <= i < table_of(rows, cap).rows.len(),
        0 <= j < table_of(rows, cap).rows[i].len(),
    ensures
        rows[i] matches JsonModel::Object(entries) ==> {
            let name = table_of(rows, cap).columns[j];
            let cell = table_of(rows, cap).rows[i][j];
            &&& j < table_of(rows, cap).columns.len()
            &&& 0 <= k < entries.len() && entries[k].0 == name && (forall|q: int|
                0 <= q < k ==> (#[trigger] entries[q]).0 != name) ==> cell == entries[k].1
            &&& (forall|q: int| 0 <= q < entries.len() ==> (#[trigger] entries[q]).0 != name)
                ==> cell == JsonModel::Null
        },
        rows[i] !is Object ==> table_of(rows, cap).rows[i] == seq![rows[i]],
{
    let columns = distinct(all_keys(rows));
    law_rows_are_capped(rows, cap);
    assert(table_of(rows, cap).rows[i] == row_cells(rows[i], columns));
    if let JsonModel::Object(entries) = rows[i] {
        let name = columns[j];
        lemma_key_index(entries, name);
        if 0 <= k < entries.len() && entries[k].0 == name && (forall|q: int|
            0 <= q < k ==> (#[trigger] entries[q]).0 != name) {
            lemma_key_index_is(entries, name, k);
        }
        if forall|q: int| 0 <= q < entries.len() ==> (#[trigger] entries[q]).0 != name {
            let p = key_index(entries, name) as int;
            if p < entries.len() {
                assert(entries[p].0 != name);
            }
        }
    }
}

/// In a valid object there is one value under each key, and it is the cell of its column.
pub proof fn law_values_reach_their_cells(
    rows: Seq<JsonModel>,
    cap: nat,
    i: int,
    k: int,
) -> (j: int)
    requires
        0 <= i < table_of(rows, cap).rows.len(),
        valid(rows[i]),
        rows[i] is Object,
        0 <= k < rows[i]->Object_0.len(),
    ensures
        0 <= j < table_of(rows, cap).columns.len(),
        table_of(rows, cap).columns[j] == rows[i]->Object_0[k].0,
        j < table_of(rows, cap).rows[i].len(),
        table_of(rows, cap).rows[i][j] == rows[i]->Object_0[k].1,
{
    let entries = rows[i]->Object_0;
    let key = entries[k].0;
    let list = all_keys(rows);
    law_number_of_rows(rows, cap);
    assert(row_keys(rows[i])[k] == key);
    assert(row_keys(rows[i]).contains(key));
    lemma_all_keys(rows, key);
    lemma_distinct(list);
    let columns = distinct(list);
    assert(columns.contains(key));
    let j = choose|j: int| 0 <= j < columns.len() && columns[j] == key;
    law_rows_are_capped(rows, cap);
    assert(table_of(rows, cap).rows[i] == row_cells(rows[i], columns));
    assert forall|q: int| 0 <= q < k implies (#[trigger] entries[q]).0 != key by {
        let names = keys(entries);
        assert(precedes(names[q], names[k]));
        lemma_precedes_irreflexive(key);
    }
    law_cells_are_what_rows_hold(rows, cap, i, j, k);
    j
}

/// The rows of a document are the items of an array, or of an array that an object holds under
/// `data`; any other document is the only row.
pub proof fn law_rows_of_a_document(m: JsonModel)
    ensures
        m matches JsonModel::Array(items) ==> document_rows(m) == items,
        m matches JsonModel::Object(entries) ==> (match lookup(entries, "data"@) {
            Some(JsonModel::Array(items)) => document_rows(m) == items,
            _ => document_rows(m) == seq![m],
        }),
        m !is Array && m !is Object ==> document_rows(m) == seq![m],
{
}

/// The rows of a response are those of the document that it is, without the white space around it.
/// Where it is none they are the documents of its lines; a blank response has none.
pub proof fn law_rows_of_a_response(text: Seq<char>)
    ensures
        trimmed(text).len() == 0 ==> response_rows(text).len() == 0,
        trimmed(text).len() > 0 ==> (match json_document(trimmed(text)) {
            Some(m) => response_rows(text) == document_rows(m),
            None => response_rows(text) == documents_given(
                line_texts(split_at(text, '\n')).map_values(|t: Seq<char>| json_document(t)),
            ),
        }),
{
    let f = |t: Seq<char>| json_document(t);
    assert(documents_of(line_texts(split_at(text, '\n'))) =~= line_texts(
        split_at(text, '\n'),
    ).map_values(f));
}

/// Lines are trimmed, and blank ones are passed over.
pub proof fn law_lines_are_trimmed(lines: Seq<Seq<char>>, line: Seq<char>)
    ensures
        line_texts(seq![]).len() == 0,
        trimmed(line).len() > 0 ==> line_texts(lines.push(line)) == line_texts(lines).push(
            trimmed(line),
        ),
        trimmed(line).len() == 0 ==> line_texts(lines.push(line)) == line_texts(lines),
{
    assert(lines.push(line).drop_last() =~= lines);
}

/// A column as it is described.
pub open spec fn column_object(name: Seq<char>, data_type: Seq<char>, place: int) -> JsonModel {
    JsonModel::Object(
        seq![
            ("dataType"@, JsonModel::String(data_type)),
            ("name"@, JsonModel::String(name)),
            ("nullable"@, JsonModel::Bool(true)),
            ("ordinal"@, JsonModel::Number(natural_number(place as u64))),
        ],
    )
}

/// A table as it is described.
pub open spec fn table_object(
    database: Seq<char>,
    name: Seq<char>,
    columns: Seq<JsonModel>,
) -> JsonModel {
    JsonModel::Object(
        seq![
            ("columns"@, JsonModel::Array(columns)),
            ("foreignKeys"@, JsonModel::Array(seq![])),
            ("indexes"@, JsonModel::Array(seq![])),
            ("kind"@, JsonModel::String("table"@)),
            ("name"@, JsonModel::String(name)),
            ("primaryKey"@, JsonModel::Array(seq![])),
            ("schema"@, JsonModel::String(database)),
        ],
    )
}

/// The text of a cell is that of a string, character for character, the JSON form of anything else
/// without quotation marks around it, and empty where there is no cell.
pub proof fn law_text_of_a_cell(row: Seq<JsonModel>, index: int)
    ensures
        0 <= index < row.len() ==> (match row[index] {
            JsonModel::String(s) => cell_text(row, index) == s,
            other => cell_text(row, index) == strip_both(json_text(other), CharSet::One('"')),
        }),
        !(0 <= index < row.len()) ==> cell_text(row, index).len() == 0,
{
}

/// Each row that names a table and a column is one field more, with the texts of its three cells;
/// a row that does not is passed over.
pub proof fn law_rows_are_fields(
    rows: Seq<Seq<JsonModel>>,
    row: Seq<JsonModel>,
    table: int,
    column: int,
    data_type: int,
)
    ensures
        fields_given(seq![], table, column, data_type).len() == 0,
        fields_given(rows.push(row), table, column, data_type) == (if cell_text(row, table).len()
            > 0 && cell_text(row, column).len() > 0 {
            fields_given(rows, table, column, data_type).push(
                Field {
                    table: cell_text(row, table),
                    column: cell_text(row, column),
                    data_type: cell_text(row, data_type),
                },
            )
        } else {
            fields_given(rows, table, column, data_type)
        }),
{
    assert(rows.push(row).drop_last() =~= rows);
}

/// The fields of a table are those that name it, in their order.
pub proof fn law_fields_by_table(fields: Seq<Field>, field: Field, table: Seq<char>)
    ensures
        fields_of_table(seq![], table).len() == 0,
        fields_of_table(fields.push(field), table) == (if field.table == table {
            fields_of_table(fields, table).push(field)
        } else {
            fields_of_table(fields, table)
        }),
{
    let p = |f: Field| f.table == table;
    fields.lemma_filter_push(field, p);
    assert(Seq::<Field>::empty().filter(p).len() == 0) by {
        reveal(Seq::filter);
    }
}

/// A column is found where its name first stands.
pub proof fn law_column_is_found(columns: Seq<Seq<char>>, name: Seq<char>)
    ensures
        column_index(columns, name) <= columns.len(),
        column_index(columns, name) < columns.len() ==> columns[column_index(columns, name) as int]
            == name,
        forall|k: int| 0 <= k < column_index(columns, name) ==> #[trigger] columns[k] != name,
    decreases columns.len(),
{
    if columns.len() > 0 && columns[0] != name {
        let rest = columns.skip(1);
        law_column_is_found(rest, name);
        assert forall|k: int| 0 <= k < column_index(columns, name) implies #[trigger] columns[k]
            != name by {
            if k > 0 {
                assert(rest[k - 1] == columns[k]);
            }
        }
    }
}

/// The columns of a table as they are described, counted from one.
pub open spec fn columns_of(fields: Seq<Field>, table: Seq<char>) -> Seq<JsonModel> {
    fields_of_table(fields, table).map(
        |i: int, f: Field| column_object(f.column, f.data_type, i + 1),
    )
}

/// A description holds the database, and its tables in order, each with its columns counted from
/// one. Without one of the three columns of the information schema it holds no table.
pub proof fn law_shape_of_a_description(
    database: Seq<char>,
    columns: Seq<Seq<char>>,
    rows: Seq<Seq<JsonModel>>,
)
    ensures
        ({
            let table = column_index(columns, "table_name"@) as int;
            let column = column_index(columns, "column_name"@) as int;
            let data_type = column_index(columns, "data_type"@) as int;
            let fields = fields_given(rows, table, column, data_type);
            let n = columns.len();
            one_schema(
                described(database, columns, rows),
                database,
                if table < n && column < n && data_type < n {
                    table_names(fields).map_values(
                        |name: Seq<char>| table_object(database, name, columns_of(fields, name)),
                    )
                } else {
                    seq![]
                },
            )
        }),
{
    let table = column_index(columns, "table_name"@) as int;
    let column = column_index(columns, "column_name"@) as int;
    let data_type = column_index(columns, "data_type"@) as int;
    let fields = fields_given(rows, table, column, data_type);
    let wanted = table_names(fields).map_values(
        |name: Seq<char>| table_object(database, name, columns_of(fields, name)),
    );
    let given = table_descriptions(database, fields);
    assert forall|a: int| 0 <= a < given.len() implies given[a] == wanted[a] by {
        let name = table_names(fields)[a];
        assert(column_descriptions(fields_of_table(fields, name)) =~= columns_of(fields, name));
    }
    assert(given =~= wanted);
}

/// In the description stands a table of exactly this name, and among its columns one of exactly
/// this name and data type, in place `b` and counted from one.
pub open spec fn shows(
    m: JsonModel,
    database: Seq<char>,
    tables: Seq<JsonModel>,
    a: int,
    columns: Seq<JsonModel>,
    b: int,
    field: Field,
) -> bool {
    &&& one_schema(m, database, tables)
    &&& 0 <= a < tables.len()
    &&& tables[a] == table_object(database, field.table, columns)
    &&& 0 <= b < columns.len()
    &&& columns[b] == column_object(field.column, field.data_type, b + 1)
}

/// A row with the given texts is a field of them.
proof fn lemma_row_is_field(
    rows: Seq<Seq<JsonModel>>,
    i: int,
    table: int,
    column: int,
    data_type: int,
) -> (k: int)
    requires
        0 <= i < rows.len(),
        cell_text(rows[i], table).len() > 0,
        cell_text(rows[i], column).len() > 0,
    ensures
        0 <= k < fields_given(rows, table, column, data_type).len(),
        fields_given(rows, table, column, data_type)[k] == (Field {
            table: cell_text(rows[i], table),
            column: cell_text(rows[i], column),
            data_type: cell_text(rows[i], data_type),
        }),
    decreases rows.len(),
{
    let head = rows.drop_last();
    let fields = fields_given(head, table, column, data_type);
    if i < head.len() {
        assert(head[i] == rows[i]);
        lemma_row_is_field(head, i, table, column, data_type)
    } else {
        fields.len() as int
    }
}

/// Every row of the information schema whose three cells are strings, those of the table and of the
/// column not empty, is described: there is a table whose name is exactly the first, and among its
/// columns one whose name and data type are exactly the others, character for character.
pub proof fn law_rows_are_described(
    database: Seq<char>,
    columns: Seq<Seq<char>>,
    rows: Seq<Seq<JsonModel>>,
    i: int,
    field: Field,
)
    requires
        columns.contains("table_name"@),
        columns.contains("column_name"@),
        columns.contains("data_type"@),
        0 <= i < rows.len(),
        ({
            let row = rows[i];
            let t = column_index(columns, "table_name"@) as int;
            let c = column_index(columns, "column_name"@) as int;
            let d = column_index(columns, "data_type"@) as int;
            &&& t < row.len() && row[t] == JsonModel::String(field.table)
            &&& c < row.len() && row[c] == JsonModel::String(field.column)
            &&& d < row.len() && row[d] == JsonModel::String(field.data_type)
        }),
        field.table.len() > 0,
        field.column.len() > 0,
    ensures
        exists|tables: Seq<JsonModel>, a: int, cells: Seq<JsonModel>, b: int| #[trigger]
            shows(described(database, columns, rows), database, tables, a, cells, b, field),
{
    let t = column_index(columns, "table_name"@) as int;
    let c = column_index(columns, "column_name"@) as int;
    let d = column_index(columns, "data_type"@) as int;
    law_column_is_found(columns, "table_name"@);
    law_column_is_found(columns, "column_name"@);
    law_column_is_found(columns, "data_type"@);
    lemma_found(columns, "table_name"@);
    lemma_found(columns, "column_name"@);
    lemma_found(columns, "data_type"@);
    law_shape_of_a_description(database, columns, rows);
    let fields = fields_given(rows, t, c, d);
    let k = lemma_row_is_field(rows, i, t, c, d);
    assert(fields[k] =~= field);
    law_fields_are_described(fields, k);
    let names = table_names(fields);
    let a = choose|a: int| 0 <= a < names.len() && names[a] == field.table;
    let own = fields_of_table(fields, field.table);
    let b = choose|b: int| 0 <= b < own.len() && own[b] == field;
    let tables = names.map_values(
        |name: Seq<char>| table_object(database, name, columns_of(fields, name)),
    );
    let cells = columns_of(fields, field.table);
    assert(cells[b] == column_object(field.column, field.data_type, b + 1));
    assert(shows(described(database, columns, rows), database, tables, a, cells, b, field));
}

/// A name that is there is found before the end.
proof fn lemma_found(columns: Seq<Seq<char>>, name: Seq<char>)
    requires
        columns.contains(name),
    ensures
        column_index(columns, name) < columns.len(),
{
    law_column_is_found(columns, name);
    let k = choose|k: int| 0 <= k < columns.len() && columns[k] == name;
    if column_index(columns, name) >= columns.len() {
        assert(columns[k] != name);
    }
}

/// A field comes from a row.
proof fn lemma_field_is_row(
    rows: Seq<Seq<JsonModel>>,
    k: int,
    table: int,
    column: int,
    data_type: int,
) -> (i: int)
    requires
        0 <= k < fields_given(rows, table, column, data_type).len(),
    ensures
        0 <= i < rows.len(),
        fields_given(rows, table, column, data_type)[k] == (Field {
            table: cell_text(rows[i], table),
            column: cell_text(rows[i], column),
            data_type: cell_text(rows[i], data_type),
        }),
        cell_text(rows[i], table).len() > 0,
        cell_text(rows[i], column).len() > 0,
    decreases rows.len(),
{
    let head = rows.drop_last();
    let fields = fields_given(head, table, column, data_type);
    if k < fields.len() {
        let i = lemma_field_is_row(head, k, table, column, data_type);
        assert(head[i] == rows[i]);
        i
    } else {
        rows.len() - 1
    }
}

/// Nothing is described that no row names: every column of every table comes from a row with the
/// texts of its cells.
pub proof fn law_only_rows_are_described(
    database: Seq<char>,
    columns: Seq<Seq<char>>,
    rows: Seq<Seq<JsonModel>>,
    tables: Seq<JsonModel>,
    a: int,
    cells: Seq<JsonModel>,
    b: int,
    field: Field,
) -> (i: int)
    requires
        shows(described(database, columns, rows), database, tables, a, cells, b, field),
    ensures
        0 <= i < rows.len(),
        cell_text(rows[i], column_index(columns, "table_name"@) as int) == field.table,
        cell_text(rows[i], column_index(columns, "column_name"@) as int) == field.column,
        cell_text(rows[i], column_index(columns, "data_type"@) as int) == field.data_type,
{
    let t = column_index(columns, "table_name"@) as int;
    let c = column_index(columns, "column_name"@) as int;
    let d = column_index(columns, "data_type"@) as int;
    law_shape_of_a_description(database, columns, rows);
    let m = described(database, columns, rows);
    let fields = fields_given(rows, t, c, d);
    let names = table_names(fields);
    let n = columns.len();
    let wanted = if t < n && c < n && d < n {
        names.map_values(
            |name: Seq<char>| table_object(database, name, columns_of(fields, name)),
        )
    } else {
        seq![]
    };
    assert(m->Object_0[0].1->Array_0[0]->Object_0[1].1 == JsonModel::Array(tables));
    assert(m->Object_0[0].1->Array_0[0]->Object_0[1].1 == JsonModel::Array(wanted));
    let name = names[a];
    let own = fields_of_table(fields, name);
    assert(tables[a] == table_object(database, name, columns_of(fields, name)));
    assert(tables[a]->Object_0[4].1 == JsonModel::String(name));
    assert(tables[a]->Object_0[4].1 == JsonModel::String(field.table));
    assert(tables[a]->Object_0[0].1 == JsonModel::Array(columns_of(fields, name)));
    assert(tables[a]->Object_0[0].1 == JsonModel::Array(cells));
    let f = own[b];
    assert(cells[b] == column_object(f.column, f.data_type, b + 1));
    assert(cells[b]->Object_0[0].1 == JsonModel::String(f.data_type));
    assert(cells[b]->Object_0[0].1 == JsonModel::String(field.data_type));
    assert(cells[b]->Object_0[1].1 == JsonModel::String(f.column));
    assert(cells[b]->Object_0[1].1 == JsonModel::String(field.column));
    let p = |g: Field| g.table == name;
    fields.lemma_filter_contains_rev(p, f);
    fields.lemma_filter_pred(p, b);
    let k = choose|k: int| 0 <= k < fields.len() && fields[k] == f;
    lemma_field_is_row(rows, k, t, c, d)
}

} // verus!
