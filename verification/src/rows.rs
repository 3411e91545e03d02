//! The rows of a query response, and the table that they make.

use vstd::prelude::*;

use crate::codec::json_document;
use crate::json::{
    key_index, lemma_key_index, lookup, member, models, opt_document, row_models, valid, Json,
    JsonModel,
};
use crate::request::listed;
use crate::text::{same, split, split_at, trim, trimmed, views};

verus! {

/// The columns of a table, its rows, and whether rows were left out.
pub type QueryOutput = (Vec<String>, Vec<Vec<Json>>, bool);

/// What a [`QueryOutput`] holds.
#[verifier::ext_equal]
pub struct OutputModel {
    pub columns: Seq<Seq<char>>,
    pub rows: Seq<Seq<JsonModel>>,
    pub truncated: bool,
}

/// What a [`QueryOutput`] holds.
pub open spec fn output_model(output: QueryOutput) -> OutputModel {
    OutputModel {
        columns: views(output.0@),
        rows: row_models(output.1@),
        truncated: output.2,
    }
}

/// Every value of the list is valid.
pub open spec fn all_valid(list: Seq<JsonModel>) -> bool {
    forall|i: int| 0 <= i < list.len() ==> valid(#[trigger] list[i])
}

/// Every cell of the rows is valid.
pub open spec fn cells_valid(rows: Seq<Seq<JsonModel>>) -> bool {
    forall|i: int| 0 <= i < rows.len() ==> all_valid(#[trigger] rows[i])
}

/// What an object holds under a key is valid where the object is.
pub proof fn lemma_member_valid(m: JsonModel, key: Seq<char>)
    requires
        valid(m),
    ensures
        member(m, key) matches Some(v) ==> valid(v),
{
    if let JsonModel::Object(entries) = m {
        lemma_key_index(entries, key);
        let i = key_index(entries, key) as int;
        if i < entries.len() {
            assert(valid(entries[i].1));
        }
    }
}

/// The rows of one JSON document: the items of an array, of an array under `data`, or the
/// document itself as the only row.
pub open spec fn document_rows(m: JsonModel) -> Seq<JsonModel> {
    match m {
        JsonModel::Array(rows) => rows,
        _ => match member(m, "data"@) {
            Some(JsonModel::Array(rows)) => rows,
            _ => seq![m],
        },
    }
}

/// The lines that are not blank, without the white space around them.
pub open spec fn line_texts(lines: Seq<Seq<char>>) -> Seq<Seq<char>>
    decreases lines.len(),
{
    if lines.len() == 0 {
        seq![]
    } else {
        let head = line_texts(lines.drop_last());
        let line = trimmed(lines.last());
        if line.len() == 0 {
            head
        } else {
            head.push(line)
        }
    }
}

/// The documents that are there, in order.
pub open spec fn documents_given(documents: Seq<Option<JsonModel>>) -> Seq<JsonModel>
    decreases documents.len(),
{
    if documents.len() == 0 {
        seq![]
    } else {
        documents_given(documents.drop_last()) + listed(documents.last())
    }
}

/// What the texts hold as JSON documents.
pub open spec fn documents_of(texts: Seq<Seq<char>>) -> Seq<Option<JsonModel>> {
    texts.map_values(|text: Seq<char>| json_document(text))
}

/// The rows of a response: of the one JSON document that it is, or else of its lines.
pub open spec fn response_rows(text: Seq<char>) -> Seq<JsonModel> {
    if trimmed(text).len() == 0 {
        seq![]
    } else {
        match json_document(trimmed(text)) {
            Some(m) => document_rows(m),
            None => documents_given(documents_of(line_texts(split_at(text, '\n')))),
        }
    }
}

/// The rows of one JSON document.
pub fn rows_of_document(document: Json) -> (rows: Vec<Json>)
    ensures
        models(rows@) == document_rows(document@),
        valid(document@) ==> all_valid(models(rows@)),
{
    let ghost m = document@;
    proof {
        if valid(m) {
            lemma_member_valid(m, "data"@);
        }
    }
    match document {
        Json::Array(rows) => {
            proof {
                assert(models(rows@) =~= m->Array_0);
            }
            rows
        },
        other => {
            if let Some(Json::Array(items)) = other.get("data") {
                let mut rows: Vec<Json> = Vec::new();
                let mut i: usize = 0;
                let ghost data = member(m, "data"@)->0->Array_0;
                while i < items.len()
                    invariant
                        i <= items@.len(),
                        data == Json::Array(*items)@->Array_0,
                        rows@.len() == i,
                        forall|k: int| 0 <= k < i ==> (#[trigger] rows@[k])@ == data[k],
                    decreases items@.len() - i,
                {
                    rows.push(items[i].clone());
                    i = i + 1;
                }
                proof {
                    assert(models(rows@) =~= data);
                }
                return rows;
            }
            let mut rows: Vec<Json> = Vec::new();
            rows.push(other);
            proof {
                assert(models(rows@) =~= seq![m]);
            }
            rows
        },
    }
}

/// The lines of a text that are not blank, without the white space around them.
pub fn document_lines(text: &str) -> (texts: Vec<String>)
    ensures
        views(texts@) == line_texts(split_at(text@, '\n')),
{
    let lines = split(text, '\n');
    let mut texts: Vec<String> = Vec::new();
    let mut i: usize = 0;
    proof {
        assert(views(texts@) =~= line_texts(views(lines@.take(0))));
    }
    while i < lines.len()
        invariant
            i <= lines@.len(),
            views(texts@) == line_texts(views(lines@.take(i as int))),
        decreases lines@.len() - i,
    {
        let ghost done = texts@;
        let line = trim(lines[i].as_str());
        i = i + 1;
        proof {
            let now = views(lines@.take(i as int));
            assert(now.drop_last() =~= views(lines@.take(i - 1)));
            assert(now.last() == lines@[i - 1]@);
            assert(views(done.push(line)) =~= views(done).push(line@));
        }
        if !line.as_str().is_empty() {
            texts.push(line);
        }
    }
    proof {
        assert(lines@.take(i as int) =~= lines@);
    }
    texts
}

/// The models of documents that may be there.
pub open spec fn document_models(documents: Seq<Option<Json>>) -> Seq<Option<JsonModel>> {
    documents.map_values(|document: Option<Json>| opt_document(document))
}

/// The documents that are there, in order.
pub fn rows_of_lines(documents: Vec<Option<Json>>) -> (rows: Vec<Json>)
    ensures
        models(rows@) == documents_given(document_models(documents@)),
        (forall|i: int|
            0 <= i < documents@.len() ==> (#[trigger] document_models(documents@)[i] matches Some(
                m,
            ) ==> valid(m))) ==> all_valid(models(rows@)),
{
    let ghost given = documents@;
    let ghost every_valid = forall|i: int|
        0 <= i < given.len() ==> (#[trigger] document_models(given)[i] matches Some(m) ==> valid(
            m,
        ));
    let mut rows: Vec<Json> = Vec::new();
    proof {
        assert(models(rows@) =~= documents_given(document_models(given.take(0))));
    }
    for document in it: documents.into_iter()
        invariant
            it.seq() == given,
            every_valid == forall|i: int|
                0 <= i < given.len() ==> (#[trigger] document_models(given)[i] matches Some(m)
                    ==> valid(m)),
            models(rows@) == documents_given(document_models(given.take(it.index()))),
            every_valid ==> all_valid(models(rows@)),
    {
        let ghost done = rows@;
        proof {
            let now = document_models(given.take(it.index() + 1));
            assert(now.drop_last() =~= document_models(given.take(it.index())));
            assert(now.last() == opt_document(document));
            assert(document_models(given)[it.index()] == opt_document(document));
            assert(models(done) + listed(None) =~= models(done));
        }
        if let Some(row) = document {
            proof {
                assert(models(done.push(row)) =~= models(done) + listed(Some(row@)));
            }
            rows.push(row);
        }
    }
    proof {
        assert(given.take(given.len() as int) =~= given);
    }
    rows
}

/// The rows of a response: of the one JSON document that it is, or else of its lines.
pub fn parse_rows(text: &str) -> (rows: Vec<Json>)
    ensures
        models(rows@) == response_rows(text@),
        all_valid(models(rows@)),
{
    let body = trim(text);
    if body.as_str().is_empty() {
        let rows: Vec<Json> = Vec::new();
        proof {
            assert(models(rows@) =~= seq![]);
        }
        return rows;
    }
    if let Some(document) = Json::parse(body.as_str()) {
        return rows_of_document(document);
    }
    let texts = document_lines(text);
    let mut documents: Vec<Option<Json>> = Vec::new();
    let mut i: usize = 0;
    while i < texts.len()
        invariant
            i <= texts@.len(),
            documents@.len() == i,
            forall|k: int|
                0 <= k < i ==> opt_document(#[trigger] documents@[k]) == json_document(texts@[k]@)
                    && (opt_document(documents@[k]) matches Some(m) ==> valid(m)),
        decreases texts@.len() - i,
    {
        documents.push(Json::parse(texts[i].as_str()));
        i = i + 1;
    }
    proof {
        assert(document_models(documents@) =~= documents_of(views(texts@)));
        assert forall|k: int| 0 <= k < documents@.len() implies (
        #[trigger] document_models(documents@)[k] matches Some(m) ==> valid(m)) by {
            assert(document_models(documents@)[k] == opt_document(documents@[k]));
        }
    }
    rows_of_lines(documents)
}

/// The keys of the rows that are objects, one row after another.
pub open spec fn all_keys(rows: Seq<JsonModel>) -> Seq<Seq<char>>
    decreases rows.len(),
{
    if rows.len() == 0 {
        seq![]
    } else {
        all_keys(rows.drop_last()) + row_keys(rows.last())
    }
}

/// The keys of a row that is an object.
pub open spec fn row_keys(row: JsonModel) -> Seq<Seq<char>> {
    match row {
        JsonModel::Object(entries) => crate::json::keys(entries),
        _ => seq![],
    }
}

/// The texts of a list, each where it first occurs.
pub open spec fn distinct(list: Seq<Seq<char>>) -> Seq<Seq<char>>
    decreases list.len(),
{
    if list.len() == 0 {
        seq![]
    } else {
        let head = distinct(list.drop_last());
        if head.contains(list.last()) {
            head
        } else {
            head.push(list.last())
        }
    }
}

/// The cells of one row: of an object, what it holds for each column, null where it holds
/// nothing; of anything else, the row itself.
pub open spec fn row_cells(row: JsonModel, columns: Seq<Seq<char>>) -> Seq<JsonModel> {
    match row {
        JsonModel::Object(entries) => columns.map_values(
            |c: Seq<char>|
                match lookup(entries, c) {
                    Some(v) => v,
                    None => JsonModel::Null,
                },
        ),
        _ => seq![row],
    }
}

/// The rows that fit under a cap.
pub open spec fn capped(rows: Seq<JsonModel>, cap: nat) -> Seq<JsonModel> {
    if rows.len() <= cap {
        rows
    } else {
        rows.take(cap as int)
    }
}

/// The table that the rows make.
pub open spec fn table_of(rows: Seq<JsonModel>, cap: nat) -> OutputModel {
    let columns = distinct(all_keys(rows));
    OutputModel {
        columns: if columns.len() == 0 && rows.len() > 0 {
            seq!["value"@]
        } else {
            columns
        },
        rows: capped(rows, cap).map_values(|row: JsonModel| row_cells(row, columns)),
        truncated: rows.len() > cap,
    }
}

fn contains_text(list: &Vec<String>, text: &str) -> (found: bool)
    ensures
        found == views(list@).contains(text@),
{
    let mut i: usize = 0;
    while i < list.len()
        invariant
            i <= list@.len(),
            forall|k: int| 0 <= k < i ==> views(list@)[k] != text@,
        decreases list@.len() - i,
    {
        proof {
            assert(views(list@)[i as int] == list@[i as int]@);
        }
        if same(list[i].as_str(), text) {
            return true;
        }
        i = i + 1;
    }
    false
}

fn add_columns(columns: &mut Vec<String>, row: &Json, Ghost(seen): Ghost<Seq<Seq<char>>>)
    requires
        views(old(columns)@) == distinct(seen),
    ensures
        views(final(columns)@) == distinct(seen + row_keys(row@)),
{
    let entries = match row {
        Json::Object(entries) => entries,
        _ => {
            proof {
                assert(seen + row_keys(row@) =~= seen);
            }
            return;
        },
    };
    let ghost all = row_keys(row@);
    let mut i: usize = 0;
    proof {
        assert(seen + all.take(0) =~= seen);
    }
    while i < entries.len()
        invariant
            *row == Json::Object(*entries),
            all == row_keys(row@),
            all.len() == entries@.len(),
            i <= entries@.len(),
            views(columns@) == distinct(seen + all.take(i as int)),
        decreases entries@.len() - i,
    {
        let key = &entries[i].0;
        let ghost before = columns@;
        proof {
            let now = seen + all.take(i + 1);
            assert(row@->Object_0[i as int].0 == key@);
            assert(all[i as int] == key@);
            assert(now.drop_last() =~= seen + all.take(i as int));
            assert(now.last() == key@);
        }
        if !contains_text(columns, key.as_str()) {
            columns.push(key.clone());
            proof {
                assert(views(columns@) =~= views(before).push(key@));
            }
        }
        i = i + 1;
    }
    proof {
        assert(all.take(i as int) =~= all);
    }
}

fn cells_of(row: &Json, columns: &Vec<String>) -> (cells: Vec<Json>)
    ensures
        models(cells@) == row_cells(row@, views(columns@)),
        valid(row@) ==> all_valid(models(cells@)),
{
    let mut cells: Vec<Json> = Vec::new();
    match row {
        Json::Object(_) => {
            let mut i: usize = 0;
            while i < columns.len()
                invariant
                    row@ is Object,
                    i <= columns@.len(),
                    cells@.len() == i,
                    forall|k: int|
                        0 <= k < i ==> (#[trigger] cells@[k])@ == row_cells(
                            row@,
                            views(columns@),
                        )[k],
                    valid(row@) ==> forall|k: int| 0 <= k < i ==> valid((#[trigger] cells@[k])@),
                decreases columns@.len() - i,
            {
                proof {
                    assert(views(columns@)[i as int] == columns@[i as int]@);
                    if valid(row@) {
                        lemma_member_valid(row@, columns@[i as int]@);
                    }
                }
                match row.get(columns[i].as_str()) {
                    Some(cell) => {
                        cells.push(cell.clone());
                    },
                    None => {
                        cells.push(Json::Null);
                    },
                }
                i = i + 1;
            }
        },
        _ => {
            cells.push(row.clone());
        },
    }
    proof {
        assert(models(cells@) =~= row_cells(row@, views(columns@)));
    }
    cells
}

/// The table that the rows make: a column for each key of any row, and the first `cap` rows.
pub fn rows_to_output(rows_json: Vec<Json>, cap: usize) -> (output: QueryOutput)
    ensures
        output_model(output) == table_of(models(rows_json@), cap as nat),
        all_valid(models(rows_json@)) ==> cells_valid(row_models(output.1@)),
{
    let n = rows_json.len();
    let ghost list = models(rows_json@);
    let mut columns: Vec<String> = Vec::new();
    let mut i: usize = 0;
    proof {
        assert(views(columns@) =~= distinct(all_keys(list.take(0))));
    }
    while i < n
        invariant
            n == rows_json@.len(),
            list == models(rows_json@),
            i <= n,
            views(columns@) == distinct(all_keys(list.take(i as int))),
        decreases n - i,
    {
        add_columns(&mut columns, &rows_json[i], Ghost(all_keys(list.take(i as int))));
        i = i + 1;
        proof {
            let now = list.take(i as int);
            assert(now.drop_last() =~= list.take(i - 1));
            assert(now.last() == rows_json@[i - 1]@);
        }
    }
    proof {
        assert(list.take(n as int) =~= list);
    }
    let ghost header = distinct(all_keys(list));
    let end: usize = if n <= cap {
        n
    } else {
        cap
    };
    let mut rows: Vec<Vec<Json>> = Vec::new();
    let mut j: usize = 0;
    while j < end
        invariant
            n == rows_json@.len(),
            list == models(rows_json@),
            end <= n,
            j <= end,
            views(columns@) == header,
            rows@.len() == j,
            forall|k: int|
                0 <= k < j ==> models((#[trigger] rows@[k])@) == row_cells(list[k], header),
            all_valid(list) ==> forall|k: int|
                0 <= k < j ==> all_valid(models((#[trigger] rows@[k])@)),
        decreases end - j,
    {
        proof {
            assert(list[j as int] == rows_json@[j as int]@);
        }
        rows.push(cells_of(&rows_json[j], &columns));
        j = j + 1;
    }
    let ghost shape = table_of(list, cap as nat);
    proof {
        assert(row_models(rows@) =~= shape.rows);
        if all_valid(list) {
            assert forall|k: int| 0 <= k < row_models(rows@).len() implies all_valid(
                #[trigger] row_models(rows@)[k],
            ) by {
                assert(row_models(rows@)[k] == models(rows@[k]@));
            }
        }
    }
    let truncated = n > cap;
    if columns.is_empty() && n > 0 {
        let mut only: Vec<String> = Vec::new();
        only.push("value".to_string());
        proof {
            assert(views(only@) =~= seq!["value"@]);
        }
        (only, rows, truncated)
    } else {
        (columns, rows, truncated)
    }
}

/// The table that a response makes.
pub fn influx_response_to_output(text: &str, cap: usize) -> (output: QueryOutput)
    ensures
        output_model(output) == table_of(response_rows(text@), cap as nat),
        cells_valid(row_models(output.1@)),
{
    rows_to_output(parse_rows(text), cap)
}

} // verus!
