//! What the server's answers mean.

use vstd::prelude::*;

use crate::exchange::{answer, greeting, is_success, metadata_given, named_version};
use crate::laws::tables::one_schema;
use crate::metadata::described;
use crate::rows::{response_rows, table_of, OutputModel};
use crate::text::trimmed;

verus! {

/// A status reports success exactly where it is one of the two hundreds.
pub proof fn law_success(code: u16)
    ensures
        is_success(code) <==> 200 <= code <= 299,
{
}

/// A server that greets may name its version, which is passed on behind the name of the product.
/// One that does not greet is quoted with its status and its words, as they are.
pub proof fn law_greetings(
    code: u16,
    status: Seq<char>,
    body: Seq<char>,
    version: Option<Seq<char>>,
)
    ensures
        200 <= code <= 299 ==> (match greeting(code, status, body, version) {
            Ok(Some(named)) => version matches Some(v) && v.len() > 0 && named == "InfluxDB "@ + v,
            Ok(None) => version is None || version == Some(Seq::<char>::empty()),
            Err(_) => false,
        }),
        !(200 <= code <= 299) ==> greeting(code, status, body, version) == Err::<
            Option<Seq<char>>,
            _,
        >("InfluxDB ping returned HTTP "@ + status + ": "@ + body),
{
    if version matches Some(v) && v.len() == 0 {
        assert(version->0 =~= Seq::<char>::empty());
    }
}

/// A query that succeeded gives the table of the rows of the response, cut at the cap. One that the
/// server refused is quoted with its status and the first five hundred characters of its words.
pub proof fn law_answers(code: u16, status: Seq<char>, text: Seq<char>, cap: nat)
    ensures
        200 <= code <= 299 ==> answer(code, status, text, cap) == Ok::<_, Seq<char>>(
            table_of(response_rows(text), cap),
        ),
        !(200 <= code <= 299) ==> answer(code, status, text, cap) == Err::<OutputModel, _>(
            "InfluxDB query returned HTTP "@ + status + ": "@ + (if trimmed(text).len() <= 500 {
                trimmed(text)
            } else {
                trimmed(text).take(500)
            }),
        ),
{
}

/// A description is that of the rows of the answer; one that could not be had has the database and
/// no tables.
pub proof fn law_descriptions(database: Seq<char>, output: OutputModel, err: Seq<char>)
    ensures
        metadata_given(database, Ok(output)) == described(database, output.columns, output.rows),
        one_schema(metadata_given(database, Err(err)), database, seq![]),
{
}

/// The version of a server is named where the server gives one that is not empty.
pub proof fn law_versions(version: Seq<char>)
    ensures
        version.len() > 0 ==> named_version(Some(version)) == Some("InfluxDB "@ + version),
        version.len() == 0 ==> named_version(Some(version)) is None,
        named_version(None) is None,
{
}

} // verus!
