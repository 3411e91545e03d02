//! Options of a request: where they may stand, and how they are read.

use vstd::prelude::*;

use crate::codec::{number_as_u64, number_u64};
use crate::json::{
    key_index, lemma_key_index, member, opt_model, ref_models, string_of_model, Json, JsonModel,
};
use crate::numeral::{parse_u64, parsed_u64};
use crate::replace::{lowered, to_lower};
use crate::text::{is_blank, opt_str, opt_string, same, trim, trimmed};

verus! {

/// What is there, as a list of at most one.
pub open spec fn listed(m: Option<JsonModel>) -> Seq<JsonModel> {
    match m {
        Some(v) => seq![v],
        None => seq![],
    }
}

/// What the member under `outer` holds under `inner`.
pub open spec fn member_of_member(
    m: JsonModel,
    outer: Seq<char>,
    inner: Seq<char>,
) -> Option<JsonModel> {
    match member(m, outer) {
        Some(v) => member(v, inner),
        None => None,
    }
}

/// The places where an option may stand, the first to be searched first: the request, its
/// `profile`, `options`, `auth` and `secrets`, and the last three of the profile.
pub open spec fn containers(request: JsonModel) -> Seq<JsonModel> {
    seq![request] + listed(member(request, "profile"@)) + listed(member(request, "options"@))
        + listed(member(request, "auth"@)) + listed(member(request, "secrets"@)) + listed(
        member_of_member(request, "profile"@, "options"@),
    ) + listed(member_of_member(request, "profile"@, "auth"@)) + listed(
        member_of_member(request, "profile"@, "secrets"@),
    )
}

/// The views of a list of texts.
pub open spec fn names(list: Seq<&str>) -> Seq<Seq<char>> {
    list.map_values(|s: &str| s@)
}

/// What `container` holds under each of `fields`, in the order of the fields.
pub open spec fn fields_of(container: JsonModel, fields: Seq<Seq<char>>) -> Seq<JsonModel>
    decreases fields.len(),
{
    if fields.len() == 0 {
        seq![]
    } else {
        fields_of(container, fields.drop_last()) + listed(member(container, fields.last()))
    }
}

/// What each of `places` holds under each of `fields`, in the order of the places.
pub open spec fn fields_in(places: Seq<JsonModel>, fields: Seq<Seq<char>>) -> Seq<JsonModel>
    decreases places.len(),
{
    if places.len() == 0 {
        seq![]
    } else {
        fields_in(places.drop_last(), fields) + fields_of(places.last(), fields)
    }
}

/// The values that a request holds for an option spelt as any of `fields`, in the order in which
/// they are tried.
pub open spec fn candidates(request: JsonModel, fields: Seq<Seq<char>>) -> Seq<JsonModel> {
    fields_in(containers(request), fields)
}

/// What `read` makes of the first value of which it makes something.
pub open spec fn first_read<T>(values: Seq<JsonModel>, read: spec_fn(JsonModel) -> Option<T>) ->
    Option<T>
    decreases values.len(),
{
    if values.len() == 0 {
        None
    } else if read(values[0]) is Some {
        read(values[0])
    } else {
        first_read(values.skip(1), read)
    }
}

/// The value at `i` is the first that can be read.
proof fn lemma_first_read<T>(
    values: Seq<JsonModel>,
    read: spec_fn(JsonModel) -> Option<T>,
    i: int,
)
    requires
        0 <= i <= values.len(),
        forall|k: int| 0 <= k < i ==> read(#[trigger] values[k]) is None,
        i < values.len() ==> read(values[i]) is Some,
    ensures
        first_read(values, read) == if i < values.len() {
            read(values[i])
        } else {
            None
        },
    decreases values.len(),
{
    if values.len() > 0 && i > 0 {
        assert(read(values[0]) is None);
        let rest = values.skip(1);
        assert forall|k: int| 0 <= k < i - 1 implies read(#[trigger] rest[k]) is None by {
            assert(rest[k] == values[k + 1]);
        }
        lemma_first_read(rest, read, i - 1);
    }
}

/// The text, where it is more than white space.
pub open spec fn not_blank(text: Option<Seq<char>>) -> Option<Seq<char>> {
    match text {
        Some(s) => if trimmed(s).len() > 0 {
            Some(s)
        } else {
            None
        },
        None => None,
    }
}

/// The text of the first of `fields` under which `m` holds a string.
pub open spec fn first_string(m: JsonModel, fields: Seq<Seq<char>>) -> Option<Seq<char>> {
    first_read(fields_of(m, fields), |v: JsonModel| string_of_model(v))
}

/// A text given plainly, or in an object under one of `fields`: none, where it is blank.
pub open spec fn text_within(m: JsonModel, fields: Seq<Seq<char>>) -> Option<Seq<char>> {
    match m {
        JsonModel::String(s) => not_blank(Some(s)),
        JsonModel::Object(_) => not_blank(first_string(m, fields)),
        _ => None,
    }
}

/// The names under which an object gives a text.
pub open spec fn text_fields() -> Seq<Seq<char>> {
    seq!["value"@, "text"@, "url"@, "uri"@]
}

/// The names under which an object gives a secret.
pub open spec fn secret_fields() -> Seq<Seq<char>> {
    seq!["value"@, "secret"@, "token"@, "password"@, "apiKey"@, "accessToken"@]
}

/// The unsigned integer that a value gives: a number, a numeral, or an object with one of these
/// as its `value`.
pub open spec fn number_given(m: JsonModel) -> Option<u64>
    decreases m,
{
    match m {
        JsonModel::Number(n) => number_u64(n),
        JsonModel::String(s) => parsed_u64(trimmed(s)),
        JsonModel::Object(entries) => {
            let i = key_index(entries, "value"@) as int;
            if 0 <= i < entries.len() {
                number_given(entries[i].1)
            } else {
                None
            }
        },
        _ => None,
    }
}

/// The boolean that a word spells.
pub open spec fn bool_word(s: Seq<char>) -> Option<bool> {
    if s == "true"@ || s == "1"@ || s == "yes"@ || s == "on"@ {
        Some(true)
    } else if s == "false"@ || s == "0"@ || s == "no"@ || s == "off"@ {
        Some(false)
    } else {
        None
    }
}

/// The boolean that a value gives: a boolean, a word for one, or an object with one of these as
/// its `value`.
pub open spec fn bool_given(m: JsonModel) -> Option<bool>
    decreases m,
{
    match m {
        JsonModel::Bool(b) => Some(b),
        JsonModel::String(s) => bool_word(lowered(trimmed(s))),
        JsonModel::Object(entries) => {
            let i = key_index(entries, "value"@) as int;
            if 0 <= i < entries.len() {
                bool_given(entries[i].1)
            } else {
                None
            }
        },
        _ => None,
    }
}

/// The 16-bit unsigned integer that a value gives.
pub open spec fn u16_given(m: JsonModel) -> Option<u16> {
    match number_given(m) {
        Some(n) => if n <= u16::MAX {
            Some(n as u16)
        } else {
            None
        },
        None => None,
    }
}

/// The text of an option: the first that is not blank.
pub open spec fn string_option(request: JsonModel, fields: Seq<Seq<char>>) -> Option<Seq<char>> {
    first_read(candidates(request, fields), |v: JsonModel| text_within(v, text_fields()))
}

/// The text of a secret: the first that is not blank.
pub open spec fn secret_given(request: JsonModel, fields: Seq<Seq<char>>) -> Option<Seq<char>> {
    first_read(candidates(request, fields), |v: JsonModel| text_within(v, secret_fields()))
}

/// The number of an option: the first that fits in 16 bits.
pub open spec fn u16_option(request: JsonModel, fields: Seq<Seq<char>>) -> Option<u16> {
    first_read(candidates(request, fields), |v: JsonModel| u16_given(v))
}

/// The boolean of an option: the first that is one.
pub open spec fn bool_option(request: JsonModel, fields: Seq<Seq<char>>) -> Option<bool> {
    first_read(candidates(request, fields), |v: JsonModel| bool_given(v))
}

fn push_listed<'a>(list: &mut Vec<&'a Json>, value: Option<&'a Json>)
    ensures
        ref_models(final(list)@) == ref_models(old(list)@) + listed(opt_model(value)),
{
    if let Some(v) = value {
        list.push(v);
    }
    proof {
        assert(ref_models(list@) =~= ref_models(old(list)@) + listed(opt_model(value)));
    }
}

/// The places where an option may stand, the first to be searched first.
pub fn request_containers(request: &Json) -> (places: Vec<&Json>)
    ensures
        ref_models(places@) == containers(request@),
{
    let profile = request.get("profile");
    let mut places: Vec<&Json> = Vec::new();
    places.push(request);
    proof {
        assert(ref_models(places@) =~= seq![request@]);
    }
    push_listed(&mut places, profile);
    push_listed(&mut places, request.get("options"));
    push_listed(&mut places, request.get("auth"));
    push_listed(&mut places, request.get("secrets"));
    let (options, auth, secrets) = match profile {
        Some(profile) => (profile.get("options"), profile.get("auth"), profile.get("secrets")),
        None => (None, None, None),
    };
    push_listed(&mut places, options);
    push_listed(&mut places, auth);
    push_listed(&mut places, secrets);
    places
}

fn push_fields<'a>(list: &mut Vec<&'a Json>, container: &'a Json, fields: &[&str])
    ensures
        ref_models(final(list)@) == ref_models(old(list)@) + fields_of(
            container@,
            names(fields@),
        ),
{
    let mut i: usize = 0;
    proof {
        assert(ref_models(list@) =~= ref_models(old(list)@) + fields_of(
            container@,
            names(fields@.take(0)),
        ));
    }
    while i < fields.len()
        invariant
            i <= fields@.len(),
            ref_models(list@) == ref_models(old(list)@) + fields_of(
                container@,
                names(fields@.take(i as int)),
            ),
        decreases fields@.len() - i,
    {
        let ghost done = names(fields@.take(i as int));
        push_listed(list, container.get(fields[i]));
        i = i + 1;
        proof {
            let now = names(fields@.take(i as int));
            assert(now.drop_last() =~= done);
            assert(now.last() == fields@[i - 1]@);
            assert(ref_models(list@) =~= ref_models(old(list)@) + fields_of(container@, now));
        }
    }
    proof {
        assert(fields@.take(i as int) =~= fields@);
    }
}

/// The values that a request holds for an option spelt as any of `fields`, in the order in which
/// they are tried.
pub fn option_values<'a>(request: &'a Json, fields: &[&str]) -> (values: Vec<&'a Json>)
    ensures
        ref_models(values@) == candidates(request@, names(fields@)),
{
    let places = request_containers(request);
    let mut values: Vec<&'a Json> = Vec::new();
    let mut i: usize = 0;
    proof {
        assert(ref_models(values@) =~= fields_in(
            ref_models(places@).take(0),
            names(fields@),
        ));
    }
    while i < places.len()
        invariant
            i <= places@.len(),
            ref_models(values@) == fields_in(ref_models(places@).take(i as int), names(fields@)),
        decreases places@.len() - i,
    {
        push_fields(&mut values, places[i], fields);
        i = i + 1;
        proof {
            let now = ref_models(places@).take(i as int);
            assert(now.drop_last() =~= ref_models(places@).take(i - 1));
            assert(now.last() == places@[i - 1]@);
        }
    }
    proof {
        assert(ref_models(places@).take(i as int) =~= ref_models(places@));
    }
    values
}

fn non_blank(text: Option<&str>) -> (result: Option<&str>)
    ensures
        opt_str(result) == not_blank(opt_str(text)),
{
    match text {
        Some(t) => if is_blank(t) {
            None
        } else {
            Some(t)
        },
        None => None,
    }
}

fn find_string<'a>(value: &'a Json, fields: &[&str]) -> (text: Option<&'a str>)
    ensures
        opt_str(text) == first_string(value@, names(fields@)),
{
    let mut list: Vec<&'a Json> = Vec::new();
    push_fields(&mut list, value, fields);
    let ghost read = |v: JsonModel| string_of_model(v);
    let ghost values = fields_of(value@, names(fields@));
    proof {
        assert(ref_models(list@) =~= values);
    }
    let mut i: usize = 0;
    while i < list.len()
        invariant
            i <= list@.len(),
            ref_models(list@) == values,
            values == fields_of(value@, names(fields@)),
            read == |v: JsonModel| string_of_model(v),
            forall|k: int| 0 <= k < i ==> read(#[trigger] values[k]) is None,
        decreases list@.len() - i,
    {
        proof {
            assert(values[i as int] == list@[i as int]@);
        }
        if let Some(t) = list[i].as_str() {
            proof {
                lemma_first_read(values, read, i as int);
            }
            return Some(t);
        }
        i = i + 1;
    }
    proof {
        lemma_first_read(values, read, i as int);
    }
    None
}

fn text_in<'a>(value: &'a Json, fields: &[&str]) -> (text: Option<&'a str>)
    ensures
        opt_str(text) == text_within(value@, names(fields@)),
{
    match value {
        Json::String(s) => non_blank(Some(s.as_str())),
        Json::Object(_) => non_blank(find_string(value, fields)),
        _ => None,
    }
}

/// The text that a value gives, plainly or in an object.
pub fn nested_string(value: &Json) -> (text: Option<&str>)
    ensures
        opt_str(text) == text_within(value@, text_fields()),
{
    let fields = ["value", "text", "url", "uri"];
    proof {
        assert(names(fields@) =~= text_fields());
    }
    text_in(value, &fields)
}

/// The secret that a value gives, plainly or in an object.
pub fn secret_string(value: &Json) -> (text: Option<&str>)
    ensures
        opt_str(text) == text_within(value@, secret_fields()),
{
    let fields = ["value", "secret", "token", "password", "apiKey", "accessToken"];
    proof {
        assert(names(fields@) =~= secret_fields());
    }
    text_in(value, &fields)
}

/// The unsigned integer that a value gives.
pub fn number_value(value: &Json) -> (number: Option<u64>)
    ensures
        number == number_given(value@),
    decreases value@,
{
    match value {
        Json::Number(n) => number_as_u64(n),
        Json::String(s) => parse_u64(trim(s.as_str()).as_str()),
        Json::Object(_) => match value.get("value") {
            Some(inner) => {
                proof {
                    lemma_key_index(value@->Object_0, "value"@);
                    let i = key_index(value@->Object_0, "value"@) as int;
                    assert(decreases_to!(value@ => value@->Object_0));
                    assert(decreases_to!(value@->Object_0 => value@->Object_0[i]));
                    assert(decreases_to!(value@->Object_0[i] => value@->Object_0[i].1));
                }
                number_value(inner)
            },
            None => None,
        },
        _ => None,
    }
}

/// The boolean that a value gives.
pub fn bool_value(value: &Json) -> (flag: Option<bool>)
    ensures
        flag == bool_given(value@),
    decreases value@,
{
    match value {
        Json::Bool(b) => Some(*b),
        Json::String(s) => {
            let word = to_lower(trim(s.as_str()).as_str());
            let w = word.as_str();
            if same(w, "true") || same(w, "1") || same(w, "yes") || same(w, "on") {
                Some(true)
            } else if same(w, "false") || same(w, "0") || same(w, "no") || same(w, "off") {
                Some(false)
            } else {
                None
            }
        },
        Json::Object(_) => match value.get("value") {
            Some(inner) => {
                proof {
                    lemma_key_index(value@->Object_0, "value"@);
                    let i = key_index(value@->Object_0, "value"@) as int;
                    assert(decreases_to!(value@ => value@->Object_0));
                    assert(decreases_to!(value@->Object_0 => value@->Object_0[i]));
                    assert(decreases_to!(value@->Object_0[i] => value@->Object_0[i].1));
                }
                bool_value(inner)
            },
            None => None,
        },
        _ => None,
    }
}

fn number_u16(value: &Json) -> (number: Option<u16>)
    ensures
        number == u16_given(value@),
{
    match number_value(value) {
        Some(n) => if n <= u16::MAX as u64 {
            Some(n as u16)
        } else {
            None
        },
        None => None,
    }
}

/// The text of an option: the first that is not blank.
pub fn option_string(request: &Json, fields: &[&str]) -> (text: Option<String>)
    ensures
        opt_string(text) == string_option(request@, names(fields@)),
{
    let list = option_values(request, fields);
    let ghost read = |v: JsonModel| text_within(v, text_fields());
    let ghost values = candidates(request@, names(fields@));
    let mut i: usize = 0;
    while i < list.len()
        invariant
            i <= list@.len(),
            ref_models(list@) == values,
            values == candidates(request@, names(fields@)),
            read == |v: JsonModel| text_within(v, text_fields()),
            forall|k: int| 0 <= k < i ==> read(#[trigger] values[k]) is None,
        decreases list@.len() - i,
    {
        proof {
            assert(values[i as int] == list@[i as int]@);
        }
        if let Some(t) = nested_string(list[i]) {
            proof {
                lemma_first_read(values, read, i as int);
            }
            return Some(t.to_string());
        }
        i = i + 1;
    }
    proof {
        lemma_first_read(values, read, i as int);
    }
    None
}

/// The text of a secret: the first that is not blank.
pub fn secret_option(request: &Json, fields: &[&str]) -> (text: Option<String>)
    ensures
        opt_string(text) == secret_given(request@, names(fields@)),
{
    let list = option_values(request, fields);
    let ghost read = |v: JsonModel| text_within(v, secret_fields());
    let ghost values = candidates(request@, names(fields@));
    let mut i: usize = 0;
    while i < list.len()
        invariant
            i <= list@.len(),
            ref_models(list@) == values,
            values == candidates(request@, names(fields@)),
            read == |v: JsonModel| text_within(v, secret_fields()),
            forall|k: int| 0 <= k < i ==> read(#[trigger] values[k]) is None,
        decreases list@.len() - i,
    {
        proof {
            assert(values[i as int] == list@[i as int]@);
        }
        if let Some(t) = secret_string(list[i]) {
            proof {
                lemma_first_read(values, read, i as int);
            }
            return Some(t.to_string());
        }
        i = i + 1;
    }
    proof {
        lemma_first_read(values, read, i as int);
    }
    None
}

/// The number of an option: the first that fits in 16 bits.
pub fn option_u16(request: &Json, fields: &[&str]) -> (number: Option<u16>)
    ensures
        number == u16_option(request@, names(fields@)),
{
    let list = option_values(request, fields);
    let ghost read = |v: JsonModel| u16_given(v);
    let ghost values = candidates(request@, names(fields@));
    let mut i: usize = 0;
    while i < list.len()
        invariant
            i <= list@.len(),
            ref_models(list@) == values,
            values == candidates(request@, names(fields@)),
            read == |v: JsonModel| u16_given(v),
            forall|k: int| 0 <= k < i ==> read(#[trigger] values[k]) is None,
        decreases list@.len() - i,
    {
        proof {
            assert(values[i as int] == list@[i as int]@);
        }
        if let Some(n) = number_u16(list[i]) {
            proof {
                lemma_first_read(values, read, i as int);
            }
            return Some(n);
        }
        i = i + 1;
    }
    proof {
        lemma_first_read(values, read, i as int);
    }
    None
}

/// The boolean of an option: the first that is one.
pub fn option_bool(request: &Json, fields: &[&str]) -> (flag: Option<bool>)
    ensures
        flag == bool_option(request@, names(fields@)),
{
    let list = option_values(request, fields);
    let ghost read = |v: JsonModel| bool_given(v);
    let ghost values = candidates(request@, names(fields@));
    let mut i: usize = 0;
    while i < list.len()
        invariant
            i <= list@.len(),
            ref_models(list@) == values,
            values == candidates(request@, names(fields@)),
            read == |v: JsonModel| bool_given(v),
            forall|k: int| 0 <= k < i ==> read(#[trigger] values[k]) is None,
        decreases list@.len() - i,
    {
        proof {
            assert(values[i as int] == list@[i as int]@);
        }
        if let Some(b) = bool_value(list[i]) {
            proof {
                lemma_first_read(values, read, i as int);
            }
            return Some(b);
        }
        i = i + 1;
    }
    proof {
        lemma_first_read(values, read, i as int);
    }
    None
}

} // verus!
