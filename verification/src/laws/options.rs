//! How options are read.

use vstd::prelude::*;

use crate::codec::number_u64;
use crate::json::{lookup, member, string_of_model, JsonModel};
use crate::numeral::{
    all_digits, decimal, digit, digit_value, digits_value, is_digit, parsed_u64, unsigned_part,
};
use crate::replace::lowered;
use crate::request::{
    bool_given, bool_option, candidates, containers, fields_in, fields_of, first_read, listed,
    number_given, secret_fields, secret_given, string_option, text_fields, text_within,
    u16_given, u16_option,
};
use crate::rows::documents_given;
use crate::text::{skip_leading, trimmed, CharSet};

verus! {

/// What the first of `places` holds under the first of `fields` is tried first.
proof fn lemma_first_candidate(places: Seq<JsonModel>, fields: Seq<Seq<char>>, value: JsonModel)
    requires
        places.len() > 0,
        fields.len() > 0,
        member(places[0], fields[0]) == Some(value),
    ensures
        fields_in(places, fields).len() > 0,
        fields_in(places, fields)[0] == value,
    decreases places.len(),
{
    if places.len() == 1 {
        assert(fields_in(places.drop_last(), fields) =~= seq![]);
        lemma_first_field(places[0], fields, value);
    } else {
        assert(places.drop_last()[0] == places[0]);
        lemma_first_candidate(places.drop_last(), fields, value);
    }
}

proof fn lemma_first_field(container: JsonModel, fields: Seq<Seq<char>>, value: JsonModel)
    requires
        fields.len() > 0,
        member(container, fields[0]) == Some(value),
    ensures
        fields_of(container, fields).len() > 0,
        fields_of(container, fields)[0] == value,
    decreases fields.len(),
{
    if fields.len() == 1 {
        assert(fields_of(container, fields.drop_last()) =~= seq![]);
    } else {
        assert(fields.drop_last()[0] == fields[0]);
        lemma_first_field(container, fields.drop_last(), value);
    }
}

/// What stands in the request itself, under the first name of an option, goes before all else.
pub proof fn law_the_request_itself_goes_first(
    request: JsonModel,
    fields: Seq<Seq<char>>,
    text: Seq<char>,
)
    requires
        fields.len() > 0,
        member(request, fields[0]) == Some(JsonModel::String(text)),
        trimmed(text).len() > 0,
    ensures
        string_option(request, fields) == Some(text),
{
    assert(containers(request)[0] == request);
    lemma_first_candidate(containers(request), fields, JsonModel::String(text));
}

/// A value that is no object holds no option.
pub proof fn law_only_objects_hold_options(request: JsonModel, fields: Seq<Seq<char>>)
    requires
        request !is Object,
    ensures
        candidates(request, fields).len() == 0,
        string_option(request, fields) is None,
{
    assert(containers(request) =~= seq![request]);
    assert(containers(request).drop_last() =~= seq![]);
    lemma_no_fields(request, fields);
    assert(fields_in(containers(request).drop_last(), fields) =~= seq![]);
}

proof fn lemma_no_fields(container: JsonModel, fields: Seq<Seq<char>>)
    requires
        container !is Object,
    ensures
        fields_of(container, fields).len() == 0,
    decreases fields.len(),
{
    if fields.len() > 0 {
        lemma_no_fields(container, fields.drop_last());
    }
}

/// The numeral of a number denotes it.
proof fn lemma_decimal_denotes(n: nat)
    ensures
        decimal(n).len() > 0,
        all_digits(decimal(n)),
        digits_value(decimal(n)) == n,
    decreases n,
{
    if n < 10 {
        assert(decimal(n).drop_last() =~= Seq::<char>::empty());
        assert(digits_value(Seq::<char>::empty()) == 0);
        assert(digit_value(digit(n)) == n);
    } else {
        lemma_decimal_denotes(n / 10);
        assert(decimal(n).drop_last() =~= decimal(n / 10));
        assert(digit_value(digit(n % 10)) == n % 10);
        assert forall|i: int| 0 <= i < decimal(n).len() implies is_digit(
            #[trigger] decimal(n)[i],
        ) by {
            if i < decimal(n / 10).len() {
                assert(decimal(n)[i] == decimal(n / 10)[i]);
            }
        }
    }
}

/// A number given by its numeral is the number.
pub proof fn law_numerals_count_as_numbers(n: u64)
    ensures
        parsed_u64(decimal(n as nat)) == Some(n),
        number_given(JsonModel::String(decimal(n as nat))) == Some(n),
{
    let s = decimal(n as nat);
    lemma_decimal_denotes(n as nat);
    assert(is_digit(s[0]));
    assert(is_digit(s[s.len() - 1]));
    assert(unsigned_part(s) == s);
    assert(skip_leading(s, CharSet::WhiteSpace) == s);
    assert(trimmed(s) == s);
}

/// Of documents that may be there, those are given that are, in their order.
pub proof fn law_documents_that_are_there(
    a: Seq<Option<JsonModel>>,
    b: Seq<Option<JsonModel>>,
    m: JsonModel,
)
    ensures
        documents_given(a + b) == documents_given(a) + documents_given(b),
        documents_given(seq![Some(m)]) == seq![m],
        documents_given(seq![None]).len() == 0,
    decreases b.len(),
{
    let nothing = Seq::<Option<JsonModel>>::empty();
    assert(documents_given(nothing) =~= seq![]);
    let one = seq![Some(m)];
    assert(one.drop_last() =~= nothing);
    assert(documents_given(one) =~= seq![m]);
    let none: Seq<Option<JsonModel>> = seq![None];
    assert(none.drop_last() =~= nothing);
    assert(documents_given(none) =~= seq![]);
    if b.len() == 0 {
        assert(a + b =~= a);
        assert(documents_given(a) + documents_given(b) =~= documents_given(a));
    } else {
        law_documents_that_are_there(a, b.drop_last(), m);
        assert((a + b).drop_last() =~= a + b.drop_last());
        assert((a + b).last() == b.last());
        assert(documents_given(a + b) =~= documents_given(a) + documents_given(b));
    }
}

/// What the value that may be there holds under a key.
pub open spec fn under(m: Option<JsonModel>, key: Seq<char>) -> Option<JsonModel> {
    match m {
        Some(v) => member(v, key),
        None => None,
    }
}

/// Options are sought in the request itself, in its profile, its options, its authentication and
/// its secrets, and in the options, the authentication and the secrets of the profile, in this
/// order; a place that is not there is passed over.
pub proof fn law_places_of_options(request: JsonModel)
    ensures
        containers(request) == documents_given(
            seq![
                Some(request),
                member(request, "profile"@),
                member(request, "options"@),
                member(request, "auth"@),
                member(request, "secrets"@),
                under(member(request, "profile"@), "options"@),
                under(member(request, "profile"@), "auth"@),
                under(member(request, "profile"@), "secrets"@),
            ],
        ),
{
    let list = seq![
        Some(request),
        member(request, "profile"@),
        member(request, "options"@),
        member(request, "auth"@),
        member(request, "secrets"@),
        under(member(request, "profile"@), "options"@),
        under(member(request, "profile"@), "auth"@),
        under(member(request, "profile"@), "secrets"@),
    ];
    reveal_with_fuel(documents_given, 9);
    assert(documents_given(list.take(0)) =~= seq![]);
    lemma_documents_step(list, 0);
    lemma_documents_step(list, 1);
    lemma_documents_step(list, 2);
    lemma_documents_step(list, 3);
    lemma_documents_step(list, 4);
    lemma_documents_step(list, 5);
    lemma_documents_step(list, 6);
    lemma_documents_step(list, 7);
    assert(list.take(8) =~= list);
    assert(containers(request) =~= documents_given(list));
}

/// One document more is given at the end, where it is there.
proof fn lemma_documents_step(list: Seq<Option<JsonModel>>, i: int)
    requires
        0 <= i < list.len(),
    ensures
        documents_given(list.take(i + 1)) == documents_given(list.take(i)) + listed(list[i]),
{
    assert(list.take(i + 1).drop_last() =~= list.take(i));
}

/// What is first read of two lists is first read of the one, or else of the other.
proof fn lemma_first_read_of_both<T>(
    a: Seq<JsonModel>,
    b: Seq<JsonModel>,
    read: spec_fn(JsonModel) -> Option<T>,
)
    ensures
        first_read(a + b, read) == if first_read(a, read) is Some {
            first_read(a, read)
        } else {
            first_read(b, read)
        },
    decreases a.len(),
{
    if a.len() == 0 {
        assert(a + b =~= b);
    } else {
        assert((a + b).skip(1) =~= a.skip(1) + b);
        lemma_first_read_of_both(a.skip(1), b, read);
    }
}

/// What `read` makes of what is held under a name, where something is.
pub open spec fn read_at<T>(
    place: JsonModel,
    name: Seq<char>,
    read: spec_fn(JsonModel) -> Option<T>,
) -> Option<T> {
    match member(place, name) {
        Some(v) => read(v),
        None => None,
    }
}

/// Nothing can be read under the first `n` of the names.
pub open spec fn unreadable_under<T>(
    place: JsonModel,
    names: Seq<Seq<char>>,
    n: int,
    read: spec_fn(JsonModel) -> Option<T>,
) -> bool {
    forall|f: int|
        0 <= f < n && f < names.len() ==> read_at(place, #[trigger] names[f], read) is None
}

proof fn lemma_read_of_listed<T>(
    place: JsonModel,
    name: Seq<char>,
    read: spec_fn(JsonModel) -> Option<T>,
)
    ensures
        first_read(listed(member(place, name)), read) == read_at(place, name, read),
{
    let list = listed(member(place, name));
    if list.len() > 0 {
        assert(list.skip(1) =~= seq![]);
        assert(first_read(list.skip(1), read) is None);
    }
}

/// What is read of the fields of one place.
proof fn lemma_read_of_place<T>(
    place: JsonModel,
    names: Seq<Seq<char>>,
    f: int,
    read: spec_fn(JsonModel) -> Option<T>,
)
    requires
        0 <= f <= names.len(),
        unreadable_under(place, names, f, read),
        f < names.len() ==> read_at(place, names[f], read) is Some,
    ensures
        first_read(fields_of(place, names), read) == if f < names.len() {
            read_at(place, names[f], read)
        } else {
            None
        },
    decreases names.len(),
{
    if names.len() > 0 {
        let head = names.drop_last();
        let last = names.len() - 1;
        lemma_first_read_of_both(fields_of(place, head), listed(member(place, names.last())), read);
        lemma_read_of_listed(place, names.last(), read);
        assert forall|k: int| 0 <= k < f && k < head.len() implies read_at(
            place,
            #[trigger] head[k],
            read,
        ) is None by {
            assert(head[k] == names[k]);
        }
        if f < last {
            assert(head[f] == names[f]);
            lemma_read_of_place(place, head, f, read);
        } else {
            lemma_read_of_place(place, head, last, read);
            if f > last {
                assert(read_at(place, names[last], read) is None);
            }
        }
    }
}

/// What is read of the fields of all places.
proof fn lemma_read_of_places<T>(
    places: Seq<JsonModel>,
    names: Seq<Seq<char>>,
    p: int,
    f: int,
    read: spec_fn(JsonModel) -> Option<T>,
)
    requires
        0 <= p <= places.len(),
        forall|k: int|
            0 <= k < p ==> unreadable_under(
                #[trigger] places[k],
                names,
                names.len() as int,
                read,
            ),
        p < places.len() ==> 0 <= f < names.len() && unreadable_under(places[p], names, f, read)
            && read_at(places[p], names[f], read) is Some,
    ensures
        first_read(fields_in(places, names), read) == if p < places.len() {
            read_at(places[p], names[f], read)
        } else {
            None
        },
    decreases places.len(),
{
    if places.len() > 0 {
        let head = places.drop_last();
        let last = places.len() - 1;
        lemma_first_read_of_both(fields_in(head, names), fields_of(places.last(), names), read);
        assert forall|k: int| 0 <= k < p && k < head.len() implies unreadable_under(
            #[trigger] head[k],
            names,
            names.len() as int,
            read,
        ) by {
            assert(head[k] == places[k]);
        }
        if p < last {
            assert(head[p] == places[p]);
            lemma_read_of_places(head, names, p, f, read);
        } else {
            lemma_read_of_places(head, names, last, f, read);
            if p == last {
                lemma_read_of_place(places[last], names, f, read);
            } else {
                assert(unreadable_under(places[last], names, names.len() as int, read));
                lemma_read_of_place(places[last], names, names.len() as int, read);
            }
        }
    }
}

/// Of all that a request holds under the names of an option, in place `p` and under name `f` stands
/// the first that can be read; nothing can be read, where `p` is behind the last place.
pub open spec fn first_readable<T>(
    request: JsonModel,
    names: Seq<Seq<char>>,
    p: int,
    f: int,
    read: spec_fn(JsonModel) -> Option<T>,
) -> bool {
    let places = containers(request);
    &&& 0 <= p <= places.len()
    &&& forall|k: int|
        0 <= k < p ==> unreadable_under(#[trigger] places[k], names, names.len() as int, read)
    &&& p < places.len() ==> 0 <= f < names.len() && unreadable_under(places[p], names, f, read)
        && read_at(places[p], names[f], read) is Some
}

/// An option is what stands first of what can be read as one: the places go before the names, and
/// the names by their order. It is not given where nothing can be read.
pub proof fn law_options_are_the_first_readable(
    request: JsonModel,
    names: Seq<Seq<char>>,
    p: int,
    f: int,
)
    ensures
        first_readable(request, names, p, f, |v: JsonModel| text_within(v, text_fields()))
            ==> string_option(request, names) == if p < containers(request).len() {
            read_at(
                containers(request)[p],
                names[f],
                |v: JsonModel| text_within(v, text_fields()),
            )
        } else {
            None
        },
        first_readable(request, names, p, f, |v: JsonModel| text_within(v, secret_fields()))
            ==> secret_given(request, names) == if p < containers(request).len() {
            read_at(
                containers(request)[p],
                names[f],
                |v: JsonModel| text_within(v, secret_fields()),
            )
        } else {
            None
        },
        first_readable(request, names, p, f, |v: JsonModel| u16_given(v)) ==> u16_option(
            request,
            names,
        ) == if p < containers(request).len() {
            read_at(containers(request)[p], names[f], |v: JsonModel| u16_given(v))
        } else {
            None
        },
        first_readable(request, names, p, f, |v: JsonModel| bool_given(v)) ==> bool_option(
            request,
            names,
        ) == if p < containers(request).len() {
            read_at(containers(request)[p], names[f], |v: JsonModel| bool_given(v))
        } else {
            None
        },
{
    let places = containers(request);
    let text = |v: JsonModel| text_within(v, text_fields());
    let secret = |v: JsonModel| text_within(v, secret_fields());
    let number = |v: JsonModel| u16_given(v);
    let flag = |v: JsonModel| bool_given(v);
    if first_readable(request, names, p, f, text) {
        lemma_read_of_places(places, names, p, f, text);
    }
    if first_readable(request, names, p, f, secret) {
        lemma_read_of_places(places, names, p, f, secret);
    }
    if first_readable(request, names, p, f, number) {
        lemma_read_of_places(places, names, p, f, number);
    }
    if first_readable(request, names, p, f, flag) {
        lemma_read_of_places(places, names, p, f, flag);
    }
}

/// A text counts as it is, character for character, unless it is blank. Within an object it stands
/// under the first of the names that holds a string. Nothing else is a text.
pub proof fn law_texts_within_values(
    text: Seq<char>,
    entries: Seq<(Seq<char>, JsonModel)>,
    names: Seq<Seq<char>>,
    f: int,
    other: JsonModel,
)
    requires
        other !is String,
        other !is Object,
    ensures
        text_within(JsonModel::String(text), names) == (if trimmed(text).len() > 0 {
            Some(text)
        } else {
            None
        }),
        0 <= f < names.len() && lookup(entries, names[f]) == Some(JsonModel::String(text)) && (
        forall|k: int|
            0 <= k < f ==> !(lookup(entries, #[trigger] names[k]) matches Some(JsonModel::String(
                _,
            )))) ==> text_within(JsonModel::Object(entries), names) == (if trimmed(text).len()
            > 0 {
            Some(text)
        } else {
            None
        }),
        (forall|k: int|
            0 <= k < names.len() ==> !(lookup(entries, #[trigger] names[k]) matches Some(
                JsonModel::String(_),
            ))) ==> text_within(JsonModel::Object(entries), names) is None,
        text_within(other, names) is None,
{
    let m = JsonModel::Object(entries);
    let read = |v: JsonModel| string_of_model(v);
    if 0 <= f < names.len() && lookup(entries, names[f]) == Some(JsonModel::String(text)) && (
    forall|k: int|
        0 <= k < f ==> !(lookup(entries, #[trigger] names[k]) matches Some(JsonModel::String(
            _,
        )))) {
        assert forall|k: int| 0 <= k < f && k < names.len() implies read_at(
            m,
            #[trigger] names[k],
            read,
        ) is None by {
            assert(!(lookup(entries, names[k]) matches Some(JsonModel::String(_))));
        }
        lemma_read_of_place(m, names, f, read);
    }
    if forall|k: int|
        0 <= k < names.len() ==> !(lookup(entries, #[trigger] names[k]) matches Some(
            JsonModel::String(_),
        )) {
        assert forall|k: int| 0 <= k < names.len() && k < names.len() implies read_at(
            m,
            #[trigger] names[k],
            read,
        ) is None by {
            assert(!(lookup(entries, names[k]) matches Some(JsonModel::String(_))));
        }
        lemma_read_of_place(m, names, names.len() as int, read);
    }
}

/// The names under which objects give texts, and those under which they give secrets.
pub proof fn law_names_within_objects()
    ensures
        text_fields() == seq!["value"@, "text"@, "url"@, "uri"@],
        secret_fields() == seq![
            "value"@,
            "secret"@,
            "token"@,
            "password"@,
            "apiKey"@,
            "accessToken"@,
        ],
{
}

/// A number counts by its value, a text by the number that it spells, an object by what it holds
/// as its `value`; nothing else is a number. It fits in 16 bits up to 65535.
pub proof fn law_numbers_within_values(m: JsonModel)
    ensures
        number_given(m) == match m {
            JsonModel::Number(n) => number_u64(n),
            JsonModel::String(s) => parsed_u64(trimmed(s)),
            JsonModel::Object(entries) => match lookup(entries, "value"@) {
                Some(v) => number_given(v),
                None => None,
            },
            _ => None,
        },
        number_given(m) matches Some(n) ==> (n < 65536 ==> u16_given(m) == Some(n as u16)) && (n
            >= 65536 ==> u16_given(m) is None),
        number_given(m) is None ==> u16_given(m) is None,
{
}

/// A boolean counts as it is, a text as the boolean that it names in any case, an object by what
/// it holds as its `value`; nothing else is a boolean.
pub proof fn law_booleans_within_values(m: JsonModel)
    ensures
        bool_given(m) == match m {
            JsonModel::Bool(b) => Some(b),
            JsonModel::Object(entries) => match lookup(entries, "value"@) {
                Some(v) => bool_given(v),
                None => None,
            },
            JsonModel::String(_) => bool_given(m),
            _ => None,
        },
        m matches JsonModel::String(s) ==> {
            let word = lowered(trimmed(s));
            &&& bool_given(m) == Some(true) <==> (word == "true"@ || word == "1"@ || word
                == "yes"@ || word == "on"@)
            &&& bool_given(m) == Some(false) <==> (word == "false"@ || word == "0"@ || word
                == "no"@ || word == "off"@)
        },
{
    reveal_strlit("true");
    reveal_strlit("1");
    reveal_strlit("yes");
    reveal_strlit("on");
    reveal_strlit("false");
    reveal_strlit("0");
    reveal_strlit("no");
    reveal_strlit("off");
    assert("true"@[0] == 't' && "1"@[0] == '1' && "yes"@[0] == 'y');
    assert("false"@[0] == 'f' && "0"@[0] == '0' && "no"@[0] == 'n');
    assert("on"@.len() == 2 && "off"@.len() == 3);
    assert("on"@[0] == 'o' && "off"@[0] == 'o');
}

} // verus!
