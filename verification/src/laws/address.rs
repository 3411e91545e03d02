//! The server's address and what is written into it.

use vstd::prelude::*;
use vstd::utf8::{encode_utf8, encode_utf8_decode_utf8};

use crate::config::{config_asked, host_url, server_url, url_fields};
use crate::json::JsonModel;
use crate::request::string_option;
use crate::text::{
    before_first, begins_with, cut_around, cut_at, find, first_pos, lemma_find, lemma_find_is,
    lemma_first_pos, lemma_first_pos_is, skip_leading, skip_trailing, split_at, strip_both,
    trimmed, CharSet,
};
use crate::url::{
    encoded, encoded_byte, hex_digit, non_empty, normalized, origin, path_database, sensitive,
    unreserved, url_credentials, without_query,
};

verus! {

/// What precedes the first character of a set holds none of it.
proof fn lemma_before_first(s: Seq<char>, set: CharSet)
    ensures
        forall|i: int|
            0 <= i < before_first(s, set).len() ==> !set.has(#[trigger] before_first(s, set)[i]),
{
    lemma_first_pos(s, set);
    assert forall|i: int| 0 <= i < before_first(s, set).len() implies !set.has(
        #[trigger] before_first(s, set)[i],
    ) by {
        assert(before_first(s, set)[i] == s[i]);
    }
}

/// A text without any character of a set stays whole.
proof fn lemma_nothing_to_cut(s: Seq<char>, set: CharSet)
    requires
        forall|i: int| 0 <= i < s.len() ==> !set.has(#[trigger] s[i]),
    ensures
        before_first(s, set) == s,
{
    lemma_first_pos_is(s, set, s.len() as int);
    assert(s.take(s.len() as int) =~= s);
}

/// What remains when trailing characters are left out does not end with one of them.
proof fn lemma_skip_trailing(s: Seq<char>, set: CharSet)
    ensures
        skip_trailing(s, set).len() > 0 ==> !set.has(skip_trailing(s, set).last()),
        skip_trailing(s, set).len() <= s.len(),
        skip_trailing(s, set) == s.take(skip_trailing(s, set).len() as int),
        s.len() > 0 && !set.has(s.last()) ==> skip_trailing(s, set) == s,
    decreases s.len(),
{
    if s.len() > 0 && set.has(s.last()) {
        lemma_skip_trailing(s.drop_last(), set);
        let n = skip_trailing(s, set).len() as int;
        assert(s.drop_last().take(n) =~= s.take(n));
    } else {
        assert(s.take(s.len() as int) =~= s);
    }
}

/// A URL in normal form is one over HTTP, and does not end with a slash.
pub proof fn law_normalized_is_http(value: Seq<char>)
    ensures
        normalized(value) matches Ok(url) ==> {
            &&& begins_with(url, "http://"@) || begins_with(url, "https://"@)
            &&& url.last() != '/'
        },
{
    let url = skip_trailing(trimmed(value), CharSet::One('/'));
    lemma_skip_trailing(trimmed(value), CharSet::One('/'));
    reveal_strlit("http://");
    reveal_strlit("influxdb://");
    if url.len() > 0 && !begins_with(url, "http://"@) && !begins_with(url, "https://"@) {
        if begins_with(url, "influxdb://"@) {
            let rest = url.skip(11);
            if url.len() == 11 {
                assert(url =~= url.take(11));
                assert(url.last() == "influxdb://"@[10]);
            }
            assert(rest.last() == url.last());
            lemma_skip_trailing(rest, CharSet::One('/'));
            assert(("http://"@ + rest).take(7) =~= "http://"@);
        } else {
            assert(("http://"@ + url).take(7) =~= "http://"@);
        }
    }
}

/// A URL is refused exactly where nothing but slashes and white space is left of it.
pub proof fn law_url_refused(value: Seq<char>)
    ensures
        normalized(value) is Err <==> skip_trailing(trimmed(value), CharSet::One('/')).len() == 0,
        normalized(value) matches Err(message) ==> message == "InfluxDB URL is empty."@,
{
}

/// The scheme and host of a URL hold neither a query nor a fragment, and the host no path.
pub proof fn law_origin_is_bare(url: Seq<char>)
    ensures
        forall|i: int|
            0 <= i < origin(url).len() ==> #[trigger] origin(url)[i] != '?' && origin(url)[i]
                != '#',
        cut_around(origin(url), "://"@) matches Some((_, host)) ==> !host.contains('/'),
{
    lemma_origin(url);
    let bare = without_query(url);
    lemma_before_first(url, CharSet::Two('?', '#'));
    assert forall|i: int| 0 <= i < bare.len() implies #[trigger] bare[i] != '?' && bare[i]
        != '#' by {
        assert(!CharSet::Two('?', '#').has(before_first(url, CharSet::Two('?', '#'))[i]));
    }
    reveal_strlit("://");
    lemma_find(bare, "://"@);
    if let Some((scheme, rest)) = cut_around(bare, "://"@) {
        let p = find(bare, "://"@)->0 as int;
        let host = before_first(rest, CharSet::One('/'));
        lemma_first_pos(rest, CharSet::One('/'));
        lemma_before_first(rest, CharSet::One('/'));
        assert forall|i: int| 0 <= i < origin(url).len() implies #[trigger] origin(url)[i] != '?'
            && origin(url)[i] != '#' by {
            if i < scheme.len() {
                assert(origin(url)[i] == bare[i]);
            } else if i < scheme.len() + 3 {
                assert(origin(url)[i] == "://"@[i - scheme.len()]);
            } else {
                assert(origin(url)[i] == host[i - scheme.len() - 3]);
                assert(host[i - scheme.len() - 3] == bare[i]);
            }
        }
    }
}

/// The scheme and host of a URL are their own scheme and host.
pub proof fn law_origin_is_stable(url: Seq<char>)
    ensures
        origin(origin(url)) == origin(url),
{
    lemma_origin(url);
}

/// The scheme and host of a URL are their own scheme and host, and the host holds no path.
proof fn lemma_origin(url: Seq<char>)
    ensures
        origin(origin(url)) == origin(url),
        cut_around(origin(url), "://"@) matches Some((_, host)) ==> !host.contains('/'),
{
    let bare = without_query(url);
    let marks = CharSet::Two('?', '#');
    lemma_before_first(url, marks);
    reveal_strlit("://");
    lemma_find(bare, "://"@);
    match cut_around(bare, "://"@) {
        None => {
            lemma_nothing_to_cut(bare, marks);
        },
        Some((scheme, rest)) => {
            let p = find(bare, "://"@)->0 as int;
            let host = before_first(rest, CharSet::One('/'));
            lemma_first_pos(rest, CharSet::One('/'));
            lemma_before_first(rest, CharSet::One('/'));
            let o = origin(url);
            assert(o == scheme + "://"@ + host);
            assert forall|i: int| 0 <= i < p + 3 implies #[trigger] o[i] == bare[i] by {
                if i >= p {
                    assert(bare.skip(p).take(3)[i - p] == "://"@[i - p]);
                }
            }
            assert forall|i: int| 0 <= i < o.len() implies !marks.has(#[trigger] o[i]) by {
                if i < p + 3 {
                    assert(o[i] == bare[i]);
                } else {
                    assert(o[i] == host[i - p - 3]);
                    assert(o[i] == bare[i]);
                }
                assert(!marks.has(before_first(url, marks)[i]));
            }
            lemma_nothing_to_cut(o, marks);
            assert(o.skip(p).take(3) =~= "://"@);
            assert forall|k: int| 0 <= k < p implies !begins_with(#[trigger] o.skip(k), "://"@) by {
                if begins_with(o.skip(k), "://"@) {
                    assert(!begins_with(bare.skip(k), "://"@));
                    assert(bare.skip(k).take(3) =~= o.skip(k).take(3));
                }
            }
            lemma_find_is(o, "://"@, p);
            assert(o.take(p) =~= scheme);
            assert(o.skip(p + 3) =~= host);
            assert forall|i: int| 0 <= i < host.len() implies !CharSet::One('/').has(
                #[trigger] host[i],
            ) by {}
            lemma_nothing_to_cut(host, CharSet::One('/'));
            assert(!host.contains('/')) by {
                if host.contains('/') {
                    let k = choose|k: int| 0 <= k < host.len() && host[k] == '/';
                    assert(!CharSet::One('/').has(host[k]));
                }
            }
        },
    }
}

/// The scheme and host of a URL begin with the scheme that the URL begins with.
proof fn lemma_origin_keeps_scheme(url: Seq<char>, scheme: Seq<char>)
    requires
        begins_with(url, scheme + "://"@),
        forall|i: int|
            0 <= i < scheme.len() ==> #[trigger] scheme[i] != ':' && scheme[i] != '?' && scheme[i]
                != '#',
    ensures
        begins_with(origin(url), scheme + "://"@),
{
    reveal_strlit("://");
    let start = scheme + "://"@;
    let n = scheme.len() as int;
    let marks = CharSet::Two('?', '#');
    let bare = without_query(url);
    assert forall|i: int| 0 <= i < n + 3 implies #[trigger] url[i] == start[i] by {
        assert(url.take(n + 3)[i] == start[i]);
    }
    lemma_first_pos(url, marks);
    let p = first_pos(url, marks) as int;
    if p < n + 3 {
        assert(marks.has(url[p]));
        assert(url[p] == start[p]);
        if p < n {
            assert(start[p] == scheme[p]);
        } else {
            assert(start[p] == "://"@[p - n]);
        }
    }
    assert forall|i: int| 0 <= i < n + 3 implies #[trigger] bare[i] == start[i] by {
        assert(bare[i] == url[i]);
    }
    assert(bare.skip(n).take(3) =~= "://"@);
    assert forall|k: int| 0 <= k < n implies !begins_with(#[trigger] bare.skip(k), "://"@) by {
        if begins_with(bare.skip(k), "://"@) {
            assert(bare.skip(k).take(3)[0] == "://"@[0]);
            assert(bare[k] == start[k]);
            assert(start[k] == scheme[k]);
        }
    }
    lemma_find_is(bare, "://"@, n);
    assert(bare.take(n) =~= scheme);
    assert(origin(url).take(n + 3) =~= start);
}

/// A server is reached over HTTP, with TLS or without, at an address that holds no path, no query
/// and no fragment.
pub proof fn law_servers_are_reached_over_http(request: JsonModel)
    ensures
        config_asked(request) matches Ok(config) ==> {
            &&& begins_with(config.base_url, "http://"@) || begins_with(
                config.base_url,
                "https://"@,
            )
            &&& origin(config.base_url) == config.base_url
        },
{
    if let Ok(config) = config_asked(request) {
        let url = server_url(request)->Ok_0;
        reveal_strlit("http");
        reveal_strlit("https");
        reveal_strlit("://");
        reveal_strlit("http://");
        reveal_strlit("https://");
        assert("http://"@ =~= "http"@ + "://"@);
        assert("https://"@ =~= "https"@ + "://"@);
        if let Some(value) = string_option(request, url_fields()) {
            law_normalized_is_http(value);
        } else {
            assert(url == host_url(request));
            assert(url.take(7) =~= "http://"@ || url.take(8) =~= "https://"@);
        }
        law_origin_is_stable(url);
        if begins_with(url, "http://"@) {
            lemma_origin_keeps_scheme(url, "http"@);
        } else {
            lemma_origin_keeps_scheme(url, "https"@);
        }
    }
}

/// A character that may stand in a URL component as it is.
pub open spec fn component_char(c: char) -> bool {
    c == '%' || (c as u32 <= u8::MAX && unreserved(c as u8))
}

/// An encoded text holds nothing but unreserved characters and percent signs.
pub proof fn law_component_is_safe(bytes: Seq<u8>)
    ensures
        forall|i: int|
            0 <= i < encoded(bytes).len() ==> component_char(#[trigger] encoded(bytes)[i]),
    decreases bytes.len(),
{
    if bytes.len() > 0 {
        let head = encoded(bytes.drop_last());
        let tail = encoded_byte(bytes.last());
        law_component_is_safe(bytes.drop_last());
        assert forall|i: int| 0 <= i < encoded(bytes).len() implies component_char(
            #[trigger] encoded(bytes)[i],
        ) by {
            if i < head.len() {
                assert(encoded(bytes)[i] == head[i]);
            } else {
                assert(encoded(bytes)[i] == tail[i - head.len()]);
            }
        }
    }
}

/// Encoding starts with the first byte.
proof fn lemma_encoded_front(bytes: Seq<u8>)
    requires
        bytes.len() > 0,
    ensures
        encoded(bytes) == encoded_byte(bytes[0]) + encoded(bytes.skip(1)),
    decreases bytes.len(),
{
    let head = bytes.drop_last();
    if bytes.len() == 1 {
        assert(encoded(head) =~= seq![]);
        assert(encoded(bytes.skip(1)) =~= seq![]);
        assert(encoded(bytes) =~= encoded_byte(bytes[0]) + encoded(bytes.skip(1)));
    } else {
        lemma_encoded_front(head);
        assert(bytes.skip(1).drop_last() =~= head.skip(1));
        assert(encoded(bytes) =~= encoded_byte(bytes[0]) + encoded(bytes.skip(1)));
    }
}

/// Different bytes are encoded differently, and neither form begins the other.
proof fn lemma_byte_unambiguous(a: u8, b: u8, xs: Seq<char>, ys: Seq<char>)
    requires
        encoded_byte(a) + xs == encoded_byte(b) + ys,
    ensures
        a == b,
        xs == ys,
{
    let l = encoded_byte(a) + xs;
    let r = encoded_byte(b) + ys;
    assert(l[0] == r[0]);
    if unreserved(a) && unreserved(b) {
        assert(l[0] == a as char);
        assert(r[0] == b as char);
    } else if !unreserved(a) && !unreserved(b) {
        assert(l[1] == hex_digit(a / 16) && l[2] == hex_digit(a % 16));
        assert(r[1] == hex_digit(b / 16) && r[2] == hex_digit(b % 16));
        assert(a / 16 == b / 16 && a % 16 == b % 16);
    } else if unreserved(a) {
        assert(l[0] == a as char);
        assert(r[0] == '%');
    } else {
        assert(l[0] == '%');
        assert(r[0] == b as char);
    }
    assert(xs =~= l.skip(encoded_byte(a).len() as int));
    assert(ys =~= r.skip(encoded_byte(b).len() as int));
}

proof fn lemma_encoded_unambiguous(a: Seq<u8>, b: Seq<u8>)
    requires
        encoded(a) == encoded(b),
    ensures
        a == b,
    decreases a.len(),
{
    if a.len() == 0 || b.len() == 0 {
        if a.len() > 0 {
            lemma_encoded_front(a);
            assert(encoded(a).len() >= 1);
        }
        if b.len() > 0 {
            lemma_encoded_front(b);
            assert(encoded(b).len() >= 1);
        }
        assert(a =~= b);
    } else {
        lemma_encoded_front(a);
        lemma_encoded_front(b);
        lemma_byte_unambiguous(a[0], b[0], encoded(a.skip(1)), encoded(b.skip(1)));
        lemma_encoded_unambiguous(a.skip(1), b.skip(1));
        assert(a =~= seq![a[0]] + a.skip(1));
        assert(b =~= seq![b[0]] + b.skip(1));
    }
}

/// Different texts are encoded differently: the server sees the database that was named.
pub proof fn law_component_is_unambiguous(a: Seq<char>, b: Seq<char>)
    requires
        encoded(encode_utf8(a)) == encoded(encode_utf8(b)),
    ensures
        a == b,
{
    lemma_encoded_unambiguous(encode_utf8(a), encode_utf8(b));
    encode_utf8_decode_utf8(a);
    encode_utf8_decode_utf8(b);
}

/// None of the characters of `a` occur in `s`.
pub open spec fn free_of(s: Seq<char>, a: Seq<char>) -> bool {
    forall|i: int| 0 <= i < s.len() ==> !a.contains(#[trigger] s[i])
}

/// `s` is empty or begins with one of the characters of `a`.
pub open spec fn opens_with(s: Seq<char>, a: Seq<char>) -> bool {
    s.len() > 0 ==> a.contains(s[0])
}

/// Where a URL is cut: a scheme without a colon ends at the first `://`, and a query begins at the
/// first mark.
proof fn lemma_url_parts(scheme: Seq<char>, rest: Seq<char>, query: Seq<char>)
    requires
        free_of(scheme, seq![':', '?', '#']),
        free_of(rest, seq!['?', '#']),
        opens_with(query, seq!['?', '#']),
    ensures
        without_query(scheme + "://"@ + rest + query) == scheme + "://"@ + rest,
        cut_around(scheme + "://"@ + rest, "://"@) == Some((scheme, rest)),
{
    reveal_strlit("://");
    let marks = CharSet::Two('?', '#');
    let bare = scheme + "://"@ + rest;
    let url = bare + query;
    let n = scheme.len() as int;
    assert forall|k: int| 0 <= k < bare.len() implies !marks.has(#[trigger] url[k]) by {
        if k < n {
            assert(url[k] == scheme[k]);
            assert(!seq![':', '?', '#'].contains(scheme[k]));
            assert(seq![':', '?', '#'][1] == '?' && seq![':', '?', '#'][2] == '#');
        } else if k < n + 3 {
            assert(url[k] == "://"@[k - n]);
        } else {
            assert(url[k] == rest[k - n - 3]);
            assert(!seq!['?', '#'].contains(rest[k - n - 3]));
            assert(seq!['?', '#'][0] == '?' && seq!['?', '#'][1] == '#');
        }
    }
    if query.len() > 0 {
        assert(url[bare.len() as int] == query[0]);
        let i = choose|i: int| 0 <= i < 2 && seq!['?', '#'][i] == query[0];
    }
    lemma_first_pos_is(url, marks, bare.len() as int);
    assert(url.take(bare.len() as int) =~= bare);
    assert(bare.skip(n).take(3) =~= "://"@);
    assert forall|k: int| 0 <= k < n implies !begins_with(#[trigger] bare.skip(k), "://"@) by {
        if begins_with(bare.skip(k), "://"@) {
            assert(bare.skip(k).take(3)[0] == "://"@[0]);
            assert(bare[k] == scheme[k]);
            assert(!seq![':', '?', '#'].contains(scheme[k]));
            assert(seq![':', '?', '#'][0] == ':');
        }
    }
    lemma_find_is(bare, "://"@, n);
    assert(bare.take(n) =~= scheme);
    assert(bare.skip(n + 3) =~= rest);
}

/// A host ends at the first slash.
proof fn lemma_host(host: Seq<char>, path: Seq<char>)
    requires
        free_of(host, seq!['/']),
        opens_with(path, seq!['/']),
    ensures
        before_first(host + path, CharSet::One('/')) == host,
        path.len() > 0 ==> cut_at(host + path, CharSet::One('/')) == Some((host, path.skip(1))),
        path.len() == 0 ==> cut_at(host + path, CharSet::One('/')) is None,
{
    let s = host + path;
    let set = CharSet::One('/');
    assert forall|k: int| 0 <= k < host.len() implies !set.has(#[trigger] s[k]) by {
        assert(s[k] == host[k]);
        assert(!seq!['/'].contains(host[k]));
        assert(seq!['/'][0] == '/');
    }
    if path.len() > 0 {
        assert(s[host.len() as int] == path[0]);
        let i = choose|i: int| 0 <= i < 1 && seq!['/'][i] == path[0];
        assert(s.skip(host.len() as int + 1) =~= path.skip(1));
    }
    lemma_first_pos_is(s, set, host.len() as int);
    assert(s.take(host.len() as int) =~= host);
}

/// The server's address is the scheme and the host of a URL, as they are; the database is the path,
/// without the slashes around it, and none where nothing else is left of the path.
pub proof fn law_parts_of_a_url(
    scheme: Seq<char>,
    host: Seq<char>,
    path: Seq<char>,
    query: Seq<char>,
)
    requires
        free_of(scheme, seq![':', '?', '#']),
        free_of(host, seq!['/', '?', '#']),
        free_of(path, seq!['?', '#']),
        opens_with(path, seq!['/']),
        opens_with(query, seq!['?', '#']),
    ensures
        origin(scheme + "://"@ + host + path + query) == scheme + "://"@ + host,
        path_database(scheme + "://"@ + host + path + query) == (if strip_both(
            path,
            CharSet::One('/'),
        ).len() == 0 {
            None
        } else {
            Some(strip_both(path, CharSet::One('/')))
        }),
{
    let rest = host + path;
    let url = scheme + "://"@ + host + path + query;
    assert(url =~= scheme + "://"@ + rest + query);
    assert forall|i: int| 0 <= i < rest.len() implies !seq!['?', '#'].contains(
        #[trigger] rest[i],
    ) by {
        if i < host.len() {
            assert(rest[i] == host[i]);
            let all = seq!['/', '?', '#'];
            assert(!all.contains(host[i]));
            assert(all[1] == '?' && all[2] == '#');
        } else {
            assert(rest[i] == path[i - host.len()]);
        }
    }
    assert forall|i: int| 0 <= i < host.len() implies !seq!['/'].contains(#[trigger] host[i]) by {
        let all = seq!['/', '?', '#'];
        assert(!all.contains(host[i]));
        assert(all[0] == '/');
    }
    lemma_url_parts(scheme, rest, query);
    lemma_host(host, path);
    if path.len() > 0 {
        let i = choose|i: int| 0 <= i < 1 && seq!['/'][i] == path[0];
        assert(skip_leading(path, CharSet::One('/')) == skip_leading(
            path.skip(1),
            CharSet::One('/'),
        ));
    }
}

/// A text without `://` is taken for a host with its path.
pub proof fn law_url_without_a_scheme(url: Seq<char>)
    requires
        cut_around(without_query(url), "://"@) is None,
    ensures
        origin(url) == without_query(url),
        path_database(url) == (match cut_at(without_query(url), CharSet::One('/')) {
            Some((_, path)) => if strip_both(path, CharSet::One('/')).len() == 0 {
                None
            } else {
                Some(strip_both(path, CharSet::One('/')))
            },
            None => None,
        }),
{
}

/// A query or a fragment begins at the first question mark or number sign.
pub proof fn law_query_is_left_out(url: Seq<char>)
    ensures
        without_query(url).len() <= url.len(),
        forall|i: int|
            0 <= i < without_query(url).len() ==> #[trigger] without_query(url)[i] == url[i],
        forall|i: int|
            0 <= i < without_query(url).len() ==> #[trigger] url[i] != '?' && url[i] != '#',
        without_query(url).len() < url.len() ==> url[without_query(url).len() as int] == '?'
            || url[without_query(url).len() as int] == '#',
{
    let marks = CharSet::Two('?', '#');
    lemma_first_pos(url, marks);
    assert forall|i: int| 0 <= i < without_query(url).len() implies #[trigger] url[i] != '?'
        && url[i] != '#' by {
        assert(!marks.has(url[i]));
    }
}

/// Of a list of texts those are sensitive that hold something, in their order.
pub proof fn law_texts_that_hold_something(list: Seq<Seq<char>>, text: Seq<char>)
    ensures
        non_empty(seq![]) == Seq::<Seq<char>>::empty(),
        non_empty(list.push(text)) == (if text.len() > 0 {
            non_empty(list).push(text)
        } else {
            non_empty(list)
        }),
        sensitive(Some(text)) == non_empty(seq![text]),
        sensitive(None).len() == 0,
{
    let read = |part: Seq<char>| part.len() > 0;
    list.lemma_filter_push(text, read);
    let nothing = Seq::<Seq<char>>::empty();
    nothing.lemma_filter_push(text, read);
    assert(nothing.filter(read) =~= nothing) by {
        reveal(Seq::filter);
    }
    assert(nothing.push(text) =~= seq![text]);
}

/// The credentials of a URL stand between its scheme and the first at sign, with colons between
/// them; a URL without one holds none.
pub proof fn law_credentials_of_a_url(scheme: Seq<char>, auth: Seq<char>, rest: Seq<char>)
    requires
        free_of(scheme, seq![':']),
        free_of(auth, seq!['@']),
    ensures
        url_credentials(scheme + "://"@ + auth + "@"@ + rest) == non_empty(split_at(auth, ':')),
        url_credentials(scheme + "://"@ + auth).len() == 0,
        cut_around(auth, "://"@) is None ==> url_credentials(auth).len() == 0,
{
    reveal_strlit("@");
    reveal_strlit("://");
    let set = CharSet::One('@');
    let tail = auth + "@"@ + rest;
    let url = scheme + "://"@ + auth + "@"@ + rest;
    assert(url =~= scheme + "://"@ + tail);
    lemma_scheme_ends(scheme, tail);
    lemma_scheme_ends(scheme, auth);
    let n = auth.len() as int;
    assert forall|k: int| 0 <= k < n implies !set.has(#[trigger] tail[k]) by {
        assert(tail[k] == auth[k]);
        assert(!seq!['@'].contains(auth[k]));
        assert(seq!['@'][0] == '@');
    }
    assert forall|k: int| 0 <= k < n implies !set.has(#[trigger] auth[k]) by {
        assert(!seq!['@'].contains(auth[k]));
        assert(seq!['@'][0] == '@');
    }
    assert(tail[n] == '@');
    lemma_first_pos_is(tail, set, n);
    lemma_first_pos_is(auth, set, n);
    assert(tail.take(n) =~= auth);
}

/// A scheme without a colon ends at the first `://`.
proof fn lemma_scheme_ends(scheme: Seq<char>, rest: Seq<char>)
    requires
        free_of(scheme, seq![':']),
    ensures
        cut_around(scheme + "://"@ + rest, "://"@) == Some((scheme, rest)),
{
    reveal_strlit("://");
    let url = scheme + "://"@ + rest;
    let n = scheme.len() as int;
    assert(url.skip(n).take(3) =~= "://"@);
    assert forall|k: int| 0 <= k < n implies !begins_with(#[trigger] url.skip(k), "://"@) by {
        if begins_with(url.skip(k), "://"@) {
            assert(url.skip(k).take(3)[0] == "://"@[0]);
            assert(url[k] == scheme[k]);
            assert(!seq![':'].contains(scheme[k]));
            assert(seq![':'][0] == ':');
        }
    }
    lemma_find_is(url, "://"@, n);
    assert(url.take(n) =~= scheme);
    assert(url.skip(n + 3) =~= rest);
}

/// A user name and a password before the at sign of a URL are its credentials.
pub proof fn law_user_and_password_of_a_url(
    scheme: Seq<char>,
    user: Seq<char>,
    password: Seq<char>,
    rest: Seq<char>,
)
    requires
        free_of(scheme, seq![':']),
        free_of(user, seq![':', '@']),
        free_of(password, seq![':', '@']),
        user.len() > 0,
        password.len() > 0,
    ensures
        url_credentials(scheme + "://"@ + user + ":"@ + password + "@"@ + rest) == seq![
            user,
            password,
        ],
{
    reveal_strlit(":");
    let auth = user + ":"@ + password;
    let both = seq![':', '@'];
    assert(both[0] == ':' && both[1] == '@');
    assert forall|i: int| 0 <= i < auth.len() implies !seq!['@'].contains(#[trigger] auth[i]) by {
        if i < user.len() {
            assert(!both.contains(user[i]));
        } else if i > user.len() {
            assert(!both.contains(password[i - user.len() - 1]));
        }
    }
    assert(scheme + "://"@ + user + ":"@ + password + "@"@ + rest =~= scheme + "://"@ + auth + "@"@
        + rest);
    law_credentials_of_a_url(scheme, auth, rest);
    let set = CharSet::One(':');
    let n = user.len() as int;
    assert forall|k: int| 0 <= k < n implies !set.has(#[trigger] auth[k]) by {
        assert(!both.contains(user[k]));
    }
    assert(auth[n] == ':');
    lemma_first_pos_is(auth, set, n);
    assert forall|k: int| 0 <= k < password.len() implies !set.has(#[trigger] password[k]) by {
        assert(!both.contains(password[k]));
    }
    lemma_first_pos_is(password, set, password.len() as int);
    assert(auth.take(n) =~= user);
    assert(auth.skip(n + 1) =~= password);
    assert(split_at(password, ':') =~= seq![password]);
    assert(split_at(auth, ':') =~= seq![user, password]);
    law_texts_that_hold_something(seq![user], password);
    law_texts_that_hold_something(seq![], user);
    assert(Seq::<Seq<char>>::empty().push(user) =~= seq![user]);
    assert(seq![user].push(password) =~= seq![user, password]);
}

/// The normal form of a URL: white space around it and slashes at its end are left out. What is
/// then a URL over HTTP is kept as it is, an InfluxDB URL is one over HTTP, and anything else is
/// taken for a host.
pub proof fn law_normal_form(value: Seq<char>, rest: Seq<char>)
    ensures
        skip_trailing(trimmed(value), CharSet::One('/')) == "http://"@ + rest ==> normalized(value)
            == Ok::<_, Seq<char>>("http://"@ + rest),
        skip_trailing(trimmed(value), CharSet::One('/')) == "https://"@ + rest ==> normalized(value)
            == Ok::<_, Seq<char>>("https://"@ + rest),
        skip_trailing(trimmed(value), CharSet::One('/')) == "influxdb://"@ + rest ==> normalized(
            value,
        ) == Ok::<_, Seq<char>>("http://"@ + rest),
        ({
            let url = skip_trailing(trimmed(value), CharSet::One('/'));
            url.len() > 0 && !begins_with(url, "http://"@) && !begins_with(url, "https://"@)
                && !begins_with(url, "influxdb://"@) ==> normalized(value) == Ok::<_, Seq<char>>(
                "http://"@ + url,
            )
        }),
{
    reveal_strlit("http://");
    reveal_strlit("https://");
    reveal_strlit("influxdb://");
    let url = skip_trailing(trimmed(value), CharSet::One('/'));
    lemma_skip_trailing(trimmed(value), CharSet::One('/'));
    assert(("http://"@ + rest).take(7) =~= "http://"@);
    assert(("https://"@ + rest).take(8) =~= "https://"@);
    assert(("influxdb://"@ + rest).take(11) =~= "influxdb://"@);
    if url == "influxdb://"@ + rest {
        assert(url.take(7)[0] == 'i');
        assert(url.take(8)[0] == 'i');
        assert("http://"@[0] == 'h' && "https://"@[0] == 'h');
        assert(url.skip(11) =~= rest);
        if rest.len() == 0 {
            assert(url.last() == "influxdb://"@[10]);
            assert(CharSet::One('/').has(url.last()));
        } else {
            assert(url.last() == rest.last());
            lemma_skip_trailing(rest, CharSet::One('/'));
        }
    }
}

/// What a hexadecimal digit counts, where it is written as a digit or a capital letter.
pub open spec fn hex_value(c: char) -> int {
    if 48 <= c as int <= 57 {
        c as int - 48
    } else if 65 <= c as int <= 70 {
        c as int - 55
    } else {
        -1
    }
}

/// Bytes are encoded one by one. Letters, digits and four signs stand for themselves, every other
/// byte is a percent sign and two hexadecimal digits that count it.
pub proof fn law_bytes_are_encoded_in_turn(a: Seq<u8>, b: u8)
    ensures
        encoded(seq![]).len() == 0,
        encoded(a.push(b)).len() >= encoded(a).len(),
        encoded(a.push(b)).take(encoded(a).len() as int) == encoded(a),
        ({
            let form = encoded(a.push(b)).skip(encoded(a).len() as int);
            if 65 <= b <= 90 || 97 <= b <= 122 || 48 <= b <= 57 || b == 45 || b == 46 || b == 95
                || b == 126 {
                form.len() == 1 && form[0] as int == b
            } else {
                form.len() == 3 && form[0] == '%' && 0 <= hex_value(form[1]) && 0 <= hex_value(
                    form[2],
                ) && hex_value(form[1]) * 16 + hex_value(form[2]) == b
            }
        }),
{
    assert(a.push(b).drop_last() =~= a);
    let form = encoded_byte(b);
    assert(encoded(a.push(b)) == encoded(a) + form);
    assert((encoded(a) + form).take(encoded(a).len() as int) =~= encoded(a));
    assert((encoded(a) + form).skip(encoded(a).len() as int) =~= form);
}

} // verus!
