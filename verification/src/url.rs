//! The URL of an InfluxDB server: its normal form, its parts and its encoding.

use vstd::prelude::*;
use vstd::string::StringExecFns;
use vstd::utf8::encode_utf8;

use crate::text::{
    before, before_first, begins_with, cut, cut_around, cut_at, cut_text, opt_str, opt_string,
    skip_chars, skip_trailing, split, split_at, starts_with, strip, strip_both, strip_end, trim,
    trimmed, views, CharSet,
};

verus! {

/// The view of a result with a text on both sides.
pub open spec fn text_result(result: Result<String, String>) -> Result<Seq<char>, Seq<char>> {
    match result {
        Ok(t) => Ok(t@),
        Err(e) => Err(e@),
    }
}

/// `value` as an HTTP URL: without surrounding white space and trailing slashes, under the scheme
/// `http` where it names none or names `influxdb`.
pub open spec fn normalized(value: Seq<char>) -> Result<Seq<char>, Seq<char>> {
    let url = skip_trailing(trimmed(value), CharSet::One('/'));
    if url.len() == 0 {
        Err("InfluxDB URL is empty."@)
    } else if begins_with(url, "http://"@) || begins_with(url, "https://"@) {
        Ok(url)
    } else if begins_with(url, "influxdb://"@) {
        Ok("http://"@ + skip_trailing(url.skip("influxdb://"@.len() as int), CharSet::One('/')))
    } else {
        Ok("http://"@ + url)
    }
}

/// `value` as an HTTP URL.
pub fn normalize_url(value: &str) -> (url: Result<String, String>)
    ensures
        text_result(url) == normalized(value@),
{
    let url = strip_end(trim(value).as_str(), CharSet::One('/'));
    let u = url.as_str();
    if u.is_empty() {
        Err("InfluxDB URL is empty.".to_string())
    } else if starts_with(u, "http://") || starts_with(u, "https://") {
        Ok(url)
    } else if starts_with(u, "influxdb://") {
        proof {
            reveal_strlit("influxdb://");
        }
        let rest = skip_chars(u, 11);
        Ok("http://".to_string().concat(strip_end(rest.as_str(), CharSet::One('/')).as_str()))
    } else {
        Ok("http://".to_string().concat(u))
    }
}

/// A URL without its query and its fragment.
pub open spec fn without_query(url: Seq<char>) -> Seq<char> {
    before_first(url, CharSet::Two('?', '#'))
}

/// The scheme and the host of a URL: what comes before the path, the query and the fragment.
pub open spec fn origin(url: Seq<char>) -> Seq<char> {
    match cut_around(without_query(url), "://"@) {
        Some((scheme, rest)) => scheme + "://"@ + before_first(rest, CharSet::One('/')),
        None => without_query(url),
    }
}

/// The scheme and the host of a URL.
pub fn strip_query_and_path_database(url: &str) -> (stripped: String)
    ensures
        stripped@ == origin(url@),
{
    let bare = before(url, CharSet::Two('?', '#'));
    match cut_text(bare.as_str(), "://") {
        Some((scheme, rest)) => {
            let host = before(rest.as_str(), CharSet::One('/'));
            scheme.concat("://").concat(host.as_str())
        },
        None => bare,
    }
}

/// A URL from its host on, without its query and its fragment.
pub open spec fn from_host(url: Seq<char>) -> Seq<char> {
    match cut_around(without_query(url), "://"@) {
        Some((_, rest)) => rest,
        None => without_query(url),
    }
}

/// The database that a URL names: its path without surrounding slashes, where there is one.
pub open spec fn path_database(url: Seq<char>) -> Option<Seq<char>> {
    match cut_at(from_host(url), CharSet::One('/')) {
        Some((_, path)) => {
            let database = strip_both(path, CharSet::One('/'));
            if database.len() == 0 {
                None
            } else {
                Some(database)
            }
        },
        None => None,
    }
}

/// The database that a URL names.
pub fn database_from_url(url: &str) -> (database: Option<String>)
    ensures
        opt_string(database) == path_database(url@),
{
    let bare = before(url, CharSet::Two('?', '#'));
    let rest = match cut_text(bare.as_str(), "://") {
        Some((_, rest)) => rest,
        None => bare,
    };
    match cut(rest.as_str(), CharSet::One('/')) {
        Some((_, path)) => {
            let database = strip(path.as_str(), CharSet::One('/'));
            if database.as_str().is_empty() {
                None
            } else {
                Some(database)
            }
        },
        None => None,
    }
}

/// The parts that hold something.
pub open spec fn non_empty(parts: Seq<Seq<char>>) -> Seq<Seq<char>> {
    parts.filter(|part: Seq<char>| part.len() > 0)
}

/// The user name and the password that a URL holds before its first `@`.
pub open spec fn url_credentials(url: Seq<char>) -> Seq<Seq<char>> {
    match cut_around(url, "://"@) {
        Some((_, rest)) => match cut_at(rest, CharSet::One('@')) {
            Some((auth, _)) => non_empty(split_at(auth, ':')),
            None => seq![],
        },
        None => seq![],
    }
}

/// The text, as a list of at most one: none, where it is empty.
pub open spec fn sensitive(value: Option<Seq<char>>) -> Seq<Seq<char>> {
    match value {
        Some(s) => if s.len() > 0 {
            seq![s]
        } else {
            seq![]
        },
        None => seq![],
    }
}

/// Adds a text to the values that messages must not show, unless it is empty.
pub fn push_sensitive(values: &mut Vec<String>, value: Option<&str>)
    ensures
        views(final(values)@) == views(old(values)@) + sensitive(opt_str(value)),
{
    if let Some(v) = value {
        if !v.is_empty() {
            values.push(v.to_string());
        }
    }
    proof {
        assert(views(values@) =~= views(old(values)@) + sensitive(opt_str(value)));
    }
}

/// Adds the user name and the password of a URL to the values that messages must not show.
pub fn collect_url_auth(url: &str, redaction_values: &mut Vec<String>)
    ensures
        views(final(redaction_values)@) == views(old(redaction_values)@) + url_credentials(url@),
{
    let ghost before = views(redaction_values@);
    proof {
        assert(before + Seq::<Seq<char>>::empty() =~= before);
    }
    let rest = match cut_text(url, "://") {
        Some((_, rest)) => rest,
        None => return,
    };
    let auth = match cut(rest.as_str(), CharSet::One('@')) {
        Some((auth, _)) => auth,
        None => return,
    };
    let parts = split(auth.as_str(), ':');
    let mut i: usize = 0;
    proof {
        assert(non_empty(views(parts@.take(0))) =~= seq![]);
    }
    while i < parts.len()
        invariant
            i <= parts@.len(),
            views(redaction_values@) == before + non_empty(views(parts@.take(i as int))),
        decreases parts@.len() - i,
    {
        push_sensitive(redaction_values, Some(parts[i].as_str()));
        i = i + 1;
        proof {
            let done = views(parts@.take(i - 1));
            let now = views(parts@.take(i as int));
            let part = parts@[i - 1]@;
            assert(now =~= done.push(part));
            done.lemma_filter_push(part, |part: Seq<char>| part.len() > 0);
            assert(views(redaction_values@) =~= before + non_empty(now));
        }
    }
    proof {
        assert(parts@.take(i as int) =~= parts@);
    }
}

/// A byte that stands for itself in a URL.
pub open spec fn unreserved(b: u8) -> bool {
    ||| 'A' as u8 <= b <= 'Z' as u8
    ||| 'a' as u8 <= b <= 'z' as u8
    ||| '0' as u8 <= b <= '9' as u8
    ||| b == '-' as u8
    ||| b == '.' as u8
    ||| b == '_' as u8
    ||| b == '~' as u8
}

/// The upper-case hexadecimal digit of a number below 16.
pub open spec fn hex_digit(d: u8) -> char {
    if d < 10 {
        ('0' as u8 + d) as u8 as char
    } else {
        ('A' as u8 + (d - 10)) as u8 as char
    }
}

/// A byte in a URL: itself, or a percent sign and its two hexadecimal digits.
pub open spec fn encoded_byte(b: u8) -> Seq<char> {
    if unreserved(b) {
        seq![b as char]
    } else {
        seq!['%', hex_digit(b / 16), hex_digit(b % 16)]
    }
}

/// The bytes in a URL, one after another.
pub open spec fn encoded(bytes: Seq<u8>) -> Seq<char>
    decreases bytes.len(),
{
    if bytes.len() == 0 {
        seq![]
    } else {
        encoded(bytes.drop_last()) + encoded_byte(bytes.last())
    }
}

fn push_hex(out: &mut String, d: u8)
    requires
        d < 16,
    ensures
        final(out)@ == old(out)@.push(hex_digit(d)),
{
    if d < 10 {
        out.push(('0' as u8 + d) as char);
    } else {
        out.push(('A' as u8 + (d - 10)) as char);
    }
}

fn is_unreserved(b: u8) -> (found: bool)
    ensures
        found == unreserved(b),
{
    ('A' as u8 <= b && b <= 'Z' as u8) || ('a' as u8 <= b && b <= 'z' as u8) || ('0' as u8 <= b
        && b <= '9' as u8) || b == '-' as u8 || b == '.' as u8 || b == '_' as u8 || b == '~' as u8
}

/// A text in a URL: the bytes of its UTF-8 form, those with a meaning of their own in hexadecimal.
pub fn url_component(value: &str) -> (component: String)
    ensures
        component@ == encoded(encode_utf8(value@)),
{
    let bytes = value.as_bytes();
    let mut out = String::new();
    let mut i: usize = 0;
    while i < bytes.len()
        invariant
            i <= bytes@.len(),
            out@ == encoded(bytes@.take(i as int)),
        decreases bytes@.len() - i,
    {
        let b = bytes[i];
        let ghost done = out@;
        if is_unreserved(b) {
            out.push(b as char);
        } else {
            out.push('%');
            push_hex(&mut out, b / 16);
            push_hex(&mut out, b % 16);
        }
        i = i + 1;
        proof {
            let now = bytes@.take(i as int);
            assert(now.drop_last() =~= bytes@.take(i - 1));
            assert(out@ =~= done + encoded_byte(b));
        }
    }
    proof {
        assert(bytes@.take(i as int) =~= bytes@);
    }
    out
}

} // verus!
