//! Messages show no secret.

use vstd::prelude::*;

use crate::config::{
    config_asked, masked, redacted, server_url, token_fields, ConfigModel,
};
use crate::json::JsonModel;
use crate::replace::replaced;
use crate::request::{
    candidates, first_read, secret_fields, secret_given, string_option, text_fields, text_within,
};
use crate::text::{begins_with, occurs, trimmed};
use crate::url::{sensitive, url_credentials};

verus! {

/// What does not occur in a text does not occur in what follows its first `k` characters.
proof fn lemma_absent_in_rest(s: Seq<char>, pattern: Seq<char>, k: int)
    requires
        0 <= k <= s.len(),
        !occurs(s, pattern),
    ensures
        !occurs(s.skip(k), pattern),
{
    let rest = s.skip(k);
    assert forall|i: int| 0 <= i <= rest.len() implies !begins_with(
        #[trigger] rest.skip(i),
        pattern,
    ) by {
        assert(rest.skip(i) =~= s.skip(k + i));
    }
}

/// A text that `mark` cannot help to spell: neither is part of the other, and none ends as the
/// other begins.
pub open spec fn apart(pattern: Seq<char>, mark: Seq<char>) -> bool {
    &&& pattern.len() > 0
    &&& !occurs(pattern, mark)
    &&& !occurs(mark, pattern)
    &&& !runs_into(pattern, mark)
    &&& !runs_into(mark, pattern)
}

/// `a` ends as `b` begins, with at least one character.
pub open spec fn runs_into(a: Seq<char>, b: Seq<char>) -> bool {
    exists|k: int| 0 < k <= a.len() && k <= b.len() && #[trigger] a.skip(a.len() - k) == b.take(k)
}

/// What begins a text in which marks replace something began the text before, where no mark can be
/// part of it.
proof fn lemma_prefix_kept(s: Seq<char>, from: Seq<char>, mark: Seq<char>, prefix: Seq<char>)
    requires
        from.len() > 0,
        begins_with(replaced(s, from, mark), prefix),
        !occurs(prefix, mark),
        !runs_into(prefix, mark),
    ensures
        begins_with(s, prefix),
    decreases s.len(),
{
    let r = replaced(s, from, mark);
    let n = prefix.len() as int;
    assert(prefix.skip(0) =~= prefix);
    if n == 0 {
        assert(s.take(0) =~= prefix);
    } else if s.len() == 0 {
    } else if begins_with(s, from) {
        if n <= mark.len() {
            assert(r.take(n) =~= mark.take(n));
            assert(prefix.skip(prefix.len() - n) == mark.take(n));
        } else {
            assert(r.take(n).take(mark.len() as int) =~= mark);
            assert(begins_with(prefix.skip(0), mark));
        }
    } else {
        let rest = replaced(s.skip(1), from, mark);
        let tail = prefix.skip(1);
        assert(r.take(n).skip(1) =~= rest.take(n - 1));
        lemma_absent_in_rest(prefix, mark, 1);
        assert forall|k: int| 0 < k <= tail.len() && k <= mark.len() implies #[trigger] tail.skip(
            tail.len() - k,
        ) != mark.take(k) by {
            assert(tail.skip(tail.len() - k) =~= prefix.skip(prefix.len() - k));
        }
        lemma_prefix_kept(s.skip(1), from, mark, tail);
        assert(r.take(n)[0] == s[0]);
        assert forall|j: int| 0 <= j < n implies s.take(n)[j] == prefix[j] by {
            if j > 0 {
                assert(s.skip(1).take(n - 1)[j - 1] == tail[j - 1]);
            }
        }
        assert(s.take(n) =~= prefix);
    }
}

/// A text that does not occur, or that marks replace, does not occur once marks have replaced
/// something.
proof fn lemma_stays_absent(s: Seq<char>, from: Seq<char>, mark: Seq<char>, pattern: Seq<char>)
    requires
        from.len() > 0,
        apart(pattern, mark),
        pattern == from || !occurs(s, pattern),
    ensures
        !occurs(replaced(s, from, mark), pattern),
    decreases s.len(),
{
    let r = replaced(s, from, mark);
    let n = pattern.len() as int;
    if s.len() == 0 {
    } else if begins_with(s, from) {
        let m = from.len() as int;
        let w = mark.len() as int;
        if pattern != from {
            lemma_absent_in_rest(s, pattern, m);
        }
        lemma_stays_absent(s.skip(m), from, mark, pattern);
        let rest = replaced(s.skip(m), from, mark);
        assert forall|i: int| 0 <= i <= r.len() implies !begins_with(
            #[trigger] r.skip(i),
            pattern,
        ) by {
            if begins_with(r.skip(i), pattern) {
                if i >= w {
                    assert(r.skip(i) =~= rest.skip(i - w));
                } else if i + n <= w {
                    assert(mark.skip(i).take(n) =~= r.skip(i).take(n));
                    assert(begins_with(mark.skip(i), pattern));
                } else {
                    let k = w - i;
                    assert(r.skip(i).take(n).take(k) =~= mark.skip(w - k));
                    assert(mark.skip(mark.len() - k) == pattern.take(k));
                }
            }
        }
    } else {
        if pattern != from {
            lemma_absent_in_rest(s, pattern, 1);
        }
        lemma_stays_absent(s.skip(1), from, mark, pattern);
        let rest = replaced(s.skip(1), from, mark);
        assert forall|i: int| 0 <= i <= r.len() implies !begins_with(
            #[trigger] r.skip(i),
            pattern,
        ) by {
            if begins_with(r.skip(i), pattern) {
                if i > 0 {
                    assert(r.skip(i) =~= rest.skip(i - 1));
                } else {
                    assert(r.skip(0) =~= r);
                    lemma_prefix_kept(s, from, mark, pattern);
                    assert(s.skip(0) =~= s);
                    assert(begins_with(s.skip(0), pattern));
                }
            }
        }
    }
}

/// What masking must hide, or what was not there before, is not there after.
proof fn lemma_masked(message: Seq<char>, values: Seq<Seq<char>>, pattern: Seq<char>)
    requires
        values.contains(pattern) || !occurs(message, pattern),
        apart(pattern, "****"@),
    ensures
        !occurs(masked(message, values), pattern),
    decreases values.len(),
{
    if values.len() > 0 {
        let head = values.drop_last();
        let last = values.last();
        if pattern != last {
            if values.contains(pattern) {
                let k = choose|k: int| 0 <= k < values.len() && values[k] == pattern;
                assert(head[k] == pattern);
            }
            lemma_masked(message, head, pattern);
        }
        if last.len() > 0 {
            lemma_stays_absent(masked(message, head), last, "****"@, pattern);
        }
    }
}

/// A text without asterisks is one that asterisks cannot help to spell.
pub proof fn law_texts_without_asterisks_are_apart(pattern: Seq<char>)
    requires
        pattern.len() > 0,
        !pattern.contains('*'),
    ensures
        apart(pattern, "****"@),
{
    reveal_strlit("****");
    let stars = "****"@;
    assert forall|i: int| 0 <= i <= pattern.len() implies !begins_with(
        #[trigger] pattern.skip(i),
        stars,
    ) by {
        if begins_with(pattern.skip(i), stars) {
            assert(pattern.skip(i).take(4)[0] == stars[0]);
            assert(pattern[i] == '*');
        }
    }
    assert forall|i: int| 0 <= i <= stars.len() implies !begins_with(
        #[trigger] stars.skip(i),
        pattern,
    ) by {
        if begins_with(stars.skip(i), pattern) {
            assert(stars.skip(i).take(pattern.len() as int)[0] == stars[i]);
            assert(pattern[0] == '*');
        }
    }
    assert forall|k: int|
        0 < k <= pattern.len() && k <= stars.len() implies #[trigger] pattern.skip(
        pattern.len() - k,
    ) != stars.take(k) by {
        if pattern.skip(pattern.len() - k) == stars.take(k) {
            assert(pattern.skip(pattern.len() - k)[0] == stars.take(k)[0]);
            assert(pattern[pattern.len() - k] == '*');
        }
    }
    assert forall|k: int| 0 < k <= stars.len() && k <= pattern.len() implies #[trigger] stars.skip(
        stars.len() - k,
    ) != pattern.take(k) by {
        if stars.skip(stars.len() - k) == pattern.take(k) {
            assert(stars.skip(stars.len() - k)[0] == pattern.take(k)[0]);
            assert(pattern[0] == '*');
        }
    }
}

/// A redacted message shows none of the values that it must not show. Left out are values that the
/// four asterisks in place of a value can help to spell.
pub proof fn law_secrets_never_shown(config: ConfigModel, message: Seq<char>, secret: Seq<char>)
    requires
        config.redaction_values.contains(secret),
        apart(secret, "****"@),
    ensures
        !occurs(redacted(config, message), secret),
{
    lemma_masked(
        replaced(message, config.base_url, "<influxdb-url>"@),
        config.redaction_values,
        secret,
    );
}

/// A redacted message does not show the server's address. Left out are addresses that what stands
/// in place of an address or of a secret can help to spell.
pub proof fn law_address_never_shown(config: ConfigModel, message: Seq<char>)
    requires
        apart(config.base_url, "<influxdb-url>"@),
        apart(config.base_url, "****"@),
    ensures
        !occurs(redacted(config, message), config.base_url),
{
    lemma_stays_absent(message, config.base_url, "<influxdb-url>"@, config.base_url);
    lemma_masked(
        replaced(message, config.base_url, "<influxdb-url>"@),
        config.redaction_values,
        config.base_url,
    );
}

/// Where nothing occurs that is to be replaced, nothing changes.
proof fn lemma_nothing_replaced(s: Seq<char>, from: Seq<char>, mark: Seq<char>)
    requires
        from.len() > 0,
        !occurs(s, from),
    ensures
        replaced(s, from, mark) == s,
    decreases s.len(),
{
    if s.len() > 0 {
        assert(s.skip(0) =~= s);
        assert(!begins_with(s.skip(0), from));
        lemma_absent_in_rest(s, from, 1);
        lemma_nothing_replaced(s.skip(1), from, mark);
        assert(seq![s[0]] + s.skip(1) =~= s);
    }
}

proof fn lemma_nothing_masked(message: Seq<char>, values: Seq<Seq<char>>)
    requires
        forall|i: int|
            0 <= i < values.len() ==> (#[trigger] values[i]).len() == 0 || !occurs(
                message,
                values[i],
            ),
    ensures
        masked(message, values) == message,
    decreases values.len(),
{
    if values.len() > 0 {
        let head = values.drop_last();
        assert forall|i: int| 0 <= i < head.len() implies (#[trigger] head[i]).len() == 0
            || !occurs(message, head[i]) by {
            assert(head[i] == values[i]);
        }
        lemma_nothing_masked(message, head);
        let last = values[values.len() - 1];
        if last.len() > 0 {
            lemma_nothing_replaced(message, last, "****"@);
        }
    }
}

/// A message that shows neither the address nor a secret is kept as it is.
pub proof fn law_harmless_message_is_kept(config: ConfigModel, message: Seq<char>)
    requires
        config.base_url.len() > 0,
        !occurs(message, config.base_url),
        forall|i: int|
            0 <= i < config.redaction_values.len() ==> (
            #[trigger] config.redaction_values[i]).len() == 0 || !occurs(
                message,
                config.redaction_values[i],
            ),
    ensures
        redacted(config, message) == message,
{
    lemma_nothing_replaced(message, config.base_url, "<influxdb-url>"@);
    lemma_nothing_masked(message, config.redaction_values);
}

/// What is read first is what `read` makes of one of the values.
proof fn lemma_first_read_is_read<T>(
    values: Seq<JsonModel>,
    read: spec_fn(JsonModel) -> Option<T>,
)
    ensures
        first_read(values, read) is Some ==> exists|i: int|
            0 <= i < values.len() && read(#[trigger] values[i]) == first_read(values, read),
    decreases values.len(),
{
    if values.len() > 0 {
        if read(values[0]) is None {
            let rest = values.skip(1);
            lemma_first_read_is_read(rest, read);
            if first_read(values, read) is Some {
                let i = choose|i: int|
                    0 <= i < rest.len() && read(#[trigger] rest[i]) == first_read(rest, read);
                assert(values[i + 1] == rest[i]);
            }
        } else {
            assert(read(values[0]) == first_read(values, read));
        }
    }
}

/// A text that an option gives is never blank: a blank one counts as none.
pub proof fn law_options_are_not_blank(request: JsonModel, fields: Seq<Seq<char>>)
    ensures
        string_option(request, fields) matches Some(text) ==> trimmed(text).len() > 0,
        secret_given(request, fields) matches Some(text) ==> trimmed(text).len() > 0,
{
    lemma_first_read_is_read(
        candidates(request, fields),
        |v: JsonModel| text_within(v, text_fields()),
    );
    lemma_first_read_is_read(
        candidates(request, fields),
        |v: JsonModel| text_within(v, secret_fields()),
    );
}

/// Nothing is left of nothing when it is trimmed.
proof fn lemma_trimmed_empty()
    ensures
        trimmed(Seq::<char>::empty()).len() == 0,
{
}

/// The token and the credentials of the URL are among the values that messages must not show.
pub proof fn law_credentials_are_sensitive(request: JsonModel)
    ensures
        config_asked(request) matches Ok(config) ==> {
            &&& config.token matches Some(token) ==> config.redaction_values.contains(token)
            &&& server_url(request) matches Ok(url) ==> forall|part: Seq<char>| #[trigger]
                url_credentials(url).contains(part) ==> config.redaction_values.contains(part)
        },
{
    if let Ok(config) = config_asked(request) {
        let url = server_url(request)->Ok_0;
        let head = sensitive(config.token);
        let tail = url_credentials(url);
        assert(config.redaction_values == head + tail);
        if let Some(token) = config.token {
            law_options_are_not_blank(request, token_fields());
            lemma_trimmed_empty();
            if token.len() == 0 {
                assert(token =~= Seq::<char>::empty());
            }
            assert((head + tail)[0] == token);
        }
        assert forall|part: Seq<char>| #[trigger] tail.contains(part) implies (head
            + tail).contains(part) by {
            let k = choose|k: int| 0 <= k < tail.len() && tail[k] == part;
            assert((head + tail)[head.len() + k] == part);
        }
    }
}

/// A message redacted for a connection never shows the token that it was opened with.
pub proof fn law_token_never_shown(request: JsonModel, message: Seq<char>)
    ensures
        config_asked(request) matches Ok(config) ==> (config.token matches Some(token)
            ==> apart(token, "****"@) ==> !occurs(redacted(config, message), token)),
{
    law_credentials_are_sensitive(request);
    if let Ok(config) = config_asked(request) {
        if let Some(token) = config.token {
            if apart(token, "****"@) {
                law_secrets_never_shown(config, message, token);
            }
        }
    }
}

/// First the server's address is replaced, and then one sensitive text after another, each by four
/// asterisks; an empty one is passed over.
pub proof fn law_redaction_goes_in_turn(config: ConfigModel, value: Seq<char>, message: Seq<char>)
    ensures
        config.redaction_values.len() == 0 ==> redacted(config, message) == replaced(
            message,
            config.base_url,
            "<influxdb-url>"@,
        ),
        redacted(
            (ConfigModel { redaction_values: config.redaction_values.push(value), ..config }),
            message,
        ) == (if value.len() > 0 {
            replaced(redacted(config, message), value, "****"@)
        } else {
            redacted(config, message)
        }),
{
    let values = config.redaction_values;
    assert(values.push(value).drop_last() =~= values);
}

} // verus!
