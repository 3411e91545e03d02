//! Text as sequences of characters: trimming, searching and splitting.

use vstd::prelude::*;
use vstd::string::StringExecFns;

verus! {

/// `String::push` appends the character to the end of the string.
pub assume_specification[ std::string::String::push ](s: &mut std::string::String, c: char)
    ensures
        final(s)@ == old(s)@.push(c),
;

/// A set of characters, as the trimming and searching functions take it.
#[derive(Clone, Copy)]
pub enum CharSet {
    /// The characters with the Unicode property `White_Space`.
    WhiteSpace,
    /// One character.
    One(char),
    /// Either of two characters.
    Two(char, char),
}

/// The characters with the Unicode property `White_Space`.
pub open spec fn is_white_space(c: char) -> bool {
    ||| '\u{9}' <= c <= '\u{D}'
    ||| c == '\u{20}'
    ||| c == '\u{85}'
    ||| c == '\u{A0}'
    ||| c == '\u{1680}'
    ||| '\u{2000}' <= c <= '\u{200A}'
    ||| c == '\u{2028}'
    ||| c == '\u{2029}'
    ||| c == '\u{202F}'
    ||| c == '\u{205F}'
    ||| c == '\u{3000}'
}

impl CharSet {
    pub open spec fn has(self, c: char) -> bool {
        match self {
            CharSet::WhiteSpace => is_white_space(c),
            CharSet::One(a) => c == a,
            CharSet::Two(a, b) => c == a || c == b,
        }
    }

    /// Whether the set holds `c`.
    pub fn contains(&self, c: char) -> (found: bool)
        ensures
            found == self.has(c),
    {
        match *self {
            CharSet::WhiteSpace => {
                ('\u{9}' <= c && c <= '\u{D}') || c == '\u{20}' || c == '\u{85}' || c == '\u{A0}'
                    || c == '\u{1680}' || ('\u{2000}' <= c && c <= '\u{200A}') || c == '\u{2028}'
                    || c == '\u{2029}' || c == '\u{202F}' || c == '\u{205F}' || c == '\u{3000}'
            },
            CharSet::One(a) => c == a,
            CharSet::Two(a, b) => c == a || c == b,
        }
    }
}

/// The characters of `s`.
pub fn chars_of(s: &str) -> (chars: Vec<char>)
    ensures
        chars@ == s@,
{
    let mut chars: Vec<char> = Vec::new();
    for c in it: s.chars()
        invariant
            it.seq() == s@,
            chars@ == s@.take(it.index()),
    {
        proof {
            assert(s@.take(it.index() + 1) =~= s@.take(it.index()).push(c));
        }
        chars.push(c);
    }
    proof {
        assert(s@.take(s@.len() as int) =~= s@);
    }
    chars
}

/// The string of the characters from `from` up to `to`.
pub fn string_of(chars: &Vec<char>, from: usize, to: usize) -> (s: String)
    requires
        from <= to <= chars@.len(),
    ensures
        s@ == chars@.subrange(from as int, to as int),
{
    let mut s = String::new();
    let mut i: usize = from;
    while i < to
        invariant
            from <= i <= to <= chars@.len(),
            s@ == chars@.subrange(from as int, i as int),
        decreases to - i,
    {
        s.push(chars[i]);
        i = i + 1;
        proof {
            assert(chars@.subrange(from as int, i as int) =~= chars@.subrange(
                from as int,
                i - 1,
            ).push(chars@[i - 1]));
        }
    }
    s
}

/// `s` without the leading characters of `set`.
pub open spec fn skip_leading(s: Seq<char>, set: CharSet) -> Seq<char>
    decreases s.len(),
{
    if s.len() > 0 && set.has(s[0]) {
        skip_leading(s.skip(1), set)
    } else {
        s
    }
}

/// `s` without the trailing characters of `set`.
pub open spec fn skip_trailing(s: Seq<char>, set: CharSet) -> Seq<char>
    decreases s.len(),
{
    if s.len() > 0 && set.has(s.last()) {
        skip_trailing(s.drop_last(), set)
    } else {
        s
    }
}

/// `s` without the leading and the trailing characters of `set`.
pub open spec fn strip_both(s: Seq<char>, set: CharSet) -> Seq<char> {
    skip_trailing(skip_leading(s, set), set)
}

/// `s` without leading and trailing white space.
pub open spec fn trimmed(s: Seq<char>) -> Seq<char> {
    strip_both(s, CharSet::WhiteSpace)
}

fn leading_end(chars: &Vec<char>, set: CharSet) -> (i: usize)
    ensures
        i <= chars@.len(),
        skip_leading(chars@, set) == chars@.skip(i as int),
{
    let mut i: usize = 0;
    proof {
        assert(chars@.skip(0) =~= chars@);
    }
    while i < chars.len() && set.contains(chars[i])
        invariant
            i <= chars@.len(),
            skip_leading(chars@, set) == skip_leading(chars@.skip(i as int), set),
        decreases chars@.len() - i,
    {
        proof {
            assert(chars@.skip(i as int).skip(1) =~= chars@.skip(i + 1));
        }
        i = i + 1;
    }
    i
}

fn trailing_start(chars: &Vec<char>, from: usize, set: CharSet) -> (j: usize)
    requires
        from <= chars@.len(),
    ensures
        from <= j <= chars@.len(),
        skip_trailing(chars@.skip(from as int), set) == chars@.subrange(from as int, j as int),
{
    let mut j: usize = chars.len();
    proof {
        assert(chars@.skip(from as int) =~= chars@.subrange(from as int, j as int));
    }
    while from < j && set.contains(chars[j - 1])
        invariant
            from <= j <= chars@.len(),
            skip_trailing(chars@.skip(from as int), set) == skip_trailing(
                chars@.subrange(from as int, j as int),
                set,
            ),
        decreases j,
    {
        proof {
            assert(chars@.subrange(from as int, j as int).drop_last() =~= chars@.subrange(
                from as int,
                j - 1,
            ));
        }
        j = j - 1;
    }
    j
}

/// `s` without the leading and the trailing characters of `set`.
pub fn strip(s: &str, set: CharSet) -> (stripped: String)
    ensures
        stripped@ == strip_both(s@, set),
{
    let chars = chars_of(s);
    let i = leading_end(&chars, set);
    let j = trailing_start(&chars, i, set);
    string_of(&chars, i, j)
}

/// `s` without leading and trailing white space.
pub fn trim(s: &str) -> (stripped: String)
    ensures
        stripped@ == trimmed(s@),
{
    strip(s, CharSet::WhiteSpace)
}

/// `s` without the trailing characters of `set`.
pub fn strip_end(s: &str, set: CharSet) -> (stripped: String)
    ensures
        stripped@ == skip_trailing(s@, set),
{
    let chars = chars_of(s);
    let j = trailing_start(&chars, 0, set);
    proof {
        assert(chars@.skip(0) =~= chars@);
    }
    string_of(&chars, 0, j)
}

/// Whether `s` holds nothing but white space.
pub fn is_blank(s: &str) -> (blank: bool)
    ensures
        blank == (trimmed(s@).len() == 0),
{
    let stripped = trim(s);
    stripped.as_str().is_empty()
}

/// Whether the two texts hold the same characters.
pub fn same(a: &str, b: &str) -> (equal: bool)
    ensures
        equal == (a@ == b@),
{
    let left = a.to_string();
    let right = b.to_string();
    left == right
}

/// How many characters stand before the first one of `set`: all of them, where there is none.
pub open spec fn first_pos(s: Seq<char>, set: CharSet) -> nat
    decreases s.len(),
{
    if s.len() == 0 || set.has(s[0]) {
        0
    } else {
        1 + first_pos(s.skip(1), set)
    }
}

/// The part of `s` before its first character of `set`: the whole, where there is none.
pub open spec fn before_first(s: Seq<char>, set: CharSet) -> Seq<char> {
    s.take(first_pos(s, set) as int)
}

/// The parts before and after the first character of `set`.
pub open spec fn cut_at(s: Seq<char>, set: CharSet) -> Option<(Seq<char>, Seq<char>)> {
    let i = first_pos(s, set);
    if i < s.len() {
        Some((s.take(i as int), s.skip(i as int + 1)))
    } else {
        None
    }
}

/// The parts of `s` between the occurrences of `c`, in order.
pub open spec fn split_at(s: Seq<char>, c: char) -> Seq<Seq<char>>
    decreases s.len(),
{
    let i = first_pos(s, CharSet::One(c));
    if i < s.len() {
        proof {
            lemma_first_pos(s, CharSet::One(c));
        }
        seq![s.take(i as int)] + split_at(s.skip(i as int + 1), c)
    } else {
        seq![s]
    }
}

/// The first position holds a character of `set`, and none before it does.
pub proof fn lemma_first_pos(s: Seq<char>, set: CharSet)
    ensures
        0 <= first_pos(s, set) <= s.len(),
        first_pos(s, set) < s.len() ==> set.has(s[first_pos(s, set) as int]),
        forall|k: int| 0 <= k < first_pos(s, set) ==> !set.has(#[trigger] s[k]),
    decreases s.len(),
{
    if s.len() == 0 || set.has(s[0]) {
    } else {
        lemma_first_pos(s.skip(1), set);
        assert forall|k: int| 0 <= k < first_pos(s, set) implies !set.has(#[trigger] s[k]) by {
            if k > 0 {
                assert(s.skip(1)[k - 1] == s[k]);
            }
        }
    }
}

/// A position that holds a character of `set`, with none before it, is the first one.
pub proof fn lemma_first_pos_is(s: Seq<char>, set: CharSet, i: int)
    requires
        0 <= i <= s.len(),
        i < s.len() ==> set.has(s[i]),
        forall|k: int| 0 <= k < i ==> !set.has(#[trigger] s[k]),
    ensures
        first_pos(s, set) == i,
{
    lemma_first_pos(s, set);
    let p = first_pos(s, set) as int;
    if p < i {
        assert(!set.has(s[p]));
    } else if i < p {
        assert(!set.has(s[i]));
    }
}

fn position(chars: &Vec<char>, from: usize, set: CharSet) -> (i: usize)
    requires
        from <= chars@.len(),
    ensures
        from <= i <= chars@.len(),
        first_pos(chars@.skip(from as int), set) == i - from,
{
    let mut i: usize = from;
    while i < chars.len() && !set.contains(chars[i])
        invariant
            from <= i <= chars@.len(),
            forall|k: int| from <= k < i ==> !set.has(#[trigger] chars@[k]),
        decreases chars@.len() - i,
    {
        i = i + 1;
    }
    proof {
        lemma_first_pos_is(chars@.skip(from as int), set, i - from);
    }
    i
}

/// The part of `s` before its first character of `set`: the whole, where there is none.
pub fn before(s: &str, set: CharSet) -> (part: String)
    ensures
        part@ == before_first(s@, set),
{
    let chars = chars_of(s);
    let i = position(&chars, 0, set);
    proof {
        assert(chars@.skip(0) =~= chars@);
    }
    string_of(&chars, 0, i)
}

/// The view of a text that may be there.
pub open spec fn opt_str(text: Option<&str>) -> Option<Seq<char>> {
    match text {
        Some(t) => Some(t@),
        None => None,
    }
}

/// The view of a string that may be there.
pub open spec fn opt_string(text: Option<String>) -> Option<Seq<char>> {
    match text {
        Some(t) => Some(t@),
        None => None,
    }
}

/// The views of the two parts of a cut.
pub open spec fn cut_view(cut: Option<(String, String)>) -> Option<(Seq<char>, Seq<char>)> {
    match cut {
        Some((a, b)) => Some((a@, b@)),
        None => None,
    }
}

/// The parts before and after the first character of `set`.
pub fn cut(s: &str, set: CharSet) -> (parts: Option<(String, String)>)
    ensures
        cut_view(parts) == cut_at(s@, set),
{
    let chars = chars_of(s);
    let i = position(&chars, 0, set);
    proof {
        assert(chars@.skip(0) =~= chars@);
    }
    if i < chars.len() {
        let head = string_of(&chars, 0, i);
        let tail = string_of(&chars, i + 1, chars.len());
        proof {
            assert(tail@ =~= s@.skip(i + 1));
        }
        Some((head, tail))
    } else {
        None
    }
}

/// The views of a list of strings.
pub open spec fn views(list: Seq<String>) -> Seq<Seq<char>> {
    list.map_values(|s: String| s@)
}

/// The parts of `s` between the occurrences of `c`, in order.
pub fn split(s: &str, c: char) -> (parts: Vec<String>)
    ensures
        views(parts@) == split_at(s@, c),
{
    let chars = chars_of(s);
    let mut parts: Vec<String> = Vec::new();
    let mut from: usize = 0;
    proof {
        assert(chars@.skip(0) =~= chars@);
        assert(views(parts@) + split_at(s@, c) =~= split_at(s@, c));
    }
    loop
        invariant
            chars@ == s@,
            from <= chars@.len(),
            views(parts@) + split_at(chars@.skip(from as int), c) == split_at(s@, c),
        decreases chars@.len() - from,
    {
        let ghost before = parts@;
        let ghost rest = chars@.skip(from as int);
        let i = position(&chars, from, CharSet::One(c));
        let part = string_of(&chars, from, i);
        proof {
            assert(part@ =~= rest.take(i - from));
        }
        parts.push(part);
        proof {
            assert(views(parts@) =~= views(before).push(part@));
        }
        if i == chars.len() {
            proof {
                assert(rest.take(i - from) =~= rest);
                assert(views(parts@) =~= views(before) + seq![rest]);
            }
            return parts;
        }
        proof {
            assert(rest.skip(i - from + 1) =~= chars@.skip(i + 1));
            assert(views(parts@) + split_at(chars@.skip(i + 1), c) =~= views(before) + (seq![
                rest.take(i - from),
            ] + split_at(chars@.skip(i + 1), c)));
        }
        from = i + 1;
    }
}

/// Whether `s` begins with `prefix`.
pub open spec fn begins_with(s: Seq<char>, prefix: Seq<char>) -> bool {
    prefix.len() <= s.len() && s.take(prefix.len() as int) == prefix
}

/// Where `pattern` first occurs in `s`.
pub open spec fn find(s: Seq<char>, pattern: Seq<char>) -> Option<nat>
    decreases s.len(),
{
    if begins_with(s, pattern) {
        Some(0)
    } else if s.len() == 0 {
        None
    } else {
        match find(s.skip(1), pattern) {
            Some(i) => Some(i + 1),
            None => None,
        }
    }
}

/// The parts of `s` before and after the first occurrence of `pattern`.
pub open spec fn cut_around(s: Seq<char>, pattern: Seq<char>) -> Option<(Seq<char>, Seq<char>)> {
    match find(s, pattern) {
        Some(i) => Some((s.take(i as int), s.skip((i + pattern.len()) as int))),
        None => None,
    }
}

/// `pattern` occurs in `s` somewhere.
pub open spec fn occurs(s: Seq<char>, pattern: Seq<char>) -> bool {
    exists|i: int| 0 <= i <= s.len() && #[trigger] begins_with(s.skip(i), pattern)
}

/// What `find` finds is an occurrence, and none comes before it.
pub proof fn lemma_find(s: Seq<char>, pattern: Seq<char>)
    ensures
        find(s, pattern) matches Some(i) ==> i + pattern.len() <= s.len() && begins_with(
            s.skip(i as int),
            pattern,
        ) && forall|k: int| 0 <= k < i ==> !begins_with(#[trigger] s.skip(k), pattern),
        find(s, pattern) is None ==> !occurs(s, pattern),
    decreases s.len(),
{
    assert(s.skip(0) =~= s);
    if begins_with(s, pattern) {
    } else if s.len() == 0 {
        assert forall|k: int| 0 <= k <= s.len() implies !begins_with(
            #[trigger] s.skip(k),
            pattern,
        ) by {
            assert(s.skip(k) =~= s);
        }
    } else {
        let t = s.skip(1);
        lemma_find(t, pattern);
        assert forall|k: int| 1 <= k <= s.len() implies #[trigger] s.skip(k) == t.skip(k - 1) by {
            assert(s.skip(k) =~= t.skip(k - 1));
        }
        if find(t, pattern) is None {
            assert forall|k: int| 0 <= k <= s.len() implies !begins_with(
                #[trigger] s.skip(k),
                pattern,
            ) by {
                if k > 0 {
                    assert(!begins_with(t.skip(k - 1), pattern));
                }
            }
        }
    }
}

/// An occurrence with none before it is what `find` finds.
pub proof fn lemma_find_is(s: Seq<char>, pattern: Seq<char>, i: int)
    requires
        0 <= i <= s.len(),
        begins_with(s.skip(i), pattern),
        forall|k: int| 0 <= k < i ==> !begins_with(#[trigger] s.skip(k), pattern),
    ensures
        find(s, pattern) == Some(i as nat),
{
    lemma_find(s, pattern);
    match find(s, pattern) {
        Some(p) => {
            if p < i {
                assert(!begins_with(s.skip(p as int), pattern));
            } else if i < p {
                assert(!begins_with(s.skip(i), pattern));
            }
        },
        None => {
            assert(occurs(s, pattern));
        },
    }
}

pub(crate) fn begins_at(chars: &Vec<char>, at: usize, pattern: &Vec<char>) -> (found: bool)
    requires
        at <= chars@.len(),
    ensures
        found == begins_with(chars@.skip(at as int), pattern@),
{
    if pattern.len() > chars.len() - at {
        return false;
    }
    let n = chars.len();
    let mut k: usize = 0;
    while k < pattern.len()
        invariant
            n == chars@.len(),
            k <= pattern@.len() <= chars@.len() - at,
            forall|j: int| 0 <= j < k ==> chars@[at + j] == #[trigger] pattern@[j],
        decreases pattern@.len() - k,
    {
        if chars[at + k] != pattern[k] {
            proof {
                let head = chars@.skip(at as int).take(pattern@.len() as int);
                assert(head[k as int] != pattern@[k as int]);
            }
            return false;
        }
        k = k + 1;
    }
    proof {
        assert(chars@.skip(at as int).take(pattern@.len() as int) =~= pattern@);
    }
    true
}

/// Whether `s` begins with `prefix`.
pub fn starts_with(s: &str, prefix: &str) -> (found: bool)
    ensures
        found == begins_with(s@, prefix@),
{
    let chars = chars_of(s);
    let pattern = chars_of(prefix);
    proof {
        assert(chars@.skip(0) =~= chars@);
    }
    begins_at(&chars, 0, &pattern)
}

/// What follows the first `n` characters of `s`.
pub fn skip_chars(s: &str, n: usize) -> (rest: String)
    requires
        n <= s@.len(),
    ensures
        rest@ == s@.skip(n as int),
{
    let chars = chars_of(s);
    let rest = string_of(&chars, n, chars.len());
    proof {
        assert(rest@ =~= s@.skip(n as int));
    }
    rest
}

/// The first `n` characters of `s`: all of them, where there are fewer.
pub open spec fn first_chars(s: Seq<char>, n: nat) -> Seq<char> {
    if s.len() <= n {
        s
    } else {
        s.take(n as int)
    }
}

/// The first `n` characters of `s`: all of them, where there are fewer.
pub fn take_chars(s: &str, n: usize) -> (head: String)
    ensures
        head@ == first_chars(s@, n as nat),
{
    let chars = chars_of(s);
    let end: usize = if chars.len() <= n {
        chars.len()
    } else {
        n
    };
    let head = string_of(&chars, 0, end);
    proof {
        assert(head@ =~= first_chars(s@, n as nat));
    }
    head
}

/// The parts of `s` before and after the first occurrence of `pattern`.
pub fn cut_text(s: &str, pattern: &str) -> (parts: Option<(String, String)>)
    ensures
        cut_view(parts) == cut_around(s@, pattern@),
{
    let chars = chars_of(s);
    let needle = chars_of(pattern);
    let n = chars.len();
    let mut i: usize = 0;
    loop
        invariant
            chars@ == s@,
            n == chars@.len(),
            needle@ == pattern@,
            i <= chars@.len(),
            forall|k: int| 0 <= k < i ==> !begins_with(#[trigger] s@.skip(k), pattern@),
        decreases chars@.len() - i,
    {
        if begins_at(&chars, i, &needle) {
            proof {
                lemma_find_is(s@, pattern@, i as int);
                lemma_find(s@, pattern@);
            }
            let head = string_of(&chars, 0, i);
            let tail = string_of(&chars, i + needle.len(), n);
            proof {
                assert(tail@ =~= s@.skip(i + needle@.len()));
            }
            return Some((head, tail));
        }
        if i == chars.len() {
            proof {
                lemma_find(s@, pattern@);
                if let Some(p) = find(s@, pattern@) {
                    assert(!begins_with(s@.skip(p as int), pattern@));
                }
            }
            return None;
        }
        i = i + 1;
    }
}

} // verus!
