//! What trimming, searching, splitting, replacing, numerals and the order of texts come to.

use vstd::prelude::*;

use crate::numeral::{decimal, digit_value, digits_value, is_digit, parsed_u64};
use crate::order::{increasing, lemma_precedes_at, precedes};
use crate::replace::{lowered, replaced};
use crate::text::{
    before_first, begins_with, cut_around, cut_at, find, first_chars, first_pos, is_white_space,
    lemma_find, lemma_first_pos, occurs, skip_leading, skip_trailing, split_at, strip_both,
    trimmed, CharSet,
};

verus! {

/// White space is what Unicode calls so: in ASCII the blank, the tabulators, the line and form
/// feeds and the carriage return, beyond it nineteen characters more.
pub proof fn law_white_space(c: char)
    ensures
        is_white_space(c) <==> {
            let n = c as int;
            9 <= n <= 13 || n == 32 || n == 0x85 || n == 0xA0 || n == 0x1680 || 0x2000 <= n
                <= 0x200A || n == 0x2028 || n == 0x2029 || n == 0x202F || n == 0x205F || n
                == 0x3000
        },
{
}

/// A set of characters holds the characters that it is named by, and no others.
pub proof fn law_char_sets(a: char, b: char, c: char)
    ensures
        CharSet::One(a).has(c) <==> c == a,
        CharSet::Two(a, b).has(c) <==> (c == a || c == b),
        CharSet::WhiteSpace.has(c) <==> is_white_space(c),
{
}

/// What is left out at the start is of the set, and what then comes first is not.
proof fn lemma_leading(s: Seq<char>, set: CharSet) -> (i: int)
    ensures
        0 <= i <= s.len(),
        skip_leading(s, set) == s.skip(i),
        forall|k: int| 0 <= k < i ==> set.has(#[trigger] s[k]),
        i < s.len() ==> !set.has(s[i]),
    decreases s.len(),
{
    if s.len() > 0 && set.has(s[0]) {
        let rest = s.skip(1);
        let i = lemma_leading(rest, set);
        assert(rest.skip(i) =~= s.skip(i + 1));
        assert forall|k: int| 0 <= k < i + 1 implies set.has(#[trigger] s[k]) by {
            if k > 0 {
                assert(rest[k - 1] == s[k]);
            }
        }
        if i < rest.len() {
            assert(rest[i] == s[i + 1]);
        }
        i + 1
    } else {
        assert(s.skip(0) =~= s);
        0
    }
}

/// What is left out at the end is of the set, and what then comes last is not.
pub proof fn law_trailing_characters_are_left_out(s: Seq<char>, set: CharSet)
    ensures
        skip_trailing(s, set).len() <= s.len(),
        forall|k: int|
            0 <= k < skip_trailing(s, set).len() ==> #[trigger] skip_trailing(s, set)[k] == s[k],
        forall|k: int| skip_trailing(s, set).len() <= k < s.len() ==> set.has(#[trigger] s[k]),
        skip_trailing(s, set).len() > 0 ==> !set.has(s[skip_trailing(s, set).len() - 1]),
    decreases s.len(),
{
    if s.len() > 0 && set.has(s.last()) {
        let head = s.drop_last();
        law_trailing_characters_are_left_out(head, set);
        let n = skip_trailing(head, set).len() as int;
        assert forall|k: int| n <= k < s.len() implies set.has(#[trigger] s[k]) by {
            if k < head.len() {
                assert(head[k] == s[k]);
            }
        }
        assert forall|k: int| 0 <= k < n implies #[trigger] skip_trailing(s, set)[k] == s[k] by {
            assert(head[k] == s[k]);
        }
    }
}

/// Of a text stripped on both sides a stretch is left. All that is left out is of the set, and the
/// stretch neither begins nor ends with a character of it.
pub proof fn law_stripping_keeps_the_middle(s: Seq<char>, set: CharSet) -> (ends: (int, int))
    ensures
        0 <= ends.0 <= ends.1 <= s.len(),
        strip_both(s, set) == s.subrange(ends.0, ends.1),
        forall|k: int| 0 <= k < ends.0 ==> set.has(#[trigger] s[k]),
        forall|k: int| ends.1 <= k < s.len() ==> set.has(#[trigger] s[k]),
        ends.0 < ends.1 ==> !set.has(s[ends.0]) && !set.has(s[ends.1 - 1]),
{
    let i = lemma_leading(s, set);
    let rest = s.skip(i);
    law_trailing_characters_are_left_out(rest, set);
    let n = skip_trailing(rest, set).len() as int;
    assert(strip_both(s, set) =~= s.subrange(i, i + n));
    assert forall|k: int| i + n <= k < s.len() implies set.has(#[trigger] s[k]) by {
        assert(rest[k - i] == s[k]);
    }
    if n > 0 {
        assert(rest[n - 1] == s[i + n - 1]);
    }
    (i, i + n)
}

/// A trimmed text is a stretch of the text. All that is left out is white space, and the stretch
/// neither begins nor ends with white space.
pub proof fn law_trimming_keeps_the_middle(s: Seq<char>) -> (ends: (int, int))
    ensures
        0 <= ends.0 <= ends.1 <= s.len(),
        trimmed(s) == s.subrange(ends.0, ends.1),
        forall|k: int| 0 <= k < ends.0 ==> is_white_space(#[trigger] s[k]),
        forall|k: int| ends.1 <= k < s.len() ==> is_white_space(#[trigger] s[k]),
        ends.0 < ends.1 ==> !is_white_space(s[ends.0]) && !is_white_space(s[ends.1 - 1]),
{
    let ends = law_stripping_keeps_the_middle(s, CharSet::WhiteSpace);
    assert forall|k: int| 0 <= k < ends.0 implies is_white_space(#[trigger] s[k]) by {
        assert(CharSet::WhiteSpace.has(s[k]));
    }
    assert forall|k: int| ends.1 <= k < s.len() implies is_white_space(#[trigger] s[k]) by {
        assert(CharSet::WhiteSpace.has(s[k]));
    }
    ends
}

/// A text is cut at the first character of a set: what stands before it holds none of the set,
/// and nothing but that one character is lost. Without such a character there is no cut.
pub proof fn law_cutting_loses_one_character(s: Seq<char>, set: CharSet)
    ensures
        match cut_at(s, set) {
            Some((a, b)) => {
                &&& a.len() < s.len()
                &&& s == a + seq![s[a.len() as int]] + b
                &&& set.has(s[a.len() as int])
                &&& before_first(s, set) == a
                &&& forall|k: int| 0 <= k < a.len() ==> !set.has(#[trigger] a[k])
            },
            None => {
                &&& before_first(s, set) == s
                &&& forall|k: int| 0 <= k < s.len() ==> !set.has(#[trigger] s[k])
            },
        },
{
    lemma_first_pos(s, set);
    let i = first_pos(s, set) as int;
    if i < s.len() {
        assert(s =~= s.take(i) + seq![s[i]] + s.skip(i + 1));
    } else {
        assert(s.take(i) =~= s);
    }
}

/// The parts with `c` between each two of them.
pub open spec fn joined(parts: Seq<Seq<char>>, c: char) -> Seq<char>
    decreases parts.len(),
{
    if parts.len() == 0 {
        seq![]
    } else if parts.len() == 1 {
        parts[0]
    } else {
        parts[0] + seq![c] + joined(parts.skip(1), c)
    }
}

/// A text that is split at a character can be put together again, and no part holds the
/// character.
pub proof fn law_splitting_loses_the_separator(s: Seq<char>, c: char)
    ensures
        split_at(s, c).len() > 0,
        joined(split_at(s, c), c) == s,
        forall|i: int|
            0 <= i < split_at(s, c).len() ==> !(#[trigger] split_at(s, c)[i]).contains(c),
    decreases s.len(),
{
    let set = CharSet::One(c);
    lemma_first_pos(s, set);
    let i = first_pos(s, set) as int;
    let parts = split_at(s, c);
    if i < s.len() {
        let rest = s.skip(i + 1);
        law_splitting_loses_the_separator(rest, c);
        let head = s.take(i);
        assert(parts =~= seq![head] + split_at(rest, c));
        assert(parts.skip(1) =~= split_at(rest, c));
        assert(parts[0] + seq![c] + joined(parts.skip(1), c) =~= s);
        assert forall|k: int| 0 <= k < parts.len() implies !(#[trigger] parts[k]).contains(c) by {
            if k == 0 {
                if head.contains(c) {
                    let j = choose|j: int| 0 <= j < head.len() && head[j] == c;
                    assert(!set.has(s[j]));
                }
            } else {
                assert(parts[k] == split_at(rest, c)[k - 1]);
            }
        }
    } else {
        if s.contains(c) {
            let j = choose|j: int| 0 <= j < s.len() && s[j] == c;
            assert(!set.has(s[j]));
        }
    }
}

/// A text begins with another where the other, with something behind it, makes the text.
pub proof fn law_beginnings(s: Seq<char>, prefix: Seq<char>)
    ensures
        begins_with(s, prefix) <==> exists|rest: Seq<char>| s == #[trigger] (prefix + rest),
{
    if begins_with(s, prefix) {
        assert(s =~= prefix + s.skip(prefix.len() as int));
    }
    if exists|rest: Seq<char>| s == #[trigger] (prefix + rest) {
        let rest = choose|rest: Seq<char>| s == #[trigger] (prefix + rest);
        assert((prefix + rest).take(prefix.len() as int) =~= prefix);
    }
}

/// A text is cut around the first occurrence of another: nothing but that occurrence is lost.
/// Where the other does not occur there is no cut.
pub proof fn law_cutting_around_loses_one_occurrence(s: Seq<char>, pattern: Seq<char>)
    ensures
        match cut_around(s, pattern) {
            Some((a, b)) => s == a + pattern + b && forall|k: int|
                0 <= k < a.len() && k + pattern.len() <= s.len() ==> #[trigger] s.subrange(
                    k,
                    k + pattern.len(),
                ) != pattern,
            None => forall|k: int|
                0 <= k && k + pattern.len() <= s.len() ==> #[trigger] s.subrange(
                    k,
                    k + pattern.len(),
                ) != pattern,
        },
        occurs(s, pattern) <==> cut_around(s, pattern) is Some,
{
    lemma_find(s, pattern);
    let n = pattern.len() as int;
    match find(s, pattern) {
        Some(i) => {
            let i = i as int;
            assert(s.skip(i).take(n) == pattern);
            assert(s =~= s.take(i) + s.skip(i).take(n) + s.skip(i + n));
            assert forall|k: int| 0 <= k < i && k + n <= s.len() implies #[trigger] s.subrange(
                k,
                k + n,
            ) != pattern by {
                assert(!begins_with(s.skip(k), pattern));
                assert(s.skip(k).take(n) =~= s.subrange(k, k + n));
            }
        },
        None => {
            assert forall|k: int| 0 <= k && k + n <= s.len() implies #[trigger] s.subrange(
                k,
                k + n,
            ) != pattern by {
                assert(!begins_with(s.skip(k), pattern));
                assert(s.skip(k).take(n) =~= s.subrange(k, k + n));
            }
        },
    }
}

/// The first characters of a text are as many as asked for, or all of them.
pub proof fn law_first_characters(s: Seq<char>, n: nat)
    ensures
        first_chars(s, n).len() == if s.len() < n {
            s.len()
        } else {
            n
        },
        forall|k: int| 0 <= k < first_chars(s, n).len() ==> #[trigger] first_chars(s, n)[k] == s[k],
{
}

/// In lower case each capital letter of ASCII is the letter thirty-two places on, and every other
/// character is what it was.
pub proof fn law_lower_case(s: Seq<char>)
    ensures
        lowered(s).len() == s.len(),
        forall|k: int|
            0 <= k < s.len() ==> (#[trigger] lowered(s)[k]) as int == if 65 <= s[k] as int <= 90 {
                s[k] as int + 32
            } else {
                s[k] as int
            },
{
}

/// Replacing puts `to` in the place of the first occurrence of `from`, keeps all before it, and
/// goes on behind it. Where `from` does not occur, nothing changes.
pub proof fn law_replacing_goes_on_behind_the_first(s: Seq<char>, from: Seq<char>, to: Seq<char>)
    requires
        from.len() > 0,
    ensures
        match cut_around(s, from) {
            Some((a, b)) => replaced(s, from, to) == a + to + replaced(b, from, to),
            None => replaced(s, from, to) == s,
        },
    decreases s.len(),
{
    if s.len() == 0 {
    } else if begins_with(s, from) {
        assert(s.take(0) =~= Seq::<char>::empty());
        assert(Seq::<char>::empty() + to =~= to);
    } else {
        let rest = s.skip(1);
        law_replacing_goes_on_behind_the_first(rest, from, to);
        lemma_find(rest, from);
        match find(rest, from) {
            Some(i) => {
                let i = i as int;
                let n = from.len() as int;
                assert(find(s, from) == Some((i + 1) as nat));
                assert(s.take(i + 1) =~= seq![s[0]] + rest.take(i));
                assert(s.skip(i + 1 + n) =~= rest.skip(i + n));
                assert(replaced(s, from, to) =~= s.take(i + 1) + to + replaced(
                    s.skip(i + 1 + n),
                    from,
                    to,
                ));
            },
            None => {
                assert(seq![s[0]] + rest =~= s);
            },
        }
    }
}

/// Nothing occurs before each character and at the end.
pub proof fn law_replacing_nothing(s: Seq<char>, c: char, to: Seq<char>)
    ensures
        replaced(seq![], seq![], to) == to,
        replaced(seq![c] + s, seq![], to) == to + seq![c] + replaced(s, seq![], to),
{
    assert((seq![c] + s).skip(1) =~= s);
}

/// The numeral of a number below ten is its digit, and one more digit stands for ten times the
/// number and the digit.
pub proof fn law_numerals_are_decimal(n: nat, d: nat)
    requires
        d < 10,
    ensures
        decimal(d).len() == 1,
        decimal(d)[0] as int == 48 + d,
        n > 0 ==> decimal(10 * n + d).len() == decimal(n).len() + 1,
        n > 0 ==> decimal(10 * n + d).last() as int == 48 + d,
        n > 0 ==> decimal(10 * n + d).drop_last() == decimal(n),
{
    if n > 0 {
        let m = 10 * n + d;
        assert(m / 10 == n && m % 10 == d);
        assert(decimal(m).drop_last() =~= decimal(n));
    }
}

/// A sequence of digits is read from the left: each digit more counts ten times what stands before
/// it and itself, as long as the number fits. A plus sign before the digits counts nothing.
pub proof fn law_digits_are_read_in_turn(s: Seq<char>, c: char)
    requires
        48 <= c as int <= 57,
    ensures
        parsed_u64(seq![c]) matches Some(n) && n == c as int - 48,
        parsed_u64(s) matches Some(n) ==> parsed_u64(s.push(c)) == (if n * 10 + (c as int - 48)
            <= u64::MAX {
            Some((n * 10 + (c as int - 48)) as u64)
        } else {
            None
        }),
        s.len() > 0 && is_digit(s[0]) ==> parsed_u64(seq!['+'] + s) == parsed_u64(s),
{
    let one = seq![c];
    assert(one.drop_last() =~= Seq::<char>::empty());
    assert(digits_value(Seq::<char>::empty()) == 0);
    assert(digits_value(one) == digit_value(c));
    assert(is_digit(one[0]));
    if let Some(n) = parsed_u64(s) {
        let digits = if s.len() > 0 && s[0] == '+' {
            s.skip(1)
        } else {
            s
        };
        let more = digits.push(c);
        let t = s.push(c);
        if s[0] == '+' {
            assert(t.skip(1) =~= more);
        }
        assert(more.drop_last() =~= digits);
        assert forall|i: int| 0 <= i < more.len() implies is_digit(#[trigger] more[i]) by {
            if i < digits.len() {
                assert(more[i] == digits[i]);
            }
        }
    }
    if s.len() > 0 && is_digit(s[0]) {
        assert((seq!['+'] + s).skip(1) =~= s);
    }
}

/// A text spells a number only where it holds nothing but digits, with one plus sign before them
/// at most, and at least one digit.
pub proof fn law_only_digits_spell_a_number(s: Seq<char>)
    ensures
        parsed_u64(s) is Some ==> s.len() > 0 && 48 <= s.last() as int <= 57,
        parsed_u64(s) is Some ==> forall|i: int|
            1 <= i < s.len() ==> 48 <= (#[trigger] s[i]) as int <= 57,
        parsed_u64(s) is Some ==> 48 <= s[0] as int <= 57 || (s[0] == '+' && s.len() > 1),
{
    if parsed_u64(s) is Some {
        let digits = if s.len() > 0 && s[0] == '+' {
            s.skip(1)
        } else {
            s
        };
        assert forall|i: int| 1 <= i < s.len() implies 48 <= (#[trigger] s[i]) as int <= 57 by {
            if s[0] == '+' {
                assert(is_digit(digits[i - 1]));
            } else {
                assert(is_digit(digits[i]));
            }
        }
        assert(is_digit(digits[0]));
    }
}

/// A text comes before another where, after what they have in common, it ends or goes on with the
/// smaller character; and only there.
pub proof fn law_order_of_texts(a: Seq<char>, b: Seq<char>)
    ensures
        precedes(a, b) <==> exists|k: int|
            0 <= k <= a.len() && k < b.len() && #[trigger] a.take(k) == b.take(k) && (k < a.len()
                ==> (a[k] as int) < b[k] as int),
    decreases a.len(),
{
    if precedes(a, b) {
        if a.len() == 0 || a[0] < b[0] {
            assert(a.take(0) =~= b.take(0));
        } else {
            let x = a.skip(1);
            let y = b.skip(1);
            law_order_of_texts(x, y);
            let k = choose|k: int|
                0 <= k <= x.len() && k < y.len() && #[trigger] x.take(k) == y.take(k) && (k
                    < x.len() ==> (x[k] as int) < y[k] as int);
            assert(a.take(k + 1) =~= seq![a[0]] + x.take(k));
            assert(b.take(k + 1) =~= seq![b[0]] + y.take(k));
            assert(a.take(k + 1) == b.take(k + 1));
        }
    }
    if exists|k: int|
        0 <= k <= a.len() && k < b.len() && #[trigger] a.take(k) == b.take(k) && (k < a.len()
            ==> (a[k] as int) < b[k] as int) {
        let k = choose|k: int|
            0 <= k <= a.len() && k < b.len() && #[trigger] a.take(k) == b.take(k) && (k < a.len()
                ==> (a[k] as int) < b[k] as int);
        assert forall|i: int| 0 <= i < k implies a[i] == b[i] by {
            assert(a.take(k)[i] == b.take(k)[i]);
        }
        lemma_precedes_at(a, b, k);
    }
}

/// In an increasing list every text comes before each later one.
pub proof fn law_increasing_lists(list: Seq<Seq<char>>)
    ensures
        increasing(list) <==> forall|i: int, j: int|
            0 <= i < j < list.len() ==> precedes(#[trigger] list[i], #[trigger] list[j]),
{
}

} // verus!
