//! Replacing every occurrence of a text, and lower case.

use vstd::prelude::*;
use vstd::string::StringExecFns;

use crate::text::{begins_at, begins_with, chars_of};

verus! {

/// `gap` before every character of `s` and at its end.
pub open spec fn interleaved(s: Seq<char>, gap: Seq<char>) -> Seq<char>
    decreases s.len(),
{
    if s.len() == 0 {
        gap
    } else {
        gap + seq![s[0]] + interleaved(s.skip(1), gap)
    }
}

/// `s` with `to` in place of each occurrence of `from`, found from left to right without overlap.
/// An empty `from` occurs before every character and at the end.
pub open spec fn replaced(s: Seq<char>, from: Seq<char>, to: Seq<char>) -> Seq<char>
    decreases s.len(),
{
    if from.len() == 0 {
        interleaved(s, to)
    } else if s.len() == 0 {
        s
    } else if begins_with(s, from) {
        to + replaced(s.skip(from.len() as int), from, to)
    } else {
        seq![s[0]] + replaced(s.skip(1), from, to)
    }
}

fn interleave(s: &str, gap: &str) -> (result: String)
    ensures
        result@ == interleaved(s@, gap@),
{
    let chars = chars_of(s);
    let n = chars.len();
    let mut result = String::new();
    let mut i: usize = 0;
    proof {
        assert(chars@.skip(0) =~= chars@);
        assert(result@ + interleaved(s@, gap@) =~= interleaved(s@, gap@));
    }
    while i < n
        invariant
            chars@ == s@,
            n == chars@.len(),
            i <= n,
            result@ + interleaved(chars@.skip(i as int), gap@) == interleaved(s@, gap@),
        decreases n - i,
    {
        let ghost done = result@;
        let ghost rest = chars@.skip(i as int);
        result.append(gap);
        result.push(chars[i]);
        i = i + 1;
        proof {
            assert(rest.skip(1) =~= chars@.skip(i as int));
            assert(result@ + interleaved(rest.skip(1), gap@) =~= done + (gap@ + seq![rest[0]]
                + interleaved(rest.skip(1), gap@)));
        }
    }
    result.append(gap);
    proof {
        assert(chars@.skip(n as int).len() == 0);
    }
    result
}

/// `s` with `to` in place of each occurrence of `from`.
pub fn replace(s: &str, from: &str, to: &str) -> (result: String)
    ensures
        result@ == replaced(s@, from@, to@),
{
    if from.is_empty() {
        return interleave(s, to);
    }
    let chars = chars_of(s);
    let n = chars.len();
    let pattern = chars_of(from);
    let mut result = String::new();
    let mut i: usize = 0;
    proof {
        assert(chars@.skip(0) =~= chars@);
        assert(result@ + replaced(s@, from@, to@) =~= replaced(s@, from@, to@));
    }
    while i < n
        invariant
            chars@ == s@,
            pattern@ == from@,
            from@.len() > 0,
            n == chars@.len(),
            i <= n,
            result@ + replaced(chars@.skip(i as int), from@, to@) == replaced(s@, from@, to@),
        decreases n - i,
    {
        let ghost done = result@;
        let ghost rest = chars@.skip(i as int);
        if begins_at(&chars, i, &pattern) {
            result.append(to);
            i = i + pattern.len();
            proof {
                assert(rest.skip(from@.len() as int) =~= chars@.skip(i as int));
                assert(result@ + replaced(chars@.skip(i as int), from@, to@) =~= done + (to@
                    + replaced(chars@.skip(i as int), from@, to@)));
            }
        } else {
            result.push(chars[i]);
            i = i + 1;
            proof {
                assert(rest.skip(1) =~= chars@.skip(i as int));
                assert(result@ + replaced(chars@.skip(i as int), from@, to@) =~= done + (seq![
                    rest[0],
                ] + replaced(chars@.skip(i as int), from@, to@)));
            }
        }
    }
    proof {
        assert(chars@.skip(n as int) =~= Seq::<char>::empty());
        assert(result@ + Seq::<char>::empty() =~= result@);
    }
    result
}

/// The lower case of an ASCII letter: any other character as it is.
pub open spec fn lower(c: char) -> char {
    if 'A' <= c <= 'Z' {
        ((c as u8) + 32) as u8 as char
    } else {
        c
    }
}

/// `s` with its ASCII letters in lower case.
pub open spec fn lowered(s: Seq<char>) -> Seq<char> {
    s.map_values(|c: char| lower(c))
}

fn lower_char(c: char) -> (result: char)
    ensures
        result == lower(c),
{
    if 'A' <= c && c <= 'Z' {
        ((c as u8) + 32) as char
    } else {
        c
    }
}

/// `s` with its ASCII letters in lower case.
pub fn to_lower(s: &str) -> (result: String)
    ensures
        result@ == lowered(s@),
{
    let chars = chars_of(s);
    let n = chars.len();
    let mut result = String::new();
    let mut i: usize = 0;
    while i < n
        invariant
            chars@ == s@,
            n == chars@.len(),
            i <= n,
            result@ == lowered(s@.take(i as int)),
        decreases n - i,
    {
        result.push(lower_char(chars[i]));
        i = i + 1;
        proof {
            assert(lowered(s@.take(i as int)) =~= lowered(s@.take(i - 1)).push(lower(s@[i - 1])));
        }
    }
    proof {
        assert(s@.take(n as int) =~= s@);
    }
    result
}

} // verus!
