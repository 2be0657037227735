//! Splitting at the first separator, reassembly, and decoration.

use vstd::prelude::*;
use vstd::string::StrSliceExecFns;
use crate::convert::{converted, convert_segment, lemma_converted_len};

verus! {

/// The first position at or after `i` whose character belongs to `seps`.
pub open spec fn first_separator_from(value: Seq<char>, seps: Seq<char>, i: int) -> Option<int>
    decreases value.len() - i,
{
    if i < 0 || i >= value.len() {
        None
    } else if seps.contains(value[i]) {
        Some(i)
    } else {
        first_separator_from(value, seps, i + 1)
    }
}

/// The position of the split point: the first character of `value`, read
/// left to right, that belongs to the separator set.
pub open spec fn first_separator(value: Seq<char>, seps: Seq<char>) -> Option<int> {
    first_separator_from(value, seps, 0)
}

/// The undecorated result: either the whole input converted as one
/// segment, or the two parts around the first separator converted
/// independently with the separator kept verbatim between them.
pub open spec fn transformed(value: Seq<char>, seps: Seq<char>) -> Seq<char> {
    match first_separator(value, seps) {
        Some(i) => converted(value.take(i)) + seq![value[i]] + converted(value.skip(i + 1)),
        None => converted(value),
    }
}

/// The full result: the prefix and the suffix wrap the transformed input
/// once, outermost.
pub open spec fn decorated(
    value: Seq<char>,
    seps: Seq<char>,
    prefix: Seq<char>,
    suffix: Seq<char>,
) -> Seq<char> {
    prefix + transformed(value, seps) + suffix
}

pub proof fn lemma_first_separator_from(value: Seq<char>, seps: Seq<char>, i: int)
    requires
        0 <= i,
    ensures
        match first_separator_from(value, seps, i) {
            Some(k) => i <= k < value.len() && seps.contains(value[k])
                && (forall|j: int| i <= j < k ==> !seps.contains(#[trigger] value[j])),
            None => forall|j: int| i <= j < value.len() ==> !seps.contains(#[trigger] value[j]),
        },
    decreases value.len() - i,
{
    if i < value.len() && !seps.contains(value[i]) {
        lemma_first_separator_from(value, seps, i + 1);
    }
}

/// The split point is a separator occurrence and nothing before it is one.
pub proof fn lemma_first_separator(value: Seq<char>, seps: Seq<char>)
    ensures
        match first_separator(value, seps) {
            Some(k) => 0 <= k < value.len() && seps.contains(value[k])
                && (forall|j: int| 0 <= j < k ==> !seps.contains(#[trigger] value[j])),
            None => forall|j: int| 0 <= j < value.len() ==> !seps.contains(#[trigger] value[j]),
        },
{
    lemma_first_separator_from(value, seps, 0);
}

/// The transformed input has exactly the input's length: conversion
/// replaces characters one for one and the separator is kept.
pub proof fn lemma_transformed_len(value: Seq<char>, seps: Seq<char>)
    ensures
        transformed(value, seps).len() == value.len(),
{
    lemma_first_separator(value, seps);
    match first_separator(value, seps) {
        Some(i) => {
            lemma_converted_len(value.take(i));
            lemma_converted_len(value.skip(i + 1));
        },
        None => {
            lemma_converted_len(value);
        },
    }
}

/// The decorated result's length is the sum of the lengths of the prefix,
/// the input and the suffix.
pub proof fn lemma_decorated_len(
    value: Seq<char>,
    seps: Seq<char>,
    prefix: Seq<char>,
    suffix: Seq<char>,
)
    ensures
        decorated(value, seps, prefix, suffix).len() == prefix.len() + value.len() + suffix.len(),
{
    lemma_transformed_len(value, seps);
}

/// The characters of a string, in order, as a vector.
pub fn str_to_chars(s: &str) -> (v: Vec<char>)
    ensures
        v@ == s@,
{
    let len = s.unicode_len();
    let mut v: Vec<char> = Vec::new();
    let mut i: usize = 0;
    while i < len
        invariant
            i <= len,
            len == s@.len(),
            v@ == s@.subrange(0, i as int),
        decreases len - i,
    {
        let c = s.get_char(i);
        v.push(c);
        proof {
            assert(v@ =~= s@.subrange(0, i + 1));
        }
        i = i + 1;
    }
    proof {
        assert(v@ =~= s@);
    }
    v
}

fn contains_char(seps: &Vec<char>, c: char) -> (r: bool)
    ensures
        r == seps@.contains(c),
{
    let len = seps.len();
    let mut i: usize = 0;
    while i < len
        invariant
            i <= len,
            len == seps@.len(),
            forall|j: int| 0 <= j < i as int ==> seps@[j] != c,
        decreases len - i,
    {
        if seps[i] == c {
            proof {
                assert(seps@[i as int] == c);
            }
            return true;
        }
        i = i + 1;
    }
    false
}

/// Scans the input left to right for the first character that belongs to
/// the separator set.
pub fn find_separator(chars: &Vec<char>, seps: &Vec<char>) -> (r: Option<usize>)
    ensures
        match r {
            Some(i) => first_separator(chars@, seps@) == Some(i as int),
            None => first_separator(chars@, seps@) is None,
        },
{
    let len = chars.len();
    let mut i: usize = 0;
    while i < len
        invariant
            i <= len,
            len == chars@.len(),
            first_separator(chars@, seps@) == first_separator_from(chars@, seps@, i as int),
        decreases len - i,
    {
        if contains_char(seps, chars[i]) {
            return Some(i);
        }
        i = i + 1;
    }
    None
}

/// The characters of `v` from `from` (inclusive) to `to` (exclusive).
fn vec_slice(v: &Vec<char>, from: usize, to: usize) -> (r: Vec<char>)
    requires
        from <= to <= v@.len(),
    ensures
        r@ == v@.subrange(from as int, to as int),
{
    let mut r: Vec<char> = Vec::new();
    let mut i: usize = from;
    while i < to
        invariant
            from <= i <= to <= v@.len(),
            r@ == v@.subrange(from as int, i as int),
        decreases to - i,
    {
        r.push(v[i]);
        proof {
            assert(r@ =~= v@.subrange(from as int, i + 1));
        }
        i = i + 1;
    }
    r
}

fn append_chars(dst: &mut Vec<char>, src: &Vec<char>)
    ensures
        final(dst)@ == old(dst)@ + src@,
{
    let len = src.len();
    let mut i: usize = 0;
    while i < len
        invariant
            i <= len,
            len == src@.len(),
            dst@ == old(dst)@ + src@.subrange(0, i as int),
        decreases len - i,
    {
        dst.push(src[i]);
        proof {
            assert(dst@ =~= old(dst)@ + src@.subrange(0, i + 1));
        }
        i = i + 1;
    }
    proof {
        assert(dst@ =~= old(dst)@ + src@);
    }
}

/// Relies on `String`'s `FromIterator` implementation: collecting
/// characters yields the string of exactly those characters, in order.
#[verifier::external_body]
fn chars_to_string(v: &Vec<char>) -> (r: String)
    ensures
        r@ == v@,
{
    v.iter().collect()
}

/// Converts at most one digit per segment of `value` to its ideograph
/// and wraps the result, once, in `prefix` and `suffix`. The first
/// character belonging to `separators` splits `value` into two segments
/// that are converted independently; without one, `value` is a single
/// segment.
pub fn convert_and_decorate(
    value: &str,
    separators: &Vec<char>,
    prefix: &str,
    suffix: &str,
) -> (r: String)
    ensures
        r@ == decorated(value@, separators@, prefix@, suffix@),
{
    proof {
        lemma_first_separator(value@, separators@);
    }
    let chars = str_to_chars(value);
    let mut out = str_to_chars(prefix);
    match find_separator(&chars, separators) {
        Some(i) => {
            let left = vec_slice(&chars, 0, i);
            let right = vec_slice(&chars, i + 1, chars.len());
            proof {
                assert(left@ =~= value@.take(i as int));
                assert(right@ =~= value@.skip(i as int + 1));
            }
            let converted_left = convert_segment(&left);
            let converted_right = convert_segment(&right);
            append_chars(&mut out, &converted_left);
            out.push(chars[i]);
            append_chars(&mut out, &converted_right);
        },
        None => {
            let converted_all = convert_segment(&chars);
            append_chars(&mut out, &converted_all);
        },
    }
    let tail = str_to_chars(suffix);
    append_chars(&mut out, &tail);
    proof {
        assert(out@ =~= decorated(value@, separators@, prefix@, suffix@));
    }
    chars_to_string(&out)
}

} // verus!
