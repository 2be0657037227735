//! Choice of the one position of a segment that is converted.

use vstd::prelude::*;
use crate::digits::{is_ascii_digit, is_preferred_digit};

verus! {

/// Distance of position `i` from the center reference point of a segment
/// of length `len`, which is `len / 2` (integer division).
pub open spec fn center_distance(i: int, len: int) -> int {
    if i >= len / 2 {
        i - len / 2
    } else {
        len / 2 - i
    }
}

/// Position `i` is visited before position `j` in the centrality order:
/// strictly closer to the center, or equally close with the smaller index.
pub open spec fn comes_before(i: int, j: int, len: int) -> bool {
    center_distance(i, len) < center_distance(j, len)
    || (center_distance(i, len) == center_distance(j, len) && i < j)
}

/// Among the positions `0 .. n` of `s` holding a digit in `'2'`–`'9'`,
/// the one visited first in the centrality order, if any.
pub open spec fn best_preferred_upto(s: Seq<char>, n: int) -> Option<int>
    decreases n,
{
    if n <= 0 {
        None
    } else {
        let prev = best_preferred_upto(s, n - 1);
        if is_preferred_digit(s[n - 1]) {
            match prev {
                None => Some(n - 1),
                Some(b) => if comes_before(n - 1, b, s.len() as int) {
                    Some(n - 1)
                } else {
                    Some(b)
                },
            }
        } else {
            prev
        }
    }
}

/// Among the positions `0 .. n` of `s` holding any ASCII digit, the one
/// visited first in the centrality order, if any.
pub open spec fn best_digit_upto(s: Seq<char>, n: int) -> Option<int>
    decreases n,
{
    if n <= 0 {
        None
    } else {
        let prev = best_digit_upto(s, n - 1);
        if is_ascii_digit(s[n - 1]) {
            match prev {
                None => Some(n - 1),
                Some(b) => if comes_before(n - 1, b, s.len() as int) {
                    Some(n - 1)
                } else {
                    Some(b)
                },
            }
        } else {
            prev
        }
    }
}

/// The position of `s` that is converted: the first digit position in the
/// centrality order, digits `'2'`–`'9'` taking precedence over `'0'` and
/// `'1'`; `None` when `s` holds no digit.
pub open spec fn selected_position(s: Seq<char>) -> Option<int> {
    match best_preferred_upto(s, s.len() as int) {
        Some(i) => Some(i),
        None => best_digit_upto(s, s.len() as int),
    }
}

pub proof fn lemma_best_preferred_upto(s: Seq<char>, n: int)
    requires
        0 <= n <= s.len(),
    ensures
        match best_preferred_upto(s, n) {
            Some(i) => 0 <= i < n && is_preferred_digit(s[i])
                && (forall|j: int|
                    0 <= j < n && #[trigger] is_preferred_digit(s[j]) && j != i
                        ==> comes_before(i, j, s.len() as int)),
            None => forall|j: int| 0 <= j < n ==> !(#[trigger] is_preferred_digit(s[j])),
        },
    decreases n,
{
    if n > 0 {
        lemma_best_preferred_upto(s, n - 1);
    }
}

pub proof fn lemma_best_digit_upto(s: Seq<char>, n: int)
    requires
        0 <= n <= s.len(),
    ensures
        match best_digit_upto(s, n) {
            Some(i) => 0 <= i < n && is_ascii_digit(s[i])
                && (forall|j: int|
                    0 <= j < n && #[trigger] is_ascii_digit(s[j]) && j != i
                        ==> comes_before(i, j, s.len() as int)),
            None => forall|j: int| 0 <= j < n ==> !(#[trigger] is_ascii_digit(s[j])),
        },
    decreases n,
{
    if n > 0 {
        lemma_best_digit_upto(s, n - 1);
    }
}

/// Distance of position `i` from the center reference point `len / 2`.
pub fn distance_to_center(i: usize, len: usize) -> (d: usize)
    requires
        i < len,
    ensures
        d as int == center_distance(i as int, len as int),
{
    let c = len / 2;
    if i >= c {
        i - c
    } else {
        c - i
    }
}

pub fn check_ascii_digit(c: char) -> (r: bool)
    ensures
        r == is_ascii_digit(c),
{
    let u = c as u32;
    48 <= u && u <= 57
}

pub fn check_preferred_digit(c: char) -> (r: bool)
    ensures
        r == is_preferred_digit(c),
{
    let u = c as u32;
    50 <= u && u <= 57
}

/// One left-to-right scan, keeping the best digit position seen so far in
/// each of the two preference classes.
pub fn select_position(chars: &Vec<char>) -> (r: Option<usize>)
    ensures
        match r {
            Some(i) => selected_position(chars@) == Some(i as int),
            None => selected_position(chars@) is None,
        },
{
    let len = chars.len();
    let mut best_preferred: Option<usize> = None;
    let mut best_any: Option<usize> = None;
    let mut i: usize = 0;
    while i < len
        invariant
            i <= len,
            len == chars@.len(),
            match best_preferred {
                Some(b) => b < i && best_preferred_upto(chars@, i as int) == Some(b as int),
                None => best_preferred_upto(chars@, i as int) is None,
            },
            match best_any {
                Some(b) => b < i && best_digit_upto(chars@, i as int) == Some(b as int),
                None => best_digit_upto(chars@, i as int) is None,
            },
        decreases len - i,
    {
        let c = chars[i];
        if check_preferred_digit(c) {
            best_preferred = match best_preferred {
                None => Some(i),
                Some(b) => if distance_to_center(i, len) < distance_to_center(b, len) {
                    Some(i)
                } else {
                    Some(b)
                },
            };
        }
        if check_ascii_digit(c) {
            best_any = match best_any {
                None => Some(i),
                Some(b) => if distance_to_center(i, len) < distance_to_center(b, len) {
                    Some(i)
                } else {
                    Some(b)
                },
            };
        }
        i = i + 1;
    }
    match best_preferred {
        Some(b) => Some(b),
        None => best_any,
    }
}

} // verus!
