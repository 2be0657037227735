//! Conversion of one segment: at most one digit becomes an ideograph.

use vstd::prelude::*;
use crate::digits::{
    ideograph_of, is_ascii_digit, is_preferred_digit, lemma_ideograph_changes_digit, map_digit,
};
use crate::select::{
    comes_before, lemma_best_digit_upto, lemma_best_preferred_upto, select_position,
    selected_position,
};

verus! {

/// The converted form of a segment: the selected position, if any, is
/// rewritten as its ideograph; every other character stays as it is.
pub open spec fn converted(s: Seq<char>) -> Seq<char> {
    match selected_position(s) {
        Some(i) => s.update(i, ideograph_of(s[i])),
        None => s,
    }
}

/// Everything the selection rule promises of one segment: a position is
/// selected exactly when the segment holds a digit, the selected
/// character is a digit, it is preferred whenever some preferred digit
/// occurs, and it is the first digit of its class in the centrality
/// order.
pub proof fn lemma_selected_position(s: Seq<char>)
    ensures
        match selected_position(s) {
            Some(i) => 0 <= i < s.len() && is_ascii_digit(s[i])
                && (is_preferred_digit(s[i]) ==> forall|j: int|
                    0 <= j < s.len() && #[trigger] is_preferred_digit(s[j]) && j != i
                        ==> comes_before(i, j, s.len() as int))
                && (!is_preferred_digit(s[i]) ==> (forall|j: int|
                    0 <= j < s.len() ==> !(#[trigger] is_preferred_digit(s[j])))
                    && (forall|j: int|
                        0 <= j < s.len() && #[trigger] is_ascii_digit(s[j]) && j != i
                            ==> comes_before(i, j, s.len() as int))),
            None => forall|j: int| 0 <= j < s.len() ==> !(#[trigger] is_ascii_digit(s[j])),
        },
{
    lemma_best_preferred_upto(s, s.len() as int);
    lemma_best_digit_upto(s, s.len() as int);
}

/// A segment without a digit is returned unchanged.
pub proof fn lemma_no_digit_unchanged(s: Seq<char>)
    requires
        forall|j: int| 0 <= j < s.len() ==> !(#[trigger] is_ascii_digit(s[j])),
    ensures
        converted(s) == s,
{
    lemma_best_preferred_upto(s, s.len() as int);
    lemma_best_digit_upto(s, s.len() as int);
    if selected_position(s) is Some {
        let i = selected_position(s)->Some_0;
        assert(is_ascii_digit(s[i]));
        assert(false);
    }
}

/// A segment with at least one digit differs from its converted form in
/// exactly one position.
pub proof fn lemma_exactly_one_changed(s: Seq<char>)
    requires
        exists|j: int| 0 <= j < s.len() && #[trigger] is_ascii_digit(s[j]),
    ensures
        converted(s).len() == s.len(),
        exists|i: int|
            0 <= i < s.len() && #[trigger] converted(s)[i] != s[i]
                && (forall|j: int| 0 <= j < s.len() && j != i ==> converted(s)[j] == s[j]),
{
    lemma_selected_position(s);
    let i = selected_position(s)->Some_0;
    lemma_ideograph_changes_digit(s[i]);
    assert(converted(s)[i] != s[i]);
}

/// Conversion never changes a segment's length.
pub proof fn lemma_converted_len(s: Seq<char>)
    ensures
        converted(s).len() == s.len(),
{
    lemma_selected_position(s);
}

/// If a segment holds a digit in `'2'`–`'9'`, the selected position holds
/// one, never a `'0'` or `'1'`.
pub proof fn lemma_preferred_digit_selected(s: Seq<char>)
    requires
        exists|j: int| 0 <= j < s.len() && #[trigger] is_preferred_digit(s[j]),
    ensures
        selected_position(s) is Some,
        is_preferred_digit(s[selected_position(s)->Some_0]),
{
    lemma_best_preferred_upto(s, s.len() as int);
}

/// Among the positions holding a preferred digit, the selected one has
/// the least distance to the center, ties going to the smaller index.
pub proof fn lemma_selected_is_most_central(s: Seq<char>)
    requires
        exists|j: int| 0 <= j < s.len() && #[trigger] is_preferred_digit(s[j]),
    ensures
        selected_position(s) is Some,
        forall|j: int|
            0 <= j < s.len() && #[trigger] is_preferred_digit(s[j])
                && j != selected_position(s)->Some_0
                ==> comes_before(selected_position(s)->Some_0, j, s.len() as int),
{
    lemma_best_preferred_upto(s, s.len() as int);
}

/// Rewrites the selected position of the segment, copying every other
/// character as it is.
pub fn convert_segment(chars: &Vec<char>) -> (r: Vec<char>)
    ensures
        r@ == converted(chars@),
{
    proof {
        lemma_selected_position(chars@);
        lemma_converted_len(chars@);
    }
    let selected = select_position(chars);
    let len = chars.len();
    let mut out: Vec<char> = Vec::new();
    let mut i: usize = 0;
    while i < len
        invariant
            i <= len,
            len == chars@.len(),
            converted(chars@).len() == len,
            out@.len() == i as int,
            forall|j: int| 0 <= j < i as int ==> out@[j] == converted(chars@)[j],
            match selected {
                Some(k) => selected_position(chars@) == Some(k as int) && k < len,
                None => selected_position(chars@) is None,
            },
        decreases len - i,
    {
        let c = chars[i];
        let replace = match selected {
            Some(k) => k == i,
            None => false,
        };
        if replace {
            out.push(map_digit(c));
        } else {
            out.push(c);
        }
        i = i + 1;
    }
    proof {
        assert(out@ =~= converted(chars@));
    }
    out
}

} // verus!
