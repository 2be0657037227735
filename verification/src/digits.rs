use vstd::prelude::*;

verus! {

/// An ASCII decimal digit, `'0'` through `'9'`.
pub open spec fn is_ascii_digit(c: char) -> bool {
    48 <= c as u32 <= 57
}

/// A digit other than `'0'` and `'1'`; these are preferred for conversion.
pub open spec fn is_preferred_digit(c: char) -> bool {
    50 <= c as u32 <= 57
}

/// The ideographic equivalent of an ASCII digit; any other character is
/// left as it is.
pub open spec fn ideograph_of(c: char) -> char {
    if c == '0' {
        '零'
    } else if c == '1' {
        '一'
    } else if c == '2' {
        '二'
    } else if c == '3' {
        '三'
    } else if c == '4' {
        '四'
    } else if c == '5' {
        '五'
    } else if c == '6' {
        '六'
    } else if c == '7' {
        '七'
    } else if c == '8' {
        '八'
    } else if c == '9' {
        '九'
    } else {
        c
    }
}

/// Replacing a digit always changes it: the ideographs lie outside the
/// ASCII range.
pub proof fn lemma_ideograph_changes_digit(c: char)
    requires
        is_ascii_digit(c),
    ensures
        ideograph_of(c) != c,
{
}

pub fn map_digit(c: char) -> (r: char)
    ensures
        r == ideograph_of(c),
{
    match c {
        '0' => '零',
        '1' => '一',
        '2' => '二',
        '3' => '三',
        '4' => '四',
        '5' => '五',
        '6' => '六',
        '7' => '七',
        '8' => '八',
        '9' => '九',
        _ => c,
    }
}

} // verus!
