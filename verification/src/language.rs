//! Case-insensitive handling of language tags such as "en" and "pl".

use vstd::prelude::*;

verus! {

/// An upper-case ASCII letter folded to lower case; any other character
/// unchanged.
pub open spec fn lower_char(c: char) -> char {
    if 65 <= c as u32 && c as u32 <= 90 {
        ((c as u32) + 32) as char
    } else {
        c
    }
}

/// A string folded to lower case, ASCII letter by ASCII letter.
pub open spec fn to_lower(s: Seq<char>) -> Seq<char> {
    s.map_values(|c: char| lower_char(c))
}

fn lowercase_char(c: char) -> (low: char)
    ensures
        low == lower_char(c),
{
    let value = c as u32;
    if 65 <= value && value <= 90 {
        ((value + 32) as u8) as char
    } else {
        c
    }
}

/// Whether `language` is `tag` up to ASCII case.
pub fn tag_matches(language: &str, tag: &str) -> (matches: bool)
    ensures
        matches == (to_lower(language@) == tag@),
{
    let language_len = language.unicode_len();
    if language_len != tag.unicode_len() {
        assert(to_lower(language@).len() != tag@.len());
        return false;
    }
    let mut i: usize = 0;
    while i < language_len
        invariant
            0 <= i <= language_len,
            language_len == language@.len(),
            language_len == tag@.len(),
            forall|k: int| 0 <= k < i ==> lower_char(language@[k]) == tag@[k],
        decreases language_len - i,
    {
        if lowercase_char(language.get_char(i)) != tag.get_char(i) {
            assert(to_lower(language@)[i as int] != tag@[i as int]);
            return false;
        }
        i = i + 1;
    }
    proof {
        assert(to_lower(language@) =~= tag@);
    }
    true
}

/// Character-for-character string equality.
pub fn str_equal(left: &str, right: &str) -> (equal: bool)
    ensures
        equal == (left@ == right@),
{
    let left_len = left.unicode_len();
    if left_len != right.unicode_len() {
        return false;
    }
    let mut i: usize = 0;
    while i < left_len
        invariant
            0 <= i <= left_len,
            left_len == left@.len(),
            left_len == right@.len(),
            forall|k: int| 0 <= k < i ==> left@[k] == right@[k],
        decreases left_len - i,
    {
        if left.get_char(i) != right.get_char(i) {
            return false;
        }
        i = i + 1;
    }
    proof {
        assert(left@ =~= right@);
    }
    true
}

} // verus!
