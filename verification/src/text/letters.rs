//! Letter case and the letters of the ASCII range.

use vstd::prelude::*;

verus! {

/// `c` is a letter or a digit of the ASCII range.
pub open spec fn is_alnum(c: char) -> bool {
    ('0' <= c <= '9') || ('a' <= c <= 'z') || ('A' <= c <= 'Z')
}

/// Whether `c` is a letter or a digit of the ASCII range.
pub fn alnum(c: char) -> (r: bool)
    ensures
        r == is_alnum(c),
{
    ('0' <= c && c <= '9') || ('a' <= c && c <= 'z') || ('A' <= c && c <= 'Z')
}

/// `c` lies in the ASCII range.
pub open spec fn is_ascii_char(c: char) -> bool {
    c <= '\u{7f}'
}

/// The small letter for a capital of the ASCII range; other characters as
/// they are.
pub open spec fn ascii_small(c: char) -> char {
    if 'A' <= c <= 'Z' {
        ((c as int) + 32) as char
    } else {
        c
    }
}

/// The capital for a small letter of the ASCII range; other characters as
/// they are.
pub open spec fn ascii_capital(c: char) -> char {
    if 'a' <= c <= 'z' {
        ((c as int) - 32) as char
    } else {
        c
    }
}

/// Every character of `s` lies in the ASCII range.
pub open spec fn all_ascii(s: Seq<char>) -> bool {
    forall|i: int| 0 <= i < s.len() ==> is_ascii_char(#[trigger] s[i])
}

/// `s` with each capital of the ASCII range made small.
pub open spec fn ascii_lowered(s: Seq<char>) -> Seq<char> {
    s.map_values(|c: char| ascii_small(c))
}

/// `s` with each small letter of the ASCII range made a capital.
pub open spec fn ascii_raised(s: Seq<char>) -> Seq<char> {
    s.map_values(|c: char| ascii_capital(c))
}

/// The lower case of a text, as `str::to_lowercase` gives it.
pub uninterp spec fn lower_case(s: Seq<char>) -> Seq<char>;

/// The upper case of a text, as `str::to_uppercase` gives it.
pub uninterp spec fn upper_case(s: Seq<char>) -> Seq<char>;

/// Calls `str::to_lowercase`, which maps a text to lower case by the Unicode
/// tables. Claimed of it: the result depends on the text alone, is the same
/// for the text with its capitals of the ASCII range made small, holds no
/// capital of the ASCII range, and for a text of the ASCII range is that text
/// with each capital made small.
#[verifier::external_body]
pub(crate) fn to_lower(s: &str) -> (r: String)
    ensures
        r@ == lower_case(s@),
        r@ == lower_case(ascii_lowered(s@)),
        forall|i: int| 0 <= i < r@.len() ==> !('A' <= #[trigger] r@[i] <= 'Z'),
        all_ascii(s@) ==> r@ == ascii_lowered(s@),
{
    s.to_lowercase()
}

/// Calls `str::to_uppercase`, which maps a text to upper case by the Unicode
/// tables. Claimed of it: the result depends on the text alone, and for a text
/// of the ASCII range is that text with each small letter made a capital.
#[verifier::external_body]
pub(crate) fn to_upper(s: &str) -> (r: String)
    ensures
        r@ == upper_case(s@),
        all_ascii(s@) ==> r@ == ascii_raised(s@),
{
    s.to_uppercase()
}

/// A capital and its small letter stand at the same place of the alphabet;
/// whatever is no letter of the ASCII range stays as it is.
pub proof fn law_case_keeps_place(c: char)
    ensures
        'A' <= c <= 'Z' ==> 'a' <= ascii_small(c) <= 'z' && ascii_small(c) as int - 'a' as int
            == c as int - 'A' as int && ascii_capital(ascii_small(c)) == c,
        'a' <= c <= 'z' ==> 'A' <= ascii_capital(c) <= 'Z' && ascii_small(ascii_capital(c)) == c,
        !('A' <= c <= 'Z') ==> ascii_small(c) == c,
        !('a' <= c <= 'z') ==> ascii_capital(c) == c,
        is_ascii_char(c) <==> (c as int) < 128,
        is_alnum(c) ==> is_ascii_char(c),
{
}

/// Case is changed character by character, in place.
pub proof fn law_case_in_place(s: Seq<char>, i: int)
    requires
        0 <= i < s.len(),
    ensures
        ascii_lowered(s).len() == s.len() && ascii_lowered(s)[i] == ascii_small(s[i]),
        ascii_raised(s).len() == s.len() && ascii_raised(s)[i] == ascii_capital(s[i]),
        all_ascii(s) ==> (s[i] as int) < 128,
{
    if all_ascii(s) {
        assert(is_ascii_char(s[i]));
    }
}

} // verus!
