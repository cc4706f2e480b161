//! Searching and trimming.

use vstd::prelude::*;

verus! {

/// `String::push` appends one character.
pub assume_specification[ String::push ](s: &mut String, c: char)
    ensures
        final(s)@ == old(s)@.push(c),
;

/// The characters of `s`.
pub fn chars_of(s: &str) -> (r: Vec<char>)
    ensures
        r@ == s@,
{
    let mut r: Vec<char> = Vec::new();
    for c in it: s.chars()
        invariant
            r@ == it.seq().take(it.index()),
            it.seq() == s@,
    {
        r.push(c);
    }
    r
}

/// The text made of the characters `v[from..to]`.
pub fn text_of(v: &Vec<char>, from: usize, to: usize) -> (r: String)
    requires
        from <= to <= v.len(),
    ensures
        r@ == v@.subrange(from as int, to as int),
{
    let mut r = String::new();
    let mut i: usize = from;
    while i < to
        invariant
            from <= i <= to <= v.len(),
            r@ == v@.subrange(from as int, i as int),
        decreases to - i,
    {
        r.push(v[i]);
        i += 1;
        assert(v@.subrange(from as int, i as int) == v@.subrange(from as int, i - 1).push(v@[i - 1]));
    }
    r
}

/// Whether two texts are the same.
pub fn same(a: &str, b: &str) -> (r: bool)
    ensures
        r == (a@ == b@),
{
    a.to_string() == b.to_string()
}

/// Whether `a` is one of the texts of `list`.
pub fn one_of(list: &Vec<String>, a: &str) -> (r: bool)
    ensures
        r == list.deep_view().contains(a@),
{
    let mut i: usize = 0;
    while i < list.len()
        invariant
            i <= list.len(),
            forall|j: int| 0 <= j < i ==> (#[trigger] list.deep_view()[j]) != a@,
        decreases list.len() - i,
    {
        if same(&list[i], a) {
            assert(list.deep_view()[i as int] == a@);
            return true;
        }
        i += 1;
    }
    false
}

// Searching

/// `p` stands in `s` at position `i`.
pub open spec fn occurs_at(s: Seq<char>, p: Seq<char>, i: int) -> bool {
    0 <= i && i + p.len() <= s.len() && s.subrange(i, i + p.len()) == p
}

/// `p` stands somewhere in `s`.
pub open spec fn occurs(s: Seq<char>, p: Seq<char>) -> bool {
    exists|i: int| occurs_at(s, p, i)
}

/// The first position at or after `i` where `p` stands in `s`.
pub open spec fn find_from(s: Seq<char>, p: Seq<char>, i: int) -> Option<int>
    decreases s.len() + 1 - i,
{
    if i + p.len() > s.len() {
        None
    } else if occurs_at(s, p, i) {
        Some(i)
    } else {
        find_from(s, p, i + 1)
    }
}

/// The first position where `p` stands in `s`.
pub open spec fn find_in(s: Seq<char>, p: Seq<char>) -> Option<int> {
    find_from(s, p, 0)
}

/// The position found is one where the pattern stands, and there is none
/// before it; where none is found the pattern stands nowhere.
pub proof fn lemma_find_from(s: Seq<char>, p: Seq<char>, i: int)
    requires
        0 <= i,
    ensures
        match find_from(s, p, i) {
            Some(k) => i <= k && occurs_at(s, p, k) && forall|j: int|
                i <= j < k ==> !occurs_at(s, p, j),
            None => forall|j: int| i <= j ==> !occurs_at(s, p, j),
        },
    decreases s.len() + 1 - i,
{
    if i + p.len() <= s.len() && !occurs_at(s, p, i) {
        lemma_find_from(s, p, i + 1);
    }
}

fn matches_at(s: &Vec<char>, p: &Vec<char>, i: usize) -> (r: bool)
    requires
        i + p.len() <= s.len(),
    ensures
        r == occurs_at(s@, p@, i as int),
{
    let mut j: usize = 0;
    while j < p.len()
        invariant
            j <= p.len(),
            i + p.len() <= s.len(),
            forall|k: int| 0 <= k < j ==> s@[i + k] == p@[k],
        decreases p.len() - j,
    {
        if s[i + j] != p[j] {
            assert(s@.subrange(i as int, i + p@.len())[j as int] != p@[j as int]);
            return false;
        }
        j += 1;
    }
    assert(s@.subrange(i as int, i + p@.len()) == p@);
    true
}

/// The first position (counted in characters) at which `p` stands in `s`.
pub fn find(s: &str, p: &str) -> (r: Option<usize>)
    ensures
        r matches Some(i) ==> find_in(s@, p@) == Some(i as int) && i + p@.len() <= s@.len()
            && occurs_at(s@, p@, i as int),
        r is None ==> find_in(s@, p@) is None,
{
    let sv = chars_of(s);
    let pv = chars_of(p);
    let mut i: usize = 0;
    while i <= sv.len() && pv.len() <= sv.len() - i
        invariant
            sv@ == s@,
            pv@ == p@,
            i <= sv.len() + 1,
            find_in(s@, p@) == find_from(s@, p@, i as int),
        decreases sv.len() + 1 - i,
    {
        if matches_at(&sv, &pv, i) {
            return Some(i);
        }
        if i == sv.len() {
            assert(find_from(s@, p@, i + 1) is None);
            return None;
        }
        i += 1;
    }
    None
}

/// Whether `p` stands somewhere in `s`.
pub fn contains(s: &str, p: &str) -> (r: bool)
    ensures
        r == occurs(s@, p@),
{
    proof {
        lemma_find_from(s@, p@, 0);
    }
    match find(s, p) {
        Some(_) => true,
        None => {
            assert(forall|j: int| occurs_at(s@, p@, j) ==> 0 <= j);
            false
        },
    }
}

/// Whether `s` begins with `p`.
pub fn starts_with(s: &str, p: &str) -> (r: bool)
    ensures
        r == p@.is_prefix_of(s@),
{
    let sv = chars_of(s);
    let pv = chars_of(p);
    if pv.len() <= sv.len() {
        let r = matches_at(&sv, &pv, 0);
        r
    } else {
        false
    }
}

/// Whether `s` ends with `p`.
pub fn ends_with(s: &str, p: &str) -> (r: bool)
    ensures
        r == p@.is_suffix_of(s@),
{
    let sv = chars_of(s);
    let pv = chars_of(p);
    if pv.len() <= sv.len() {
        let at: usize = sv.len() - pv.len();
        let r = matches_at(&sv, &pv, at);
        r
    } else {
        false
    }
}

/// What follows the prefix `p` in `s`, where `s` begins with it.
pub open spec fn after_prefix(s: Seq<char>, p: Seq<char>) -> Option<Seq<char>> {
    if p.is_prefix_of(s) {
        Some(s.skip(p.len() as int))
    } else {
        None
    }
}

/// What follows the prefix `p` in `s`.
pub fn strip_prefix(s: &str, p: &str) -> (r: Option<String>)
    ensures
        r.deep_view() == after_prefix(s@, p@),
{
    if starts_with(s, p) {
        let sv = chars_of(s);
        let pv = chars_of(p);
        let t = text_of(&sv, pv.len(), sv.len());
        assert(t@ == s@.skip(p@.len() as int));
        Some(t)
    } else {
        None
    }
}

/// What precedes the suffix `p` in `s`, where `s` ends with it.
pub open spec fn before_suffix(s: Seq<char>, p: Seq<char>) -> Option<Seq<char>> {
    if p.is_suffix_of(s) {
        Some(s.take(s.len() - p.len()))
    } else {
        None
    }
}

/// What precedes the suffix `p` in `s`.
pub fn strip_suffix(s: &str, p: &str) -> (r: Option<String>)
    ensures
        r.deep_view() == before_suffix(s@, p@),
{
    if ends_with(s, p) {
        let sv = chars_of(s);
        let pv = chars_of(p);
        let t = text_of(&sv, 0, sv.len() - pv.len());
        assert(t@ == s@.take(s@.len() - p@.len()));
        Some(t)
    } else {
        None
    }
}

// Trimming

/// The characters with the Unicode property White_Space.
pub open spec fn is_space(c: char) -> bool {
    ||| '\u{9}' <= c <= '\u{d}'
    ||| c == '\u{20}'
    ||| c == '\u{85}'
    ||| c == '\u{a0}'
    ||| c == '\u{1680}'
    ||| '\u{2000}' <= c <= '\u{200a}'
    ||| c == '\u{2028}'
    ||| c == '\u{2029}'
    ||| c == '\u{202f}'
    ||| c == '\u{205f}'
    ||| c == '\u{3000}'
}

/// Whether `c` has the Unicode property White_Space.
pub fn space(c: char) -> (r: bool)
    ensures
        r == is_space(c),
{
    ('\u{9}' <= c && c <= '\u{d}') || c == '\u{20}' || c == '\u{85}' || c == '\u{a0}' || c
        == '\u{1680}' || ('\u{2000}' <= c && c <= '\u{200a}') || c == '\u{2028}' || c == '\u{2029}'
        || c == '\u{202f}' || c == '\u{205f}' || c == '\u{3000}'
}

/// `s` without the white space it begins with.
pub open spec fn trimmed_start(s: Seq<char>) -> Seq<char>
    decreases s.len(),
{
    if s.len() > 0 && is_space(s[0]) {
        trimmed_start(s.drop_first())
    } else {
        s
    }
}

/// `s` without the white space it ends with.
pub open spec fn trimmed_end(s: Seq<char>) -> Seq<char>
    decreases s.len(),
{
    if s.len() > 0 && is_space(s.last()) {
        trimmed_end(s.drop_last())
    } else {
        s
    }
}

/// `s` without white space at either end.
pub open spec fn trimmed(s: Seq<char>) -> Seq<char> {
    trimmed_end(trimmed_start(s))
}

/// `s` without white space at either end.
pub fn trim(s: &str) -> (r: String)
    ensures
        r@ == trimmed(s@),
{
    let sv = chars_of(s);
    let mut i: usize = 0;
    assert(s@.skip(0) == s@);
    while i < sv.len() && space(sv[i])
        invariant
            sv@ == s@,
            i <= sv.len(),
            trimmed_start(s@) == trimmed_start(s@.skip(i as int)),
        decreases sv.len() - i,
    {
        assert(s@.skip(i as int).drop_first() == s@.skip(i + 1));
        i += 1;
    }
    let ghost t = s@.skip(i as int);
    let mut j: usize = sv.len();
    assert(s@.subrange(i as int, j as int) == t);
    while j > i && space(sv[j - 1])
        invariant
            sv@ == s@,
            i <= j <= sv.len(),
            trimmed_end(t) == trimmed_end(s@.subrange(i as int, j as int)),
        decreases j,
    {
        assert(s@.subrange(i as int, j as int).drop_last() == s@.subrange(i as int, j - 1));
        j -= 1;
    }
    text_of(&sv, i, j)
}

/// `s` without the copies of `p` that it ends with.
pub open spec fn trimmed_end_of(s: Seq<char>, p: Seq<char>) -> Seq<char>
    decreases s.len(),
{
    if p.len() > 0 && p.is_suffix_of(s) {
        trimmed_end_of(s.take(s.len() - p.len()), p)
    } else {
        s
    }
}

/// `s` without the copies of `p`, which is not empty, that it ends with.
pub fn trim_end_of(s: &str, p: &str) -> (r: String)
    requires
        p@.len() > 0,
    ensures
        r@ == trimmed_end_of(s@, p@),
{
    let mut t = s.to_string();
    while ends_with(&t, p)
        invariant
            p@.len() > 0,
            trimmed_end_of(s@, p@) == trimmed_end_of(t@, p@),
        decreases t@.len(),
    {
        let tv = chars_of(&t);
        let pv = chars_of(p);
        let ghost before = t@;
        t = text_of(&tv, 0, tv.len() - pv.len());
        assert(t@ == before.take(before.len() - p@.len()));
    }
    t
}

proof fn lemma_trimmed_start(s: Seq<char>) -> (k: int)
    ensures
        0 <= k <= s.len(),
        trimmed_start(s) == s.skip(k),
        forall|j: int| 0 <= j < k ==> is_space(#[trigger] s[j]),
        k < s.len() ==> !is_space(s[k]),
    decreases s.len(),
{
    if s.len() > 0 && is_space(s[0]) {
        let k = lemma_trimmed_start(s.drop_first());
        assert(s.drop_first().skip(k) == s.skip(k + 1));
        assert forall|j: int| 0 <= j < k + 1 implies is_space(#[trigger] s[j]) by {
            if j > 0 {
                assert(s.drop_first()[j - 1] == s[j]);
            }
        }
        k + 1
    } else {
        assert(s.skip(0) == s);
        0
    }
}

proof fn lemma_trimmed_end(s: Seq<char>) -> (k: int)
    ensures
        0 <= k <= s.len(),
        trimmed_end(s) == s.take(k),
        forall|j: int| k <= j < s.len() ==> is_space(#[trigger] s[j]),
        k > 0 ==> !is_space(s[k - 1]),
    decreases s.len(),
{
    if s.len() > 0 && is_space(s.last()) {
        let k = lemma_trimmed_end(s.drop_last());
        assert(s.drop_last().take(k) == s.take(k));
        assert forall|j: int| k <= j < s.len() implies is_space(#[trigger] s[j]) by {
            if j < s.len() - 1 {
                assert(s.drop_last()[j] == s[j]);
            }
        }
        k
    } else {
        assert(s.take(s.len() as int) == s);
        s.len() as int
    }
}

/// Trimming takes white space from the two ends and nothing else: what is left
/// is a piece of the text with white space alone before and after it, and
/// begins and ends with something else.
pub proof fn law_trimmed_at_both_ends(s: Seq<char>)
    ensures
        exists|a: int, b: int|
            {
                &&& 0 <= a <= b <= s.len()
                &&& trimmed(s) == #[trigger] s.subrange(a, b)
                &&& forall|j: int| 0 <= j < a || b <= j < s.len() ==> is_space(#[trigger] s[j])
                &&& a < b ==> !is_space(s[a]) && !is_space(s[b - 1])
            },
{
    let a = lemma_trimmed_start(s);
    let t = trimmed_start(s);
    let k = lemma_trimmed_end(t);
    let b = a + k;
    assert(t.take(k) == s.subrange(a, b));
    assert forall|j: int| 0 <= j < a || b <= j < s.len() implies is_space(#[trigger] s[j]) by {
        if b <= j {
            assert(t[j - a] == s[j]);
        }
    }
    if k > 0 {
        assert(t[k - 1] == s[b - 1]);
    }
}

/// A text that begins and ends with something other than white space is
/// already trimmed.
pub proof fn lemma_trimmed_stays(s: Seq<char>)
    requires
        s.len() > 0 ==> !is_space(s[0]) && !is_space(s.last()),
    ensures
        trimmed(s) == s,
{
}

/// A prefix and what follows it are the text, and a suffix and what precedes
/// it.
pub proof fn law_affix_and_rest(s: Seq<char>, p: Seq<char>)
    ensures
        after_prefix(p + s, p) == Some(s),
        before_suffix(s + p, p) == Some(s),
        after_prefix(s, p) matches Some(t) ==> s == p + t,
        before_suffix(s, p) matches Some(t) ==> s == t + p,
{
    assert((p + s).subrange(0, p.len() as int) == p);
    assert((p + s).skip(p.len() as int) == s);
    assert((s + p).subrange(s.len() as int, (s.len() + p.len()) as int) == p);
    assert((s + p).take(s.len() as int) == s);
}

/// What stands between an opening and a closing stands there with the end of
/// the one and the beginning of the other.
pub proof fn lemma_field(
    a: Seq<char>,
    opening: Seq<char>,
    value: Seq<char>,
    closing: Seq<char>,
    p: Seq<char>,
    e: Seq<char>,
)
    requires
        p.is_suffix_of(opening),
        e.is_prefix_of(closing),
    ensures
        occurs(a + opening + value + closing, p + value + e),
{
    let s = a + opening + value + closing;
    let n = (a.len() + opening.len() - p.len()) as int;
    let part = p + value + e;
    assert(opening.subrange(opening.len() - p.len(), opening.len() as int) == p);
    assert(closing.subrange(0, e.len() as int) == e);
    assert forall|i: int| 0 <= i < part.len() implies s.subrange(n, n + part.len())[i] == part[i] by {
        if i < p.len() {
            assert(opening.subrange(opening.len() - p.len(), opening.len() as int)[i] == p[i]);
        } else if i >= p.len() + value.len() {
            assert(closing.subrange(0, e.len() as int)[i - p.len() - value.len()] == e[i - p.len()
                - value.len()]);
        }
    }
    assert(s.subrange(n, n + part.len()) == part);
    assert(occurs_at(s, part, n));
}

/// What stands in a text stands in a longer one.
pub proof fn lemma_occurs_longer(s: Seq<char>, t: Seq<char>, p: Seq<char>)
    requires
        occurs(s, p),
    ensures
        occurs(s + t, p),
{
    let i = choose|i: int| occurs_at(s, p, i);
    assert((s + t).subrange(i, i + p.len()) == s.subrange(i, i + p.len()));
    assert(occurs_at(s + t, p, i));
}

/// A text ends with what its last characters make.
pub proof fn lemma_ends(s: Seq<char>, p: Seq<char>)
    requires
        p.len() <= s.len(),
        forall|i: int| 0 <= i < p.len() ==> s[s.len() - p.len() + i] == #[trigger] p[i],
    ensures
        p.is_suffix_of(s),
{
    assert(s.subrange(s.len() - p.len(), s.len() as int) == p);
}

/// A text begins with what its first characters make.
pub proof fn lemma_begins(s: Seq<char>, p: Seq<char>)
    requires
        p.len() <= s.len(),
        forall|i: int| 0 <= i < p.len() ==> s[i] == #[trigger] p[i],
    ensures
        p.is_prefix_of(s),
{
    assert(s.subrange(0, p.len() as int) == p);
}

/// Every copy of an ending is taken off, and nothing else.
pub proof fn law_endings_taken_off(s: Seq<char>, p: Seq<char>)
    requires
        p.len() > 0,
    ensures
        trimmed_end_of(s + p, p) == trimmed_end_of(s, p),
        !p.is_suffix_of(s) ==> trimmed_end_of(s, p) == s,
        !p.is_suffix_of(trimmed_end_of(s, p)),
        trimmed_end_of(s, p).is_prefix_of(s),
    decreases s.len(),
{
    law_affix_and_rest(s, p);
    assert((s + p).take((s + p).len() - p.len()) == s);
    if p.is_suffix_of(s) {
        let t = s.take(s.len() - p.len());
        law_endings_taken_off(t, p);
        let e = trimmed_end_of(t, p);
        assert(s.subrange(0, e.len() as int) == t.subrange(0, e.len() as int));
    } else {
        assert(s.subrange(0, s.len() as int) == s);
    }
}

} // verus!
