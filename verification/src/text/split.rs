//! Cutting texts into parts and putting them together.

use crate::text::basic::{chars_of, is_space, space, text_of};
use vstd::prelude::*;

verus! {

/// What separates the parts of a text.
#[derive(Clone, Copy)]
pub enum Sep {
    /// One given character.
    Char(char),
    /// Any white space.
    Space,
}

/// `c` separates parts.
pub open spec fn separates(sep: Sep, c: char) -> bool {
    match sep {
        Sep::Char(x) => c == x,
        Sep::Space => is_space(c),
    }
}

/// The parts of `s` between the separators, empty parts included: one more
/// than there are separators.
pub open spec fn parts_of(s: Seq<char>, sep: Sep) -> Seq<Seq<char>>
    decreases s.len(),
{
    if s.len() == 0 {
        seq![Seq::<char>::empty()]
    } else {
        let front = parts_of(s.drop_last(), sep);
        if separates(sep, s.last()) {
            front.push(Seq::<char>::empty())
        } else {
            front.drop_last().push(front.last().push(s.last()))
        }
    }
}

/// A text has at least one part.
pub proof fn lemma_parts_nonempty(s: Seq<char>, sep: Sep)
    ensures
        parts_of(s, sep).len() >= 1,
    decreases s.len(),
{
    if s.len() > 0 {
        lemma_parts_nonempty(s.drop_last(), sep);
    }
}

/// The parts of `s` between the separators.
pub fn split(s: &str, sep: Sep) -> (r: Vec<String>)
    ensures
        r.deep_view() == parts_of(s@, sep),
        r.len() >= 1,
{
    let sv = chars_of(s);
    let mut done: Vec<String> = Vec::new();
    let mut cur = String::new();
    let mut i: usize = 0;
    assert(done.deep_view().push(cur@) == parts_of(s@.take(0), sep));
    while i < sv.len()
        invariant
            sv@ == s@,
            i <= sv.len(),
            done.deep_view().push(cur@) == parts_of(s@.take(i as int), sep),
        decreases sv.len() - i,
    {
        let c = sv[i];
        let ghost front = parts_of(s@.take(i as int), sep);
        let ghost before = done.deep_view();
        assert(s@.take(i + 1).drop_last() == s@.take(i as int));
        assert(front.drop_last() == before);
        assert(front.last() == cur@);
        let hit = match sep {
            Sep::Char(x) => c == x,
            Sep::Space => space(c),
        };
        if hit {
            done.push(cur);
            cur = String::new();
            assert(done.deep_view() == front);
        } else {
            cur.push(c);
        }
        i += 1;
    }
    assert(s@.take(s@.len() as int) == s@);
    let ghost all = done.deep_view().push(cur@);
    done.push(cur);
    assert(done.deep_view() == all);
    done
}

/// The parts of `list` that are not empty.
pub open spec fn nonempty(list: Seq<Seq<char>>) -> Seq<Seq<char>>
    decreases list.len(),
{
    if list.len() == 0 {
        Seq::<Seq<char>>::empty()
    } else if list.last().len() == 0 {
        nonempty(list.drop_last())
    } else {
        nonempty(list.drop_last()).push(list.last())
    }
}

/// The texts of `list` that are not empty.
pub fn drop_empty(list: Vec<String>) -> (r: Vec<String>)
    ensures
        r.deep_view() == nonempty(list.deep_view()),
{
    let mut r: Vec<String> = Vec::new();
    let mut i: usize = 0;
    assert(r.deep_view() == nonempty(list.deep_view().take(0)));
    while i < list.len()
        invariant
            i <= list.len(),
            r.deep_view() == nonempty(list.deep_view().take(i as int)),
        decreases list.len() - i,
    {
        let ghost before = r.deep_view();
        assert(list.deep_view().take(i + 1).drop_last() == list.deep_view().take(i as int));
        assert(list.deep_view().take(i + 1).last() == list[i as int]@);
        if !list[i].as_str().is_empty() {
            r.push(list[i].clone());
            assert(r.deep_view() == before.push(list[i as int]@));
        }
        i += 1;
    }
    assert(list.deep_view().take(list.len() as int) == list.deep_view());
    r
}

/// The words of `s`: what stands between runs of white space.
pub open spec fn words_of(s: Seq<char>) -> Seq<Seq<char>> {
    nonempty(parts_of(s, Sep::Space))
}

/// The words of `s`.
pub fn words(s: &str) -> (r: Vec<String>)
    ensures
        r.deep_view() == words_of(s@),
{
    drop_empty(split(s, Sep::Space))
}

/// The first position of `c` in `s`, counted from `i`.
pub open spec fn char_from(s: Seq<char>, c: char, i: int) -> Option<int>
    decreases s.len() - i,
{
    if i >= s.len() {
        None
    } else if s[i] == c {
        Some(i)
    } else {
        char_from(s, c, i + 1)
    }
}

/// `s` cut at its first `c`: what stands before it and what stands after it.
pub open spec fn cut_once(s: Seq<char>, c: char) -> Option<(Seq<char>, Seq<char>)> {
    match char_from(s, c, 0) {
        Some(i) => Some((s.take(i), s.skip(i + 1))),
        None => None,
    }
}

/// The first position found holds the character, and none before it does.
pub proof fn lemma_char_from(s: Seq<char>, c: char, i: int)
    requires
        0 <= i,
    ensures
        match char_from(s, c, i) {
            Some(k) => i <= k < s.len() && s[k] == c && forall|j: int| i <= j < k ==> s[j] != c,
            None => forall|j: int| i <= j < s.len() ==> s[j] != c,
        },
    decreases s.len() - i,
{
    if i < s.len() && s[i] != c {
        lemma_char_from(s, c, i + 1);
    }
}

/// `s` cut at its first `c`.
pub fn split_once(s: &str, c: char) -> (r: Option<(String, String)>)
    ensures
        r.deep_view() == cut_once(s@, c),
{
    let sv = chars_of(s);
    let mut i: usize = 0;
    while i < sv.len()
        invariant
            sv@ == s@,
            i <= sv.len(),
            char_from(s@, c, 0) == char_from(s@, c, i as int),
        decreases sv.len() - i,
    {
        if sv[i] == c {
            let a = text_of(&sv, 0, i);
            let b = text_of(&sv, i + 1, sv.len());
            assert(a@ == s@.take(i as int));
            assert(b@ == s@.skip(i + 1));
            return Some((a, b));
        }
        i += 1;
    }
    None
}

/// `line` without one carriage return at its end.
pub open spec fn chomped(line: Seq<char>) -> Seq<char> {
    if line.len() > 0 && line.last() == '\r' {
        line.drop_last()
    } else {
        line
    }
}

/// The lines of `s`. A line ends with a line feed, with or without a carriage
/// return before it; the last line need not be ended.
pub open spec fn lines_of(s: Seq<char>) -> Seq<Seq<char>> {
    let parts = parts_of(s, Sep::Char('\n'));
    let ended = Seq::new((parts.len() - 1) as nat, |i: int| chomped(parts[i]));
    if parts.last().len() == 0 {
        ended
    } else {
        ended.push(parts.last())
    }
}

/// The lines of `s`.
pub fn lines(s: &str) -> (r: Vec<String>)
    ensures
        r.deep_view() == lines_of(s@),
{
    let parts = split(s, Sep::Char('\n'));
    let ghost pv = parts.deep_view();
    let mut r: Vec<String> = Vec::new();
    let n: usize = parts.len();
    let mut i: usize = 0;
    while i < n - 1
        invariant
            pv == parts.deep_view(),
            n == parts.len(),
            n >= 1,
            i <= n - 1,
            r.deep_view() == Seq::new(i as nat, |j: int| chomped(pv[j])),
        decreases n - i,
    {
        let ghost before = r.deep_view();
        let line = chars_of(&parts[i]);
        let end: usize = if line.len() > 0 && line[line.len() - 1] == '\r' {
            line.len() - 1
        } else {
            line.len()
        };
        let t = text_of(&line, 0, end);
        assert(line@ == pv[i as int]);
        assert(t@ == chomped(pv[i as int]));
        r.push(t);
        i += 1;
        assert(r.deep_view() == before.push(chomped(pv[i - 1])));
        assert(r.deep_view() == Seq::new(i as nat, |j: int| chomped(pv[j])));
    }
    let ghost ended = r.deep_view();
    assert(pv.last() == parts[n - 1]@);
    if !parts[n - 1].as_str().is_empty() {
        r.push(parts[n - 1].clone());
        assert(r.deep_view() == ended.push(pv.last()));
    }
    r
}

/// The texts of `list`, one after the other, with `sep` between them.
pub open spec fn joined(list: Seq<Seq<char>>, sep: Seq<char>) -> Seq<char>
    decreases list.len(),
{
    if list.len() == 0 {
        Seq::<char>::empty()
    } else if list.len() == 1 {
        list[0]
    } else {
        joined(list.drop_last(), sep) + sep + list.last()
    }
}

/// The texts of `list` with `sep` between them.
pub fn join(list: &Vec<String>, sep: &str) -> (r: String)
    ensures
        r@ == joined(list.deep_view(), sep@),
{
    let ghost lv = list.deep_view();
    let mut r = String::new();
    let mut i: usize = 0;
    assert(r@ == joined(lv.take(0), sep@));
    while i < list.len()
        invariant
            lv == list.deep_view(),
            i <= list.len(),
            r@ == joined(lv.take(i as int), sep@),
        decreases list.len() - i,
    {
        assert(lv.take(i + 1).drop_last() == lv.take(i as int));
        assert(lv.take(i + 1).last() == list[i as int]@);
        if i > 0 {
            r.append(sep);
            r.append(&list[i]);
        } else {
            r = list[i].clone();
        }
        i += 1;
    }
    assert(lv.take(lv.len() as int) == lv);
    r
}

/// `s` with `with` in place of every `c`.
pub open spec fn replaced(s: Seq<char>, c: char, with: Seq<char>) -> Seq<char>
    decreases s.len(),
{
    if s.len() == 0 {
        Seq::<char>::empty()
    } else if s.last() == c {
        replaced(s.drop_last(), c, with) + with
    } else {
        replaced(s.drop_last(), c, with).push(s.last())
    }
}

/// `s` with `with` in place of every `c`.
pub fn replace_char(s: &str, c: char, with: &str) -> (r: String)
    ensures
        r@ == replaced(s@, c, with@),
{
    let sv = chars_of(s);
    let mut r = String::new();
    let mut i: usize = 0;
    assert(r@ == replaced(s@.take(0), c, with@));
    while i < sv.len()
        invariant
            sv@ == s@,
            i <= sv.len(),
            r@ == replaced(s@.take(i as int), c, with@),
        decreases sv.len() - i,
    {
        assert(s@.take(i + 1).drop_last() == s@.take(i as int));
        if sv[i] == c {
            r.append(with);
        } else {
            r.push(sv[i]);
        }
        i += 1;
    }
    assert(s@.take(s@.len() as int) == s@);
    r
}

/// Cutting a text into parts loses nothing: the parts with the separator
/// between them are the text, and no part holds the separator.
pub proof fn law_parts_make_the_text(s: Seq<char>, c: char)
    ensures
        joined(parts_of(s, Sep::Char(c)), seq![c]) == s,
        forall|i: int|
            0 <= i < parts_of(s, Sep::Char(c)).len() ==> !(#[trigger] parts_of(
                s,
                Sep::Char(c),
            )[i]).contains(c),
    decreases s.len(),
{
    let sep = Sep::Char(c);
    let parts = parts_of(s, sep);
    lemma_parts_nonempty(s, sep);
    if s.len() == 0 {
        assert(!parts[0].contains(c));
    } else {
        let short = s.drop_last();
        let front = parts_of(short, sep);
        lemma_parts_nonempty(short, sep);
        law_parts_make_the_text(short, c);
        assert(s == short.push(s.last()));
        if s.last() == c {
            assert(parts.drop_last() == front);
            assert(joined(parts, seq![c]) == joined(front, seq![c]) + seq![c] + Seq::<
                char,
            >::empty());
            assert(joined(parts, seq![c]) == s);
            assert forall|i: int| 0 <= i < parts.len() implies !(#[trigger] parts[i]).contains(
                c,
            ) by {
                if i < front.len() {
                    assert(parts[i] == front[i]);
                }
            }
        } else {
            let last = front.last();
            assert(parts.drop_last() == front.drop_last());
            if front.len() > 1 {
                assert(joined(parts, seq![c]) == joined(front.drop_last(), seq![c]) + seq![c]
                    + last.push(s.last()));
            }
            assert(joined(parts, seq![c]) == s);
            assert forall|i: int| 0 <= i < parts.len() implies !(#[trigger] parts[i]).contains(
                c,
            ) by {
                assert(!front[i].contains(c));
                if i == front.len() - 1 {
                    assert(parts[i] == last.push(s.last()));
                    assert forall|j: int| 0 <= j < parts[i].len() implies parts[i][j] != c by {
                        if j < last.len() {
                            assert(last.contains(last[j]));
                        }
                    }
                } else {
                    assert(parts[i] == front[i]);
                }
            }
        }
    }
}

/// What is added to a text behind its last separator is added to its last
/// part.
pub proof fn lemma_parts_longer(s: Seq<char>, t: Seq<char>, sep: Sep)
    requires
        forall|j: int| 0 <= j < t.len() ==> !separates(sep, #[trigger] t[j]),
    ensures
        parts_of(s + t, sep) == parts_of(s, sep).drop_last().push(parts_of(s, sep).last() + t),
    decreases t.len(),
{
    lemma_parts_nonempty(s, sep);
    let front = parts_of(s, sep);
    if t.len() == 0 {
        assert(s + t == s);
        assert(front.last() + t == front.last());
        assert(front.drop_last().push(front.last()) == front);
    } else {
        let short = t.drop_last();
        assert(!separates(sep, t[t.len() - 1]));
        assert forall|j: int| 0 <= j < short.len() implies !separates(
            sep,
            #[trigger] short[j],
        ) by {
            assert(short[j] == t[j]);
        }
        lemma_parts_longer(s, short, sep);
        assert((s + t).drop_last() == s + short);
        assert((s + t).last() == t.last());
        assert((front.last() + short).push(t.last()) == front.last() + t);
        assert(parts_of(s + t, sep) == front.drop_last().push(front.last() + t));
    }
}

/// A list of texts is found again in the text that they make: where no text
/// holds a separator, the parts are the texts.
pub proof fn law_joined_texts_part(list: Seq<Seq<char>>, sep: Sep, c: char)
    requires
        list.len() > 0,
        separates(sep, c),
        forall|i: int, j: int|
            0 <= i < list.len() && 0 <= j < list[i].len() ==> !separates(
                sep,
                #[trigger] list[i][j],
            ),
    ensures
        parts_of(joined(list, seq![c]), sep) == list,
    decreases list.len(),
{
    let empty = Seq::<char>::empty();
    if list.len() == 1 {
        lemma_parts_longer(empty, list[0], sep);
        assert(empty + list[0] == list[0]);
        assert(parts_of(empty, sep) == seq![empty]);
        assert(parts_of(list[0], sep) == list);
    } else {
        let short = list.drop_last();
        assert forall|i: int, j: int|
            0 <= i < short.len() && 0 <= j < short[i].len() implies !separates(
            sep,
            #[trigger] short[i][j],
        ) by {
            assert(short[i][j] == list[i][j]);
        }
        law_joined_texts_part(short, sep, c);
        let s = joined(short, seq![c]);
        let cut = s + seq![c];
        assert(cut.drop_last() == s);
        assert(parts_of(cut, sep) == short.push(empty));
        assert forall|j: int| 0 <= j < list.last().len() implies !separates(
            sep,
            #[trigger] list.last()[j],
        ) by {
            assert(list.last()[j] == list[list.len() - 1][j]);
        }
        lemma_parts_longer(cut, list.last(), sep);
        assert(short.push(empty).drop_last() == short);
        assert(empty + list.last() == list.last());
        assert(short.push(list.last()) == list);
    }
}

/// Words with one space between them are read back.
pub proof fn law_words_read_back(list: Seq<Seq<char>>)
    requires
        list.len() > 0,
        forall|i: int| 0 <= i < list.len() ==> (#[trigger] list[i]).len() > 0,
        forall|i: int, j: int|
            0 <= i < list.len() && 0 <= j < list[i].len() ==> !is_space(#[trigger] list[i][j]),
    ensures
        words_of(joined(list, seq![' '])) == list,
{
    law_joined_texts_part(list, Sep::Space, ' ');
    lemma_all_nonempty(list);
}

proof fn lemma_all_nonempty(list: Seq<Seq<char>>)
    requires
        forall|i: int| 0 <= i < list.len() ==> (#[trigger] list[i]).len() > 0,
    ensures
        nonempty(list) == list,
    decreases list.len(),
{
    if list.len() > 0 {
        assert(list[list.len() - 1].len() > 0);
        assert forall|i: int| 0 <= i < list.drop_last().len() implies (
        #[trigger] list.drop_last()[i]).len() > 0 by {
            assert(list.drop_last()[i] == list[i]);
        }
        lemma_all_nonempty(list.drop_last());
        assert(list.drop_last().push(list.last()) == list);
    }
}

/// A text is cut at its first separator: what stands before it, the separator
/// and what stands after it are the text. A text without it is not cut.
pub proof fn law_cut_at_first(s: Seq<char>, c: char)
    ensures
        cut_once(s, c) is None <==> !s.contains(c),
        cut_once(s, c) matches Some(p) ==> p.0 + seq![c] + p.1 == s && !p.0.contains(c),
{
    lemma_char_from(s, c, 0);
    if let Some(i) = char_from(s, c, 0) {
        assert(s.contains(s[i]));
        assert(s.take(i) + seq![c] + s.skip(i + 1) == s);
    }
}

/// Two texts are found again in the text that has them with a separator
/// between, where the first does not hold it.
pub proof fn law_cut_gives_back(before: Seq<char>, c: char, after: Seq<char>)
    requires
        !before.contains(c),
    ensures
        cut_once(before + seq![c] + after, c) == Some((before, after)),
{
    let s = before + seq![c] + after;
    lemma_char_from(s, c, 0);
    assert(s[before.len() as int] == c);
    let i = char_from(s, c, 0)->0;
    if i < before.len() {
        assert(before.contains(before[i]));
    }
    assert(s.take(i) == before);
    assert(s.skip(i + 1) == after);
}

/// Texts that are written line by line are read back, each as its line.
pub proof fn law_lines_read_back(list: Seq<Seq<char>>)
    requires
        list.len() > 0,
        forall|i: int| 0 <= i < list.len() ==> !(#[trigger] list[i]).contains('\n'),
        forall|i: int|
            0 <= i < list.len() && (#[trigger] list[i]).len() > 0 ==> list[i].last() != '\r',
    ensures
        lines_of(joined(list, seq!['\n']) + seq!['\n']) == list,
{
    let s = joined(list, seq!['\n']);
    assert forall|i: int, j: int|
        0 <= i < list.len() && 0 <= j < list[i].len() implies !separates(
        Sep::Char('\n'),
        #[trigger] list[i][j],
    ) by {
        assert(list[i].contains(list[i][j]));
    }
    law_joined_texts_part(list, Sep::Char('\n'), '\n');
    assert((s + seq!['\n']).drop_last() == s);
    let parts = parts_of(s + seq!['\n'], Sep::Char('\n'));
    assert(parts == list.push(Seq::<char>::empty()));
    assert(lines_of(s + seq!['\n']) == list);
}

/// Words come without white space and are never empty.
pub proof fn law_words_are_words(s: Seq<char>)
    ensures
        forall|i: int|
            0 <= i < words_of(s).len() ==> (#[trigger] words_of(s)[i]).len() > 0,
        forall|i: int, j: int|
            0 <= i < words_of(s).len() && 0 <= j < words_of(s)[i].len() ==> !is_space(
                #[trigger] words_of(s)[i][j],
            ),
{
    lemma_parts_without_space(s);
    lemma_nonempty_kept(parts_of(s, Sep::Space));
    let parts = parts_of(s, Sep::Space);
    assert forall|i: int, j: int|
        0 <= i < words_of(s).len() && 0 <= j < words_of(s)[i].len() implies !is_space(
        #[trigger] words_of(s)[i][j],
    ) by {
        let k = parts.index_of(words_of(s)[i]);
        assert(parts.contains(words_of(s)[i]));
        assert(parts[k][j] == words_of(s)[i][j]);
    }
}

proof fn lemma_parts_without_space(s: Seq<char>)
    ensures
        forall|i: int, j: int|
            0 <= i < parts_of(s, Sep::Space).len() && 0 <= j < parts_of(s, Sep::Space)[i].len()
                ==> !is_space(#[trigger] parts_of(s, Sep::Space)[i][j]),
    decreases s.len(),
{
    let parts = parts_of(s, Sep::Space);
    if s.len() > 0 {
        let front = parts_of(s.drop_last(), Sep::Space);
        lemma_parts_nonempty(s.drop_last(), Sep::Space);
        lemma_parts_without_space(s.drop_last());
        assert forall|i: int, j: int|
            0 <= i < parts.len() && 0 <= j < parts[i].len() implies !is_space(
            #[trigger] parts[i][j],
        ) by {
            if i < front.len() && j < front[i].len() {
                assert(!is_space(front[i][j]));
            }
        }
    }
}

proof fn lemma_nonempty_kept(list: Seq<Seq<char>>)
    ensures
        forall|i: int|
            0 <= i < nonempty(list).len() ==> (#[trigger] nonempty(list)[i]).len() > 0
                && list.contains(nonempty(list)[i]),
        forall|t: Seq<char>| #[trigger] list.contains(t) && t.len() > 0 ==> nonempty(list).contains(t),
    decreases list.len(),
{
    if list.len() > 0 {
        let short = list.drop_last();
        lemma_nonempty_kept(short);
        let r = nonempty(list);
        let f = nonempty(short);
        assert forall|i: int| 0 <= i < r.len() implies (#[trigger] r[i]).len() > 0 && list.contains(
            r[i],
        ) by {
            if i < f.len() {
                assert(r[i] == f[i]);
                let k = short.index_of(f[i]);
                assert(list[k] == r[i]);
            } else {
                assert(list[list.len() - 1] == r[i]);
            }
        }
        assert forall|t: Seq<char>| #[trigger] list.contains(t) && t.len() > 0 implies r.contains(
            t,
        ) by {
            let k = list.index_of(t);
            if k < short.len() {
                assert(short[k] == t);
                assert(short.contains(t));
                let m = f.index_of(t);
                assert(r[m] == t);
            } else {
                assert(r[r.len() - 1] == t);
            }
        }
    }
}

/// A replacement works character by character: it stands for every `c`, and
/// any other character stays.
pub proof fn law_replaced_each(s: Seq<char>, t: Seq<char>, c: char, with: Seq<char>)
    ensures
        replaced(s + t, c, with) == replaced(s, c, with) + replaced(t, c, with),
        replaced(seq![c], c, with) == with,
        !t.contains(c) ==> replaced(t, c, with) == t,
    decreases t.len(),
{
    assert(seq![c].drop_last() == Seq::<char>::empty());
    assert(replaced(Seq::<char>::empty(), c, with) == Seq::<char>::empty());
    assert(replaced(seq![c], c, with) == Seq::<char>::empty() + with);
    if t.len() == 0 {
        assert(s + t == s);
    } else {
        let short = t.drop_last();
        law_replaced_each(s, short, c, with);
        assert((s + t).drop_last() == s + short);
        assert(t.contains(t.last()));
        if !t.contains(c) {
            assert(!short.contains(c)) by {
                if short.contains(c) {
                    let j = short.index_of(c);
                    assert(t[j] == c);
                }
            }
            assert(short.push(t.last()) == t);
        }
    }
}

/// What stands before the first separator is the first part.
pub proof fn lemma_first_part(a: Seq<char>, c: char, b: Seq<char>)
    requires
        !a.contains(c),
    ensures
        parts_of(a + seq![c] + b, Sep::Char(c)).len() >= 2,
        parts_of(a + seq![c] + b, Sep::Char(c))[0] == a,
    decreases b.len(),
{
    let sep = Sep::Char(c);
    let s = a + seq![c] + b;
    if b.len() == 0 {
        assert forall|j: int| 0 <= j < a.len() implies !separates(sep, #[trigger] a[j]) by {
            assert(a.contains(a[j]));
        }
        lemma_parts_longer(Seq::<char>::empty(), a, sep);
        assert(Seq::<char>::empty() + a == a);
        assert(parts_of(a, sep) == seq![a]);
        assert(s.drop_last() == a);
    } else {
        lemma_first_part(a, c, b.drop_last());
        assert(s.drop_last() == a + seq![c] + b.drop_last());
    }
}

/// The first line ends at the first end of line, with or without a carriage
/// return before it.
pub proof fn law_first_line(line: Seq<char>, rest: Seq<char>)
    requires
        !line.contains('\n'),
        line.len() > 0 ==> line.last() != '\r',
    ensures
        lines_of(line + seq!['\n'] + rest).len() > 0,
        lines_of(line + seq!['\n'] + rest)[0] == line,
        lines_of(line + seq!['\r', '\n'] + rest).len() > 0,
        lines_of(line + seq!['\r', '\n'] + rest)[0] == line,
{
    let with = line.push('\r');
    assert forall|j: int| 0 <= j < with.len() implies with[j] != '\n' by {
        if j < line.len() {
            assert(line.contains(line[j]));
        }
    }
    lemma_first_part(line, '\n', rest);
    lemma_first_part(with, '\n', rest);
    assert(with + seq!['\n'] + rest == line + seq!['\r', '\n'] + rest);
    assert(with.drop_last() == line);
}

} // verus!
