//! Names for cells in the domain name system, and the files that hold them.

use crate::text::basic::{chars_of, contains, occurs, occurs_at};
use crate::text::letters::{
    all_ascii, alnum, ascii_lowered, ascii_raised, is_alnum, is_ascii_char, lower_case, to_lower,
};
use crate::text::split::{join, joined, law_lines_read_back, lines, lines_of};
use vstd::prelude::*;

verus! {

/// The file with the names of the cells.
pub const DNS_HOSTS: &'static str = "/var/lib/cella/dns-hosts";

// Labels

/// A letter or a digit as it is, and a hyphen for any other character.
pub open spec fn hyphened(c: char) -> char {
    if is_alnum(c) {
        c
    } else {
        '-'
    }
}

/// The letters and digits of `s`, with one hyphen for each run of other
/// characters between them and for one that follows them.
pub open spec fn collapsed(s: Seq<char>) -> Seq<char>
    decreases s.len(),
{
    if s.len() == 0 {
        Seq::<char>::empty()
    } else {
        let front = collapsed(s.drop_last());
        let c = hyphened(s.last());
        if c == '-' && (front.len() == 0 || front.last() == '-') {
            front
        } else {
            front.push(c)
        }
    }
}

/// The letters and digits of `s`, with one hyphen for each run of other
/// characters between them.
pub open spec fn label_of(s: Seq<char>) -> Seq<char> {
    let c = collapsed(s);
    if c.len() > 0 && c.last() == '-' {
        c.drop_last()
    } else {
        c
    }
}

/// `l` can stand in a host name: small letters, digits and single hyphens
/// between them.
pub open spec fn is_label(l: Seq<char>) -> bool {
    &&& forall|i: int|
        0 <= i < l.len() ==> #[trigger] l[i] == '-' || 'a' <= l[i] <= 'z' || '0' <= l[i] <= '9'
    &&& l.len() > 0 ==> l[0] != '-' && l.last() != '-'
    &&& forall|i: int| 0 <= i < l.len() - 1 ==> !(#[trigger] l[i] == '-' && l[i + 1] == '-')
}

/// No capital of the ASCII range stands in `s`.
pub open spec fn no_capitals(s: Seq<char>) -> bool {
    forall|i: int| 0 <= i < s.len() ==> !('A' <= #[trigger] s[i] <= 'Z')
}

proof fn lemma_collapsed(s: Seq<char>)
    requires
        no_capitals(s),
    ensures
        ({
            let c = collapsed(s);
            &&& forall|i: int|
                0 <= i < c.len() ==> #[trigger] c[i] == '-' || 'a' <= c[i] <= 'z' || '0' <= c[i]
                    <= '9'
            &&& c.len() > 0 ==> c[0] != '-'
            &&& forall|i: int|
                0 <= i < c.len() - 1 ==> !(#[trigger] c[i] == '-' && c[i + 1] == '-')
        }),
    decreases s.len(),
{
    if s.len() > 0 {
        let front = s.drop_last();
        assert forall|i: int| 0 <= i < front.len() implies !('A' <= #[trigger] front[i] <= 'Z') by {
            assert(front[i] == s[i]);
        }
        lemma_collapsed(front);
        assert(!('A' <= s[s.len() - 1] <= 'Z'));
    }
}

/// Whatever a branch or a repository is called, its label can stand in a host
/// name.
pub proof fn law_label_is_label(s: Seq<char>)
    requires
        no_capitals(s),
    ensures
        is_label(label_of(s)),
{
    lemma_collapsed(s);
    let c = collapsed(s);
    let l = label_of(s);
    if l.len() > 0 && l.len() < c.len() {
        assert(l.last() == c[c.len() - 2]);
        if c[c.len() - 2] == '-' {
            assert(c[c.len() - 2 + 1] == '-');
        }
    }
    assert forall|i: int| 0 <= i < l.len() implies #[trigger] l[i] == '-' || 'a' <= l[i] <= 'z'
        || '0' <= l[i] <= '9' by {
        assert(l[i] == c[i]);
    }
    assert forall|i: int| 0 <= i < l.len() - 1 implies !(#[trigger] l[i] == '-' && l[i + 1]
        == '-') by {
        assert(l[i] == c[i]);
        assert(l[i + 1] == c[i + 1]);
    }
}

proof fn lemma_collapsed_label(l: Seq<char>, k: int)
    requires
        is_label(l),
        0 <= k <= l.len(),
    ensures
        collapsed(l.take(k)) == l.take(k),
    decreases k,
{
    if k > 0 {
        lemma_collapsed_label(l, k - 1);
        assert(l.take(k).drop_last() == l.take(k - 1));
        assert(l.take(k).last() == l[k - 1]);
        let c = l[k - 1];
        assert(hyphened(c) == c);
        if c == '-' {
            assert(k - 1 > 0) by {
                assert(l[0] != '-');
            }
            assert(!(l[k - 2] == '-' && l[k - 2 + 1] == '-'));
            assert(l.take(k - 1).last() == l[k - 2]);
        }
        assert(l.take(k) == l.take(k - 1).push(c));
    }
}

/// A label is its own label.
pub proof fn law_label_stable(l: Seq<char>)
    requires
        is_label(l),
    ensures
        label_of(l) == l,
{
    lemma_collapsed_label(l, l.len() as int);
    assert(l.take(l.len() as int) == l);
}

/// The label of a text in lower case.
pub fn label(lower: &str) -> (r: String)
    ensures
        r@ == label_of(lower@),
{
    let v = chars_of(lower);
    let mut out: Vec<char> = Vec::new();
    let mut i: usize = 0;
    assert(out@ == collapsed(lower@.take(0)));
    while i < v.len()
        invariant
            v@ == lower@,
            i <= v.len(),
            out@ == collapsed(lower@.take(i as int)),
        decreases v.len() - i,
    {
        assert(lower@.take(i + 1).drop_last() == lower@.take(i as int));
        let c = if alnum(v[i]) {
            v[i]
        } else {
            '-'
        };
        if !(c == '-' && (out.len() == 0 || out[out.len() - 1] == '-')) {
            out.push(c);
        }
        i += 1;
    }
    assert(lower@.take(lower@.len() as int) == lower@);
    let end: usize = if out.len() > 0 && out[out.len() - 1] == '-' {
        out.len() - 1
    } else {
        out.len()
    };
    let r = crate::text::basic::text_of(&out, 0, end);
    assert(r@ == label_of(lower@));
    r
}

/// `label` is the label of `name`: its lower case, with hyphens for what cannot
/// stand in a host name. The case of the ASCII letters of the name makes no
/// difference, the lower case of an ASCII name is what its capitals made small
/// leave, and a label is its own label.
pub open spec fn sanitized(name: Seq<char>, label: Seq<char>) -> bool {
    &&& label == label_of(lower_case(name))
    &&& label == label_of(lower_case(ascii_lowered(name)))
    &&& all_ascii(name) ==> label == label_of(ascii_lowered(name))
    &&& is_label(label)
    &&& is_label(name) ==> label == name
}

/// The label of a name.
pub fn sanitize_dns(s: &str) -> (r: String)
    ensures
        sanitized(s@, r@),
{
    let lower = to_lower(s);
    proof {
        law_label_is_label(lower@);
        if is_label(s@) {
            assert forall|i: int| 0 <= i < s@.len() implies is_ascii_char(#[trigger] s@[i]) by {}
            assert(ascii_lowered(s@) =~= s@);
            law_label_stable(s@);
        }
    }
    label(&lower)
}

/// Two names that differ only in the case of their ASCII letters have the same
/// label, whatever other characters they hold.
pub proof fn law_label_ignores_case(
    name: Seq<char>,
    label: Seq<char>,
    other: Seq<char>,
    other_label: Seq<char>,
)
    requires
        sanitized(name, label),
        sanitized(other, other_label),
        other == ascii_raised(name) || ascii_lowered(other) == ascii_lowered(name),
    ensures
        label == other_label,
{
    assert(ascii_lowered(ascii_raised(name)) =~= ascii_lowered(name));
}

/// The label of a label is that label.
pub proof fn law_label_settled(name: Seq<char>, label: Seq<char>, again: Seq<char>)
    requires
        sanitized(name, label),
        sanitized(label, again),
    ensures
        again == label,
{
}

/// The host name of a cell: the branch, the repository and `cell`.
pub open spec fn hostname_of(branch: Seq<char>, repo: Seq<char>) -> Seq<char> {
    label_of(lower_case(branch)) + "."@ + label_of(lower_case(repo)) + ".cell"@
}

/// The host name of the cell for the branch `branch` of `repo`.
pub fn dns_hostname(branch: &str, repo: &str) -> (r: String)
    ensures
        r@ == hostname_of(branch@, repo@),
        all_ascii(branch@) && all_ascii(repo@) ==> r@ == label_of(ascii_lowered(branch@)) + "."@
            + label_of(ascii_lowered(repo@)) + ".cell"@,
        r@.len() > 0,
        !r@.contains('\n'),
{
    let b = sanitize_dns(branch);
    let p = sanitize_dns(repo);
    let mut r = b.clone();
    r.append(".");
    r.append(&p);
    r.append(".cell");
    proof {
        reveal_strlit(".");
        reveal_strlit(".cell");
        assert forall|i: int| 0 <= i < r@.len() implies r@[i] != '\n' by {
            if i < b@.len() {
                assert(r@[i] == b@[i]);
            } else if b@.len() < i < b@.len() + 1 + p@.len() {
                assert(r@[i] == p@[i - b@.len() - 1]);
            } else if i == b@.len() {
                assert(r@[i] == "."@[0]);
            } else {
                assert(r@[i] == ".cell"@[i - b@.len() - 1 - p@.len()]);
            }
        }
    }
    r
}

// Files of host names

/// The line for a host.
pub open spec fn host_entry(ip: Seq<char>, hostname: Seq<char>) -> Seq<char> {
    ip + " "@ + hostname
}

/// The file with a line for the host, where it has none.
pub open spec fn registered(hosts: Seq<char>, ip: Seq<char>, hostname: Seq<char>) -> Option<
    Seq<char>,
> {
    if occurs(hosts, host_entry(ip, hostname)) {
        None
    } else {
        Some(hosts + host_entry(ip, hostname) + "\n"@)
    }
}

/// What the file of host names is to hold, where it does not hold the host
/// `hostname` with the address `ip` yet.
pub fn register_dns(hosts: &str, ip: &str, hostname: &str) -> (r: Option<String>)
    ensures
        r.deep_view() == registered(hosts@, ip@, hostname@),
{
    let mut entry = ip.to_string();
    entry.append(" ");
    entry.append(hostname);
    if contains(hosts, &entry) {
        None
    } else {
        let mut r = hosts.to_string();
        r.append(&entry);
        r.append("\n");
        Some(r)
    }
}

/// A host that was registered is not registered again.
pub proof fn law_registered_once(hosts: Seq<char>, ip: Seq<char>, hostname: Seq<char>)
    requires
        registered(hosts, ip, hostname) is Some,
    ensures
        registered(registered(hosts, ip, hostname)->0, ip, hostname) is None,
{
    let entry = host_entry(ip, hostname);
    let text = registered(hosts, ip, hostname)->0;
    assert(text.subrange(hosts.len() as int, (hosts.len() + entry.len()) as int) == entry);
    assert(occurs_at(text, entry, hosts.len() as int));
}

/// The lines that do not name the host.
pub open spec fn lines_without(list: Seq<Seq<char>>, hostname: Seq<char>) -> Seq<Seq<char>> {
    list.filter(|line: Seq<char>| !occurs(line, hostname))
}

/// The lines `list`, each ended; nothing where there are none but empty ones.
pub open spec fn deregistered(hosts: Seq<char>, hostname: Seq<char>) -> Seq<char> {
    let rest = joined(lines_without(lines_of(hosts), hostname), "\n"@);
    if rest.len() == 0 {
        rest
    } else {
        rest + "\n"@
    }
}

/// The texts of `list` that do not hold `without`.
pub fn drop_lines(list: &Vec<String>, without: &str) -> (r: Vec<String>)
    ensures
        r.deep_view() == lines_without(list.deep_view(), without@),
{
    let ghost all = list.deep_view();
    let ghost keep = |line: Seq<char>| !occurs(line, without@);
    let mut r: Vec<String> = Vec::new();
    let mut i: usize = 0;
    assert(all.take(0).filter(keep) == Seq::<Seq<char>>::empty()) by {
        reveal(Seq::filter);
    }
    assert(r.deep_view() == all.take(0).filter(keep));
    while i < list.len()
        invariant
            i <= list.len(),
            all == list.deep_view(),
            keep == (|line: Seq<char>| !occurs(line, without@)),
            r.deep_view() == all.take(i as int).filter(keep),
        decreases list.len() - i,
    {
        let ghost before = r.deep_view();
        assert(all.take(i + 1).drop_last() == all.take(i as int));
        assert(all.take(i + 1).last() == list[i as int]@);
        if !contains(&list[i], without) {
            r.push(list[i].clone());
            assert(r.deep_view() == before.push(list[i as int]@));
        }
        assert(r.deep_view() == all.take(i + 1).filter(keep)) by {
            reveal(Seq::filter);
        }
        i += 1;
    }
    assert(all.take(all.len() as int) == all);
    r
}

/// What the file of host names holds without the host `hostname`.
pub fn deregister_dns(hosts: &str, hostname: &str) -> (r: String)
    ensures
        r@ == deregistered(hosts@, hostname@),
{
    let rest = drop_lines(&lines(hosts), hostname);
    let mut r = join(&rest, "\n");
    if r.as_str().is_empty() {
        r
    } else {
        r.append("\n");
        r
    }
}

/// What stands in lines put together stands in one of them, unless it reaches
/// over an end of line.
pub proof fn lemma_occurs_in_line(list: Seq<Seq<char>>, h: Seq<char>)
    requires
        h.len() > 0,
        !h.contains('\n'),
        occurs(joined(list, "\n"@), h),
    ensures
        exists|i: int| 0 <= i < list.len() && occurs(#[trigger] list[i], h),
    decreases list.len(),
{
    reveal_strlit("\n");
    let text = joined(list, "\n"@);
    let p = choose|p: int| occurs_at(text, h, p);
    if list.len() == 1 {
        assert(occurs(list[0], h));
    } else if list.len() > 1 {
        let front = list.drop_last();
        let a = joined(front, "\n"@);
        let n = a.len() as int;
        let b = list.last();
        assert(text == a + "\n"@ + b);
        if p + h.len() <= n {
            assert(a.subrange(p, p + h.len()) == text.subrange(p, p + h.len()));
            assert(occurs_at(a, h, p));
            lemma_occurs_in_line(front, h);
            let i = choose|i: int| 0 <= i < front.len() && occurs(#[trigger] front[i], h);
            assert(list[i] == front[i]);
        } else if p > n {
            assert(b.subrange(p - n - 1, p - n - 1 + h.len()) == text.subrange(p, p + h.len()));
            assert(occurs_at(b, h, p - n - 1));
            assert(list[list.len() - 1] == b);
        } else {
            assert(text.subrange(p, p + h.len())[n - p] == text[n]);
            assert(text[n] == '\n');
            assert(h[n - p] == '\n');
        }
    }
}

/// A host that was taken out stands nowhere in the file any more.
pub proof fn law_deregistered_host_gone(hosts: Seq<char>, hostname: Seq<char>)
    requires
        hostname.len() > 0,
        !hostname.contains('\n'),
    ensures
        !occurs(deregistered(hosts, hostname), hostname),
{
    reveal_strlit("\n");
    let list = lines_without(lines_of(hosts), hostname);
    let rest = joined(list, "\n"@);
    let keep = |line: Seq<char>| !occurs(line, hostname);
    if occurs(deregistered(hosts, hostname), hostname) {
        let text = deregistered(hosts, hostname);
        let p = choose|p: int| occurs_at(text, hostname, p);
        if p + hostname.len() > rest.len() {
            assert(text.subrange(p, p + hostname.len())[hostname.len() - 1] == '\n');
            assert(hostname[hostname.len() - 1] == '\n');
            assert(false);
        }
        assert(rest.subrange(p, p + hostname.len()) == text.subrange(p, p + hostname.len()));
        assert(occurs_at(rest, hostname, p));
        lemma_occurs_in_line(list, hostname);
        let i = choose|i: int| 0 <= i < list.len() && occurs(#[trigger] list[i], hostname);
        lines_of(hosts).lemma_filter_pred(keep, i);
        assert(keep(list[i]));
    }
}

proof fn lemma_collapsed_letters(s: Seq<char>, t: Seq<char>)
    requires
        forall|i: int| 0 <= i < t.len() ==> is_alnum(#[trigger] t[i]),
    ensures
        collapsed(s + t) == collapsed(s) + t,
    decreases t.len(),
{
    if t.len() == 0 {
        assert(s + t == s);
    } else {
        let short = t.drop_last();
        assert forall|i: int| 0 <= i < short.len() implies is_alnum(#[trigger] short[i]) by {
            assert(short[i] == t[i]);
        }
        lemma_collapsed_letters(s, short);
        assert((s + t).drop_last() == s + short);
        assert(is_alnum(t[t.len() - 1]));
        assert((collapsed(s) + short).push(t.last()) == collapsed(s) + t);
    }
}

proof fn lemma_collapsed_others(s: Seq<char>, t: Seq<char>)
    requires
        t.len() > 0,
        forall|i: int| 0 <= i < t.len() ==> !is_alnum(#[trigger] t[i]),
    ensures
        collapsed(s + t) == (if collapsed(s).len() == 0 || collapsed(s).last() == '-' {
            collapsed(s)
        } else {
            collapsed(s).push('-')
        }),
    decreases t.len(),
{
    let short = t.drop_last();
    assert((s + t).drop_last() == s + short);
    assert((s + t).last() == t.last());
    assert(!is_alnum(t[t.len() - 1]));
    if short.len() == 0 {
        assert(s + short == s);
    } else {
        assert forall|i: int| 0 <= i < short.len() implies !is_alnum(#[trigger] short[i]) by {
            assert(short[i] == t[i]);
        }
        lemma_collapsed_others(s, short);
    }
}

/// Letters and digits stay as they are in a label. What stands between them
/// leaves one hyphen, however long it is, and what stands around them leaves
/// nothing.
pub proof fn law_label_keeps_letters(
    before: Seq<char>,
    a: Seq<char>,
    between: Seq<char>,
    b: Seq<char>,
    after: Seq<char>,
)
    requires
        a.len() > 0 && b.len() > 0 && between.len() > 0,
        forall|i: int| 0 <= i < a.len() ==> is_alnum(#[trigger] a[i]),
        forall|i: int| 0 <= i < b.len() ==> is_alnum(#[trigger] b[i]),
        forall|i: int| 0 <= i < before.len() ==> !is_alnum(#[trigger] before[i]),
        forall|i: int| 0 <= i < between.len() ==> !is_alnum(#[trigger] between[i]),
        forall|i: int| 0 <= i < after.len() ==> !is_alnum(#[trigger] after[i]),
    ensures
        label_of(a) == a,
        label_of(before + a + between + b + after) == a + seq!['-'] + b,
{
    let none = Seq::<char>::empty();
    assert(collapsed(none) == none);
    assert(none + before == before);
    if before.len() > 0 {
        lemma_collapsed_others(none, before);
    }
    assert(collapsed(before) == none);
    assert(is_alnum(a[a.len() - 1]));
    assert(is_alnum(b[b.len() - 1]));
    lemma_collapsed_letters(none, a);
    assert(none + a == a);
    lemma_collapsed_letters(before, a);
    lemma_collapsed_others(before + a, between);
    assert(collapsed(before + a + between) == a.push('-'));
    lemma_collapsed_letters(before + a + between, b);
    assert(a.push('-') + b == a + seq!['-'] + b);
    let s = before + a + between + b;
    if after.len() > 0 {
        lemma_collapsed_others(s, after);
        assert(collapsed(s + after).drop_last() == collapsed(s));
    } else {
        assert(s + after == s);
    }
}

/// The name of a cell is made of the labels of its branch and its repository,
/// in that order.
pub proof fn law_hostname_parts(branch: Seq<char>, repo: Seq<char>, b: Seq<char>, r: Seq<char>)
    requires
        sanitized(branch, b),
        sanitized(repo, r),
    ensures
        hostname_of(branch, repo) == b + "."@ + r + ".cell"@,
{
}

/// Registering a host adds its line at the end and keeps all that stood
/// before; nothing is added where the line is there.
pub proof fn law_registered_at_the_end(hosts: Seq<char>, ip: Seq<char>, hostname: Seq<char>)
    ensures
        occurs(hosts, ip + " "@ + hostname) <==> registered(hosts, ip, hostname) is None,
        registered(hosts, ip, hostname) is Some ==> registered(hosts, ip, hostname) == Some(
            hosts + (ip + " "@ + hostname + "\n"@),
        ),
{
    assert(hosts + host_entry(ip, hostname) + "\n"@ == hosts + (ip + " "@ + hostname + "\n"@));
}

/// Taking a host out leaves every line that does not name it, in its order,
/// and no other.
pub proof fn law_other_lines_stay(list: Seq<Seq<char>>, hostname: Seq<char>)
    requires
        list.len() > 0,
        forall|i: int| 0 <= i < list.len() ==> !(#[trigger] list[i]).contains('\n'),
        forall|i: int|
            0 <= i < list.len() && (#[trigger] list[i]).len() > 0 ==> list[i].last() != '\r',
    ensures
        ({
            let kept = list.filter(|line: Seq<char>| !occurs(line, hostname));
            let left = deregistered(joined(list, seq!['\n']) + seq!['\n'], hostname);
            &&& joined(kept, seq!['\n']).len() > 0 ==> lines_of(left) == kept
            &&& joined(kept, seq!['\n']).len() == 0 ==> left.len() == 0
        }),
{
    reveal_strlit("\n");
    assert("\n"@ == seq!['\n']);
    let keep = |line: Seq<char>| !occurs(line, hostname);
    let kept = list.filter(keep);
    law_lines_read_back(list);
    if joined(kept, seq!['\n']).len() > 0 {
        assert forall|i: int| 0 <= i < kept.len() implies !(#[trigger] kept[i]).contains('\n') by {
            assert(kept.contains(kept[i]));
            list.lemma_filter_contains_rev(keep, kept[i]);
            let j = list.index_of(kept[i]);
            assert(list[j] == kept[i]);
        }
        assert forall|i: int|
            0 <= i < kept.len() && (#[trigger] kept[i]).len() > 0 implies kept[i].last() != '\r' by {
            assert(kept.contains(kept[i]));
            list.lemma_filter_contains_rev(keep, kept[i]);
            let j = list.index_of(kept[i]);
            assert(list[j] == kept[i]);
        }
        law_lines_read_back(kept);
    }
}

} // verus!
