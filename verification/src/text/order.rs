//! The order of names: character by character, by code point.

use crate::text::basic::chars_of;
use vstd::prelude::*;
use vstd::seq_lib::to_multiset_remove;

verus! {

/// `a` stands before `b` or is the same: they are compared character by
/// character, and a prefix stands before what it begins.
pub open spec fn in_order(a: Seq<char>, b: Seq<char>) -> bool
    decreases a.len(),
{
    a.len() == 0 || (b.len() > 0 && (a[0] < b[0] || (a[0] == b[0] && in_order(
        a.drop_first(),
        b.drop_first(),
    ))))
}

/// The texts of `list` stand in order.
pub open spec fn ordered(list: Seq<Seq<char>>) -> bool {
    forall|i: int, j: int|
        0 <= i < j < list.len() ==> in_order(#[trigger] list[i], #[trigger] list[j])
}

/// Of any two texts one stands before the other.
pub proof fn lemma_order_total(a: Seq<char>, b: Seq<char>)
    ensures
        in_order(a, b) || in_order(b, a),
    decreases a.len(),
{
    if a.len() > 0 && b.len() > 0 && a[0] == b[0] {
        lemma_order_total(a.drop_first(), b.drop_first());
    }
}

/// What stands before a second text stands before all that follow it.
pub proof fn lemma_order_transitive(a: Seq<char>, b: Seq<char>, c: Seq<char>)
    requires
        in_order(a, b),
        in_order(b, c),
    ensures
        in_order(a, c),
    decreases a.len(),
{
    if a.len() > 0 && a[0] == b[0] && b[0] == c[0] {
        lemma_order_transitive(a.drop_first(), b.drop_first(), c.drop_first());
    }
}

/// Two texts that each stand before the other are the same.
pub proof fn lemma_order_antisymmetric(a: Seq<char>, b: Seq<char>)
    requires
        in_order(a, b),
        in_order(b, a),
    ensures
        a == b,
    decreases a.len(),
{
    if a.len() > 0 && b.len() > 0 {
        lemma_order_antisymmetric(a.drop_first(), b.drop_first());
        assert(a == seq![a[0]] + a.drop_first());
        assert(b == seq![b[0]] + b.drop_first());
    } else {
        assert(a == b);
    }
}

/// Whether `a` stands before `b` or is the same.
pub fn stands_before(a: &str, b: &str) -> (r: bool)
    ensures
        r == in_order(a@, b@),
{
    let av = chars_of(a);
    let bv = chars_of(b);
    let mut i: usize = 0;
    assert(a@.skip(0) == a@);
    assert(b@.skip(0) == b@);
    while i < av.len() && i < bv.len()
        invariant
            av@ == a@,
            bv@ == b@,
            i <= av.len(),
            i <= bv.len(),
            in_order(a@, b@) == in_order(a@.skip(i as int), b@.skip(i as int)),
        decreases av.len() - i,
    {
        assert(a@.skip(i as int).drop_first() == a@.skip(i + 1));
        assert(b@.skip(i as int).drop_first() == b@.skip(i + 1));
        if av[i] < bv[i] {
            return true;
        }
        if av[i] > bv[i] {
            return false;
        }
        i += 1;
    }
    i == av.len()
}

/// The texts of `list` in order.
pub fn sort(list: Vec<String>) -> (r: Vec<String>)
    ensures
        ordered(r.deep_view()),
        r.deep_view().to_multiset() == list.deep_view().to_multiset(),
{
    let ghost lv = list.deep_view();
    let mut r: Vec<String> = Vec::new();
    let mut i: usize = 0;
    assert(r.deep_view() == lv.take(0));
    while i < list.len()
        invariant
            lv == list.deep_view(),
            i <= list.len(),
            ordered(r.deep_view()),
            r.len() == i,
            r.deep_view().to_multiset() == lv.take(i as int).to_multiset(),
        decreases list.len() - i,
    {
        let x = list[i].clone();
        let ghost rv = r.deep_view();
        let mut k: usize = 0;
        while k < r.len() && stands_before(&r[k], &x)
            invariant
                rv == r.deep_view(),
                k <= r.len(),
                forall|j: int| 0 <= j < k ==> in_order(#[trigger] rv[j], x@),
            decreases r.len() - k,
        {
            k += 1;
        }
        proof {
            if k < r.len() {
                lemma_order_total(x@, rv[k as int]);
                assert forall|j: int| k <= j < rv.len() implies in_order(x@, #[trigger] rv[j]) by {
                    if j > k {
                        lemma_order_transitive(x@, rv[k as int], rv[j]);
                    }
                }
            }
        }
        r.insert(k, x);
        let ghost nv = r.deep_view();
        assert(nv == rv.insert(k as int, x@));
        proof {
            assert(nv.remove(k as int) == rv);
            to_multiset_remove(nv, k as int);
            nv.to_multiset_ensures();
            assert(nv.contains(nv[k as int]));
            assert(nv.to_multiset() == rv.to_multiset().insert(x@));
            assert(lv.take(i + 1) == lv.take(i as int).push(lv[i as int]));
            lv.take(i as int).to_multiset_ensures();
        }
        i += 1;
    }
    assert(lv.take(lv.len() as int) == lv);
    r
}

/// Two sequences with the same elements, as often, have duplicates together
/// and contain the same.
pub proof fn lemma_same_multiset(a: Seq<Seq<char>>, b: Seq<Seq<char>>)
    requires
        a.to_multiset() == b.to_multiset(),
        a.no_duplicates(),
    ensures
        b.no_duplicates(),
        forall|x: Seq<char>| a.contains(x) <==> #[trigger] b.contains(x),
{
    a.lemma_multiset_has_no_duplicates();
    a.to_multiset_ensures();
    b.to_multiset_ensures();
    assert forall|x: Seq<char>| a.contains(x) <==> #[trigger] b.contains(x) by {
        assert(a.contains(x) <==> a.to_multiset().count(x) > 0);
        assert(b.contains(x) <==> b.to_multiset().count(x) > 0);
    }
    b.lemma_multiset_has_no_duplicates_conv();
}

/// Two names are ordered by the first character in which they differ, and a
/// name stands before those that it begins.
pub proof fn law_first_difference_decides(
    same: Seq<char>,
    a: char,
    x: Seq<char>,
    b: char,
    y: Seq<char>,
)
    requires
        a != b,
    ensures
        in_order(same + seq![a] + x, same + seq![b] + y) <==> a < b,
        in_order(same, same + x),
        x.len() > 0 ==> !in_order(same + x, same),
    decreases same.len(),
{
    let p = same + seq![a] + x;
    let q = same + seq![b] + y;
    if same.len() == 0 {
        assert(p[0] == a && q[0] == b);
    } else {
        let rest = same.drop_first();
        law_first_difference_decides(rest, a, x, b, y);
        assert(p.drop_first() == rest + seq![a] + x);
        assert(q.drop_first() == rest + seq![b] + y);
        assert(p[0] == same[0] && q[0] == same[0]);
        assert((same + x).drop_first() == rest + x);
        assert((same + x)[0] == same[0]);
    }
}

/// A list in order stays in order where anything is left out of it, and any
/// two neighbours of it stand in order.
pub proof fn law_ordered_pairs(list: Seq<Seq<char>>, i: int, j: int)
    requires
        ordered(list),
        0 <= i < j < list.len(),
    ensures
        in_order(list[i], list[j]),
        ordered(list.remove(i)),
        in_order(list[j], list[i]) ==> list[i] == list[j],
{
    let less = list.remove(i);
    assert forall|a: int, b: int| 0 <= a < b < less.len() implies in_order(
        #[trigger] less[a],
        #[trigger] less[b],
    ) by {
        let p = if a < i {
            a
        } else {
            a + 1
        };
        let q = if b < i {
            b
        } else {
            b + 1
        };
        assert(less[a] == list[p] && less[b] == list[q]);
    }
    if in_order(list[j], list[i]) {
        lemma_order_antisymmetric(list[i], list[j]);
    }
}

} // verus!
