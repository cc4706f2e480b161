//! The file with the addresses of the cells.

use crate::json::{
    all_texts, increasing, json_pretty, json_read, json_texts, json_tree, named_trees,
    object_value, pairs_map, pretty_value, read_texts, texts_in, texts_map, to_value, Json, Tree,
};
use crate::names::NameMap;
use crate::text::order::{in_order, lemma_same_multiset, sort};
use vstd::prelude::*;

verus! {

/// The address of each cell.
pub type Pool = Map<Seq<char>, Seq<char>>;

/// The addresses that the content of the file gives: none where it is not
/// there or gives no addresses.
pub open spec fn loaded(content: Option<Seq<char>>) -> Pool {
    match content {
        Some(text) => match json_texts(text) {
            Some(pool) => pool,
            None => Map::empty(),
        },
        None => Map::empty(),
    }
}

/// `members` give the addresses of the pool, in the order of the names.
pub open spec fn gives(members: Seq<(Seq<char>, Tree)>, pool: Pool) -> bool {
    &&& increasing(members)
    &&& forall|i: int|
        0 <= i < members.len() ==> pool.dom().contains((#[trigger] members[i]).0) && members[i].1
            == Tree::Text(pool[members[i].0])
    &&& forall|n: Seq<char>| #[trigger]
        pool.dom().contains(n) ==> exists|i: int|
            0 <= i < members.len() && (#[trigger] members[i]).0 == n
}

proof fn lemma_texts_map(members: Seq<(Seq<char>, Tree)>)
    requires
        increasing(members),
        all_texts(members),
    ensures
        forall|n: Seq<char>| #[trigger]
            texts_map(members).dom().contains(n) <==> exists|i: int|
                0 <= i < members.len() && (#[trigger] members[i]).0 == n,
        forall|i: int|
            0 <= i < members.len() ==> Tree::Text(texts_map(members)[(#[trigger] members[i]).0])
                == members[i].1,
    decreases members.len(),
{
    if members.len() > 0 {
        let front = members.drop_last();
        let last = members.len() - 1;
        assert(forall|i: int| 0 <= i < front.len() ==> #[trigger] front[i] == members[i]);
        lemma_texts_map(front);
        assert forall|n: Seq<char>| #[trigger]
            texts_map(members).dom().contains(n) <==> exists|i: int|
                0 <= i < members.len() && (#[trigger] members[i]).0 == n by {
            if texts_map(members).dom().contains(n) {
                if n != members[last].0 {
                    assert(texts_map(front).dom().contains(n));
                    let i = choose|i: int| 0 <= i < front.len() && (#[trigger] front[i]).0 == n;
                    assert(members[i].0 == n);
                }
            }
            if exists|i: int| 0 <= i < members.len() && (#[trigger] members[i]).0 == n {
                let i = choose|i: int| 0 <= i < members.len() && (#[trigger] members[i]).0 == n;
                if i < last {
                    assert(front[i].0 == n);
                    assert(texts_map(front).dom().contains(n));
                }
            }
        }
        assert forall|i: int| 0 <= i < members.len() implies Tree::Text(
            texts_map(members)[(#[trigger] members[i]).0],
        ) == members[i].1 by {
            if i < last {
                assert(front[i] == members[i]);
                assert(members[i].0 != members[last].0);
            }
        }
    }
}

/// The value that gives addresses gives those and no others.
pub proof fn law_pool_reads_back(members: Seq<(Seq<char>, Tree)>, pool: Pool)
    requires
        gives(members, pool),
    ensures
        texts_in(Tree::Object(members)) == Some(pool),
{
    assert(all_texts(members));
    lemma_texts_map(members);
    assert forall|n: Seq<char>| texts_map(members).dom().contains(n) implies texts_map(members)[n]
        == pool[n] by {
        let i = choose|i: int| 0 <= i < members.len() && (#[trigger] members[i]).0 == n;
        assert(Tree::Text(texts_map(members)[members[i].0]) == members[i].1);
    }
    assert(texts_map(members) =~= pool);
}

/// The addresses of the cells, from the content of the file with them: those
/// of an object of texts, and none where it holds anything else.
pub fn load_ip_pool(content: Option<&str>) -> (r: NameMap<String>)
    ensures
        r.deep_view() == loaded(content.deep_view()),
        content matches Some(text) ==> match json_read(text@) {
            Ok(t) => texts_in(t) == Some(r.deep_view()) || r.deep_view() == Pool::empty(),
            Err(_) => r.deep_view() == Pool::empty(),
        },
{
    let mut pool: NameMap<String> = NameMap::new();
    assert(pool.deep_view() =~= Pool::empty());
    let text = match content {
        Some(t) => t,
        None => return pool,
    };
    let pairs = match read_texts(text) {
        Some(p) => p,
        None => return pool,
    };
    let ghost all = pairs.deep_view();
    let mut i: usize = 0;
    assert(pairs_map(all.take(0)) =~= Pool::empty());
    while i < pairs.len()
        invariant
            i <= pairs.len(),
            all == pairs.deep_view(),
            pool.deep_view() == pairs_map(all.take(i as int)),
        decreases pairs.len() - i,
    {
        let ghost before = pool.deep_view();
        assert(all[i as int] == (pairs[i as int].0@, pairs[i as int].1@));
        assert(all.take(i + 1).drop_last() =~= all.take(i as int));
        pool.insert(pairs[i].0.clone(), pairs[i].1.clone());
        assert(pool.deep_view() =~= before.insert(pairs[i as int].0@, pairs[i as int].1@));
        i += 1;
    }
    assert(all.take(all.len() as int) =~= all);
    pool
}

/// What the file is to hold. What is then read from it are those addresses.
pub fn save_ip_pool(pool: &NameMap<String>) -> (r: String)
    ensures
        exists|members: Seq<(Seq<char>, Tree)>| #[trigger]
            gives(members, pool.deep_view()) && r@ == json_pretty(Tree::Object(members)),
        loaded(Some(r@)) == pool.deep_view(),
{
    let unsorted = pool.names();
    let ghost found = unsorted.deep_view();
    let names = sort(unsorted);
    let ghost all = names.deep_view();
    proof {
        lemma_same_multiset(found, all);
    }
    let mut values: Vec<serde_json::Value> = Vec::new();
    let mut i: usize = 0;
    while i < names.len()
        invariant
            i <= names.len(),
            all == names.deep_view(),
            forall|n: Seq<char>| #[trigger] all.contains(n) <==> pool@.dom().contains(n),
            values.len() == i,
            forall|k: int|
                0 <= k < i ==> json_tree(#[trigger] values[k]) == Tree::Text(
                    pool.deep_view()[all[k]],
                ),
        decreases names.len() - i,
    {
        assert(all.contains(all[i as int]));
        if let Some(ip) = pool.get(&names[i]) {
            values.push(to_value(&Json::Text(ip.clone())));
        }
        i += 1;
    }
    let mut members: Vec<(&str, &serde_json::Value)> = Vec::new();
    let mut k: usize = 0;
    while k < names.len()
        invariant
            k <= names.len(),
            values.len() == names.len(),
            members.len() == k,
            forall|m: int|
                0 <= m < k ==> (#[trigger] members[m]).0@ == names[m]@ && *members[m].1 == values[m],
        decreases names.len() - k,
    {
        members.push((names[k].as_str(), &values[k]));
        k += 1;
    }
    let ghost trees = named_trees(members@);
    proof {
        assert forall|a: int, b: int| 0 <= a < b < trees.len() implies in_order(
            (#[trigger] trees[a]).0,
            (#[trigger] trees[b]).0,
        ) && trees[a].0 != trees[b].0 by {
            assert(trees[a].0 == all[a] && trees[b].0 == all[b]);
        }
        assert(gives(trees, pool.deep_view())) by {
            assert forall|m: int| 0 <= m < trees.len() implies pool.deep_view().dom().contains(
                (#[trigger] trees[m]).0,
            ) && trees[m].1 == Tree::Text(pool.deep_view()[trees[m].0]) by {
                assert(trees[m].0 == all[m]);
                assert(all.contains(all[m]));
                assert(json_tree(values[m]) == Tree::Text(pool.deep_view()[all[m]]));
            }
            assert forall|n: Seq<char>| #[trigger] pool.deep_view().dom().contains(n) implies exists|
                m: int,
            | 0 <= m < trees.len() && (#[trigger] trees[m]).0 == n by {
                assert(all.contains(n));
                let m = choose|m: int| 0 <= m < all.len() && all[m] == n;
                assert(trees[m].0 == n);
            }
        }
        law_pool_reads_back(trees, pool.deep_view());
    }
    pretty_value(&object_value(&members))
}

/// The addresses are those that the file gives as texts; a file that is
/// missing or gives anything else gives none.
pub proof fn law_addresses_loaded(text: Seq<char>, pool: Pool)
    ensures
        json_texts(text) == Some(pool) ==> loaded(Some(text)) == pool,
        json_texts(text) is None ==> loaded(Some(text)) == Pool::empty(),
        loaded(None) == Pool::empty(),
{
}

} // verus!
