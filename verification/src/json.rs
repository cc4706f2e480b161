//! JSON values.

use crate::text::basic::same;
use crate::text::number::{decimal, is_digit};
use crate::text::order::in_order;
use vstd::prelude::*;

verus! {

/// A number: its text, and its value where it is a whole number of 64 bits
/// without sign.
pub struct Number {
    pub whole: Option<u64>,
    pub text: String,
}

/// A JSON value.
pub enum Json {
    Null,
    Bool(bool),
    Number(Number),
    Text(String),
    List(Vec<Json>),
    /// The members in their order.
    Object(Vec<(String, Json)>),
}

/// What a JSON value is.
pub enum Tree {
    Null,
    Bool(bool),
    Number { whole: Option<u64>, text: Seq<char> },
    Text(Seq<char>),
    List(Seq<Tree>),
    Object(Seq<(Seq<char>, Tree)>),
}

impl DeepView for Json {
    type V = Tree;

    open spec fn deep_view(&self) -> Tree {
        tree_of(*self)
    }
}

/// What `j` is.
pub open spec fn tree_of(j: Json) -> Tree
    decreases j,
{
    match j {
        Json::Null => Tree::Null,
        Json::Bool(b) => Tree::Bool(b),
        Json::Number(n) => Tree::Number { whole: n.whole, text: n.text@ },
        Json::Text(s) => Tree::Text(s@),
        Json::List(v) => Tree::List(
            Seq::new(
                v@.len(),
                |i: int|
                    if 0 <= i < v@.len() {
                        tree_of(v@[i])
                    } else {
                        Tree::Null
                    },
            ),
        ),
        Json::Object(v) => Tree::Object(
            Seq::new(
                v@.len(),
                |i: int|
                    if 0 <= i < v@.len() {
                        (v@[i].0@, tree_of(v@[i].1))
                    } else {
                        (Seq::<char>::empty(), Tree::Null)
                    },
            ),
        ),
    }
}

// Building

/// What the items of a list are.
pub open spec fn items_of(list: Seq<Json>) -> Seq<Tree> {
    Seq::new(list.len(), |i: int| tree_of(list[i]))
}

/// What the members of an object are.
pub open spec fn members_of(members: Seq<(String, Json)>) -> Seq<(Seq<char>, Tree)> {
    Seq::new(members.len(), |i: int| (members[i].0@, tree_of(members[i].1)))
}

/// The list of the values `items`.
pub fn list(items: Vec<Json>) -> (r: Json)
    ensures
        r.deep_view() == Tree::List(items_of(items@)),
{
    let r = Json::List(items);
    assert(r.deep_view()->List_0 =~= items_of(items@));
    r
}

/// The object of the members `members`.
pub fn object(members: Vec<(String, Json)>) -> (r: Json)
    ensures
        r.deep_view() == Tree::Object(members_of(members@)),
{
    let r = Json::Object(members);
    assert(r.deep_view()->Object_0 =~= members_of(members@));
    r
}

/// Adds a member to those of an object.
pub fn add_member(members: &mut Vec<(String, Json)>, name: &str, value: Json)
    ensures
        members_of(final(members)@) == members_of(old(members)@).push((name@, value.deep_view())),
{
    members.push((name.to_string(), value));
    assert(members_of(members@) =~= members_of(old(members)@).push((name@, value.deep_view())));
}

/// What the text `s` is.
pub fn text(s: &str) -> (r: Json)
    ensures
        r.deep_view() == Tree::Text(s@),
{
    Json::Text(s.to_string())
}

/// The list of the texts `list`.
pub open spec fn texts_tree(list: Seq<Seq<char>>) -> Tree {
    Tree::List(list.map_values(|s: Seq<char>| Tree::Text(s)))
}

/// The list of the texts `list`.
pub fn texts(list: &Vec<String>) -> (r: Json)
    ensures
        r.deep_view() == texts_tree(list.deep_view()),
{
    let mut items: Vec<Json> = Vec::new();
    let mut i: usize = 0;
    while i < list.len()
        invariant
            i <= list.len(),
            items.len() == i,
            forall|j: int| 0 <= j < i ==> #[trigger] tree_of(items[j]) == Tree::Text(list[j]@),
        decreases list.len() - i,
    {
        items.push(Json::Text(list[i].clone()));
        i += 1;
    }
    assert(items_of(items@) =~= texts_tree(list.deep_view())->List_0);
    self::list(items)
}

/// The list of the texts `list`, or null where there is none.
pub open spec fn optional_texts_tree(list: Option<Seq<Seq<char>>>) -> Tree {
    match list {
        Some(l) => texts_tree(l),
        None => Tree::Null,
    }
}

/// The list of the texts `list`, or null where there is none.
pub fn optional_texts(list: &Option<Vec<String>>) -> (r: Json)
    ensures
        r.deep_view() == optional_texts_tree(list.deep_view()),
{
    match list {
        Some(l) => texts(l),
        None => Json::Null,
    }
}

/// The same value once more.
pub fn copy(j: &Json) -> (r: Json)
    ensures
        r.deep_view() == j.deep_view(),
    decreases j,
{
    match j {
        Json::Null => Json::Null,
        Json::Bool(b) => Json::Bool(*b),
        Json::Number(n) => Json::Number(Number { whole: n.whole, text: n.text.clone() }),
        Json::Text(s) => Json::Text(s.clone()),
        Json::List(items) => {
            let mut more: Vec<Json> = Vec::new();
            let mut i: usize = 0;
            while i < items.len()
                invariant
                    *j == Json::List(*items),
                    i <= items.len(),
                    more.len() == i,
                    forall|k: int| 0 <= k < i ==> #[trigger] tree_of(more[k]) == tree_of(items[k]),
                decreases items.len() - i,
            {
                assert(decreases_to!(*j => j->List_0));
                assert(decreases_to!(*items => items@));
                assert(decreases_to!(items@ => items@[i as int]));
                more.push(copy(&items[i]));
                i += 1;
            }
            assert(items_of(more@) =~= j.deep_view()->List_0);
            list(more)
        },
        Json::Object(members) => {
            let mut more: Vec<(String, Json)> = Vec::new();
            let mut i: usize = 0;
            while i < members.len()
                invariant
                    *j == Json::Object(*members),
                    i <= members.len(),
                    more.len() == i,
                    forall|k: int|
                        0 <= k < i ==> (#[trigger] more[k]).0@ == members[k].0@ && tree_of(more[k].1)
                            == tree_of(members[k].1),
                decreases members.len() - i,
            {
                assert(decreases_to!(*j => j->Object_0));
                assert(decreases_to!(*members => members@));
                assert(decreases_to!(members@ => members@[i as int]));
                assert(decreases_to!(members@[i as int] => members@[i as int].1));
                more.push((members[i].0.clone(), copy(&members[i].1)));
                i += 1;
            }
            assert(members_of(more@) =~= j.deep_view()->Object_0);
            object(more)
        },
    }
}

// Reading

/// The value of the first member called `name`.
pub open spec fn member_of(members: Seq<(Seq<char>, Tree)>, name: Seq<char>) -> Option<Tree>
    decreases members.len(),
{
    if members.len() == 0 {
        None
    } else if members[0].0 == name {
        Some(members[0].1)
    } else {
        member_of(members.drop_first(), name)
    }
}

/// What the value has under `name`: null where it is no object or has no such
/// member.
pub open spec fn under(t: Tree, name: Seq<char>) -> Tree {
    match t {
        Tree::Object(members) => match member_of(members, name) {
            Some(v) => v,
            None => Tree::Null,
        },
        _ => Tree::Null,
    }
}

/// A member is found by its name where none before it has that name.
pub proof fn lemma_member_found(members: Seq<(Seq<char>, Tree)>, i: int)
    requires
        0 <= i < members.len(),
        forall|k: int| 0 <= k < i ==> (#[trigger] members[k]).0 != members[i].0,
    ensures
        member_of(members, members[i].0) == Some(members[i].1),
        under(Tree::Object(members), members[i].0) == members[i].1,
    decreases i,
{
    if i > 0 {
        let rest = members.drop_first();
        assert(rest[i - 1] == members[i]);
        assert forall|k: int| 0 <= k < i - 1 implies (#[trigger] rest[k]).0 != rest[i - 1].0 by {
            assert(rest[k] == members[k + 1]);
        }
        lemma_member_found(rest, i - 1);
        assert(members[0].0 != members[i].0);
    }
}

/// Nothing is found by a name that no member has.
pub proof fn lemma_member_missing(members: Seq<(Seq<char>, Tree)>, name: Seq<char>)
    requires
        forall|k: int| 0 <= k < members.len() ==> (#[trigger] members[k]).0 != name,
    ensures
        member_of(members, name) is None,
        under(Tree::Object(members), name) == Tree::Null,
    decreases members.len(),
{
    if members.len() > 0 {
        let rest = members.drop_first();
        assert forall|k: int| 0 <= k < rest.len() implies (#[trigger] rest[k]).0 != name by {
            assert(rest[k] == members[k + 1]);
        }
        lemma_member_missing(rest, name);
        assert(members[0].0 != name);
    }
}

/// The text that a value is.
pub open spec fn as_text(t: Tree) -> Option<Seq<char>> {
    match t {
        Tree::Text(s) => Some(s),
        _ => None,
    }
}

/// The whole number without sign that a value is.
pub open spec fn as_whole(t: Tree) -> Option<u64> {
    match t {
        Tree::Number { whole, .. } => whole,
        _ => None,
    }
}

/// What `j` has under `name`.
pub fn get<'a>(j: &'a Json, name: &str) -> (r: Option<&'a Json>)
    ensures
        match r {
            Some(v) => j.deep_view() is Object && member_of(j.deep_view()->Object_0, name@)
                == Some(v.deep_view()) && under(j.deep_view(), name@) == v.deep_view(),
            None => (j.deep_view() is Object ==> member_of(j.deep_view()->Object_0, name@) is None)
                && under(j.deep_view(), name@) == Tree::Null,
        },
{
    match j {
        Json::Object(members) => {
            let ghost all = members_of(members@);
            assert(j.deep_view()->Object_0 =~= all);
            let mut i: usize = 0;
            assert(all.skip(0) =~= all);
            while i < members.len()
                invariant
                    i <= members.len(),
                    all == members_of(members@),
                    j.deep_view() == Tree::Object(all),
                    member_of(all, name@) == member_of(all.skip(i as int), name@),
                decreases members.len() - i,
            {
                assert(all.skip(i as int)[0] == all[i as int]);
                if same(&members[i].0, name) {
                    return Some(&members[i].1);
                }
                assert(all.skip(i as int).drop_first() =~= all.skip(i + 1));
                i += 1;
            }
            None
        },
        _ => None,
    }
}

/// The text that `j` has under `name`.
pub fn text_under(j: &Json, name: &str) -> (r: Option<String>)
    ensures
        r.deep_view() == as_text(under(j.deep_view(), name@)),
{
    match get(j, name) {
        Some(Json::Text(s)) => Some(s.clone()),
        _ => None,
    }
}

/// The whole number that `j` has under `name`.
pub fn whole_under(j: &Json, name: &str) -> (r: Option<u64>)
    ensures
        r == as_whole(under(j.deep_view(), name@)),
{
    match get(j, name) {
        Some(Json::Number(n)) => n.whole,
        _ => None,
    }
}

// The parser

/// `serde_json::Value`, a JSON value of the parser.
#[verifier::external_type_specification]
#[verifier::external_body]
pub struct ExValue(serde_json::Value);

/// What a `serde_json::Value` is.
pub uninterp spec fn json_tree(v: serde_json::Value) -> Tree;

/// What `serde_json::from_str` reads from a text: a value, or a message.
pub uninterp spec fn json_read(text: Seq<char>) -> Result<Tree, Seq<char>>;

/// What `serde_json::from_str` reads from a text as a map from names to texts;
/// none where it refuses the text.
pub uninterp spec fn json_texts(text: Seq<char>) -> Option<Map<Seq<char>, Seq<char>>>;

/// What becomes of a value when it is handed to `serde_json`, whose objects
/// hold their members by name.
pub uninterp spec fn json_held(t: Tree) -> Tree;

/// How `serde_json` prints a value.
pub uninterp spec fn json_print(t: Tree) -> Seq<char>;

/// How `serde_json` prints a value on several lines.
pub uninterp spec fn json_pretty(t: Tree) -> Seq<char>;

/// The text of a number writes a whole number, with or without sign.
pub open spec fn whole_text(text: Seq<char>) -> bool {
    forall|i: int| 0 <= i < text.len() ==> is_digit(#[trigger] text[i]) || text[i] == '-'
}

/// A value is nested at most `depth` deep, and each number in it is whole or is
/// read from its text as it is.
pub open spec fn reads_back(t: Tree, depth: int) -> bool
    decreases t,
{
    match t {
        Tree::Number { text, .. } => whole_text(text) || json_read(text) == Ok::<Tree, Seq<char>>(
            t,
        ),
        Tree::List(items) => depth > 0 && forall|i: int|
            0 <= i < items.len() ==> reads_back(#[trigger] items[i], depth - 1),
        Tree::Object(members) => depth > 0 && forall|i: int|
            0 <= i < members.len() ==> reads_back((#[trigger] members[i]).1, depth - 1),
        _ => true,
    }
}

/// `serde_json::from_str` reads the value `t` from the text.
pub open spec fn reads_as(text: Seq<char>, t: Tree) -> bool {
    json_read(text) == Ok::<Tree, Seq<char>>(t)
}

/// Every member is a text.
pub open spec fn all_texts(members: Seq<(Seq<char>, Tree)>) -> bool {
    forall|i: int| 0 <= i < members.len() ==> (#[trigger] members[i]).1 is Text
}

/// The texts of `members` by their names.
pub open spec fn texts_map(members: Seq<(Seq<char>, Tree)>) -> Map<Seq<char>, Seq<char>>
    decreases members.len(),
{
    if members.len() == 0 {
        Map::empty()
    } else {
        texts_map(members.drop_last()).insert(members.last().0, members.last().1->Text_0)
    }
}

/// The texts that a value gives by names: an object of texts does.
pub open spec fn texts_in(t: Tree) -> Option<Map<Seq<char>, Seq<char>>> {
    match t {
        Tree::Object(members) => if all_texts(members) {
            Some(texts_map(members))
        } else {
            None
        },
        _ => None,
    }
}

/// The second of each pair by the first.
pub open spec fn pairs_map(pairs: Seq<(Seq<char>, Seq<char>)>) -> Map<Seq<char>, Seq<char>>
    decreases pairs.len(),
{
    if pairs.len() == 0 {
        Map::empty()
    } else {
        pairs_map(pairs.drop_last()).insert(pairs.last().0, pairs.last().1)
    }
}

/// `serde_json::from_str` reads the texts of the value `t` from the text,
/// where it gives texts by names.
pub open spec fn reads_as_texts(text: Seq<char>, t: Tree) -> bool {
    texts_in(t) is Some ==> json_texts(text) == texts_in(t)
}

/// How deep a text that `serde_json` reads may be nested.
pub const NESTING: u8 = 127;

/// The names of `members` increase.
pub open spec fn increasing(members: Seq<(Seq<char>, Tree)>) -> bool {
    forall|i: int, j: int|
        0 <= i < j < members.len() ==> in_order((#[trigger] members[i]).0, (
        #[trigger] members[j]).0) && members[i].0 != members[j].0
}

/// What named values are.
pub open spec fn named_trees(members: Seq<(&str, &serde_json::Value)>) -> Seq<(Seq<char>, Tree)> {
    Seq::new(members.len(), |i: int| (members[i].0@, json_tree(*members[i].1)))
}

/// `serde_json::from_str` reads a value from a text, or says what is wrong
/// with it.
#[verifier::external_body]
pub(crate) fn read_value(text: &str) -> (r: Result<serde_json::Value, String>)
    ensures
        match r {
            Ok(v) => json_read(text@) == Ok::<Tree, Seq<char>>(json_tree(v)),
            Err(e) => json_read(text@) == Err::<Tree, Seq<char>>(e@),
        },
{
    serde_json::from_str::<serde_json::Value>(text).map_err(|e| e.to_string())
}

/// `serde_json::from_str` reads a `HashMap` from names to texts, or refuses the
/// text. What it reads are the texts of the value that the text writes. In
/// which order a `HashMap` hands them out is not claimed.
#[verifier::external_body]
pub(crate) fn read_texts(text: &str) -> (r: Option<Vec<(String, String)>>)
    ensures
        match r {
            Some(v) => json_texts(text@) == Some(pairs_map(v.deep_view())) && (json_read(
                text@,
            ) matches Ok(t) && texts_in(t) == Some(pairs_map(v.deep_view()))),
            None => json_texts(text@) is None,
        },
{
    let map = serde_json::from_str::<std::collections::HashMap<String, String>>(text).ok()?;
    Some(map.into_iter().collect())
}

/// Takes a `serde_json::Value` apart: `serde_json::Number::as_u64` gives the
/// value of a whole number without sign, and the members of an object come as
/// `serde_json::Map::iter` hands them out.
#[verifier::external_body]
pub(crate) fn from_value(v: &serde_json::Value) -> (r: Json)
    ensures
        r.deep_view() == json_tree(*v),
{
    match v {
        serde_json::Value::Null => Json::Null,
        serde_json::Value::Bool(b) => Json::Bool(*b),
        serde_json::Value::Number(n) => Json::Number(Number { whole: n.as_u64(), text: n.to_string() }),
        serde_json::Value::String(s) => Json::Text(s.clone()),
        serde_json::Value::Array(a) => Json::List(a.iter().map(from_value).collect()),
        serde_json::Value::Object(o) => Json::Object(
            o.iter().map(|(k, x)| (k.clone(), from_value(x))).collect(),
        ),
    }
}

/// Puts a `serde_json::Value` together. The members of an object go into a
/// `serde_json::Map` one after the other. A number is read from its text by
/// `serde_json::Number::from_str`; a text that it refuses becomes null. Claimed
/// besides that the result depends on the value alone: null, a truth value, a
/// text and the numeral of a whole number of 64 bits without sign stay what
/// they are.
#[verifier::external_body]
pub(crate) fn to_value(j: &Json) -> (r: serde_json::Value)
    ensures
        json_tree(r) == json_held(j.deep_view()),
        j.deep_view() is Null || j.deep_view() is Bool || j.deep_view() is Text ==> json_tree(r)
            == j.deep_view(),
        j.deep_view() matches Tree::Number { whole: Some(n), text } && text == decimal(n as nat)
            ==> json_tree(r) == j.deep_view(),
{
    match j {
        Json::Null => serde_json::Value::Null,
        Json::Bool(b) => serde_json::Value::Bool(*b),
        Json::Number(n) => n.text.parse::<serde_json::Number>().map_or(
            serde_json::Value::Null,
            serde_json::Value::Number,
        ),
        Json::Text(s) => serde_json::Value::String(s.clone()),
        Json::List(v) => serde_json::Value::Array(v.iter().map(to_value).collect()),
        Json::Object(m) => serde_json::Value::Object(
            m.iter().map(|(k, x)| (k.clone(), to_value(x))).collect(),
        ),
    }
}

/// `serde_json::Value::to_string` prints a value. `serde_json::from_str` reads
/// from that text the same value again, where it is not nested too deep and
/// holds no number with a fraction that is read from its text as another one.
#[verifier::external_body]
pub(crate) fn print_value(v: &serde_json::Value) -> (r: String)
    ensures
        r@ == json_print(json_tree(*v)),
        reads_back(json_tree(*v), NESTING as int) ==> reads_as(r@, json_tree(*v)),
{
    v.to_string()
}

/// `serde_json::to_string_pretty` prints a value on several lines, which does
/// not fail for a `serde_json::Value`. From the text of an object of texts
/// `serde_json::from_str` reads those texts again.
#[verifier::external_body]
pub(crate) fn pretty_value(v: &serde_json::Value) -> (r: String)
    ensures
        r@ == json_pretty(json_tree(*v)),
        reads_as_texts(r@, json_tree(*v)),
{
    serde_json::to_string_pretty(v).unwrap_or_default()
}

/// `serde_json::Map::from_iter` makes an object of named values. Where the
/// names increase it holds them in that order.
#[verifier::external_body]
pub(crate) fn object_value(members: &Vec<(&str, &serde_json::Value)>) -> (r: serde_json::Value)
    requires
        increasing(named_trees(members@)),
    ensures
        json_tree(r) == Tree::Object(named_trees(members@)),
{
    let owned = members.iter().map(|(k, v)| (k.to_string(), (*v).clone()));
    serde_json::Value::Object(serde_json::Map::from_iter(owned))
}

/// `serde_json::Value::get` with a name: the member of that name of an object.
#[verifier::external_body]
pub(crate) fn member_value(v: &serde_json::Value, name: &str) -> (r: Option<serde_json::Value>)
    ensures
        match r {
            Some(x) => json_tree(*v) is Object && member_of(json_tree(*v)->Object_0, name@) == Some(
                json_tree(x),
            ),
            None => json_tree(*v) is Object ==> member_of(json_tree(*v)->Object_0, name@) is None,
        },
{
    v.get(name).cloned()
}

/// `serde_json::Value::get` with a position: the item of a list that stands
/// there, counted from zero.
#[verifier::external_body]
pub(crate) fn item_value(v: &serde_json::Value, at: usize) -> (r: Option<serde_json::Value>)
    ensures
        match r {
            Some(x) => json_tree(*v) is List && at < json_tree(*v)->List_0.len() && json_tree(x)
                == json_tree(*v)->List_0[at as int],
            None => json_tree(*v) is List ==> at >= json_tree(*v)->List_0.len(),
        },
{
    v.get(at).cloned()
}

/// The value that `text` writes, or what is wrong with it.
pub fn parse(text: &str) -> (r: Result<Json, String>)
    ensures
        match r {
            Ok(v) => json_read(text@) == Ok::<Tree, Seq<char>>(v.deep_view()),
            Err(e) => json_read(text@) == Err::<Tree, Seq<char>>(e@),
        },
{
    match read_value(text) {
        Ok(v) => Ok(from_value(&v)),
        Err(e) => Err(e),
    }
}

/// The text of a value.
pub open spec fn printed(t: Tree) -> Seq<char> {
    json_print(json_held(t))
}

/// The text of a value.
pub fn render(j: &Json) -> (r: String)
    ensures
        r@ == printed(j.deep_view()),
{
    print_value(&to_value(j))
}

/// A text is read from a text and a whole number from a number that is one,
/// and neither from anything else.
pub proof fn law_plain_values_read(t: Tree)
    ensures
        as_text(t) == (match t {
            Tree::Text(s) => Some(s),
            _ => None,
        }),
        as_whole(t) == (match t {
            Tree::Number { whole, .. } => whole,
            _ => None,
        }),
{
}

/// A list of texts keeps each text at its place, and no list is null.
pub proof fn law_texts_in_place(list: Seq<Seq<char>>, i: int)
    requires
        0 <= i < list.len(),
    ensures
        texts_tree(list) matches Tree::List(items) && items.len() == list.len() && items[i]
            == Tree::Text(list[i]),
        optional_texts_tree(Some(list)) == texts_tree(list),
        optional_texts_tree(None) == Tree::Null,
{
}

/// A value is read under the first member of a name, whatever comes behind it;
/// a value that is no object has nothing under any name.
pub proof fn law_first_member_counts(
    before: Seq<(Seq<char>, Tree)>,
    name: Seq<char>,
    value: Tree,
    after: Seq<(Seq<char>, Tree)>,
    t: Tree,
)
    requires
        forall|k: int| 0 <= k < before.len() ==> (#[trigger] before[k]).0 != name,
    ensures
        under(Tree::Object(before + seq![(name, value)] + after), name) == value,
        under(Tree::Object(before), name) == Tree::Null,
        !(t is Object) ==> under(t, name) == Tree::Null,
{
    let m = before + seq![(name, value)] + after;
    let n = before.len() as int;
    assert(m[n] == (name, value));
    assert forall|k: int| 0 <= k < n implies (#[trigger] m[k]).0 != m[n].0 by {
        assert(m[k] == before[k]);
    }
    lemma_member_found(m, n);
    lemma_member_missing(before, name);
}

} // verus!
