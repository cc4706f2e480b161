//! The rules that hold while an op runs.

use crate::command::{arg, command, post, post_line};
use crate::flow::config::{NetRule, NetView, Rule, RuleView};
use crate::flow::op::Op;
use crate::json::{
    add_member, lemma_member_found, lemma_member_missing, members_of, object, optional_texts, optional_texts_tree, printed, render, text, under,
    Json, Tree,
};
use crate::names::NameMap;
use crate::path::{join, joined_path};
use crate::text::basic::{
    after_prefix, contains, occurs, occurs_at, one_of, same, strip_prefix, trim_end_of, trimmed_end_of,
};
use crate::text::split::{joined, parts_of, split, words, words_of, Sep};
use vstd::prelude::*;

verus! {

/// A rule book: rules by name.
pub type Book = Map<Seq<char>, RuleView>;

/// The rule of the book called `name`.
pub open spec fn in_book(book: Book, name: Seq<char>) -> Option<RuleView> {
    if book.dom().contains(name) {
        Some(book[name])
    } else {
        None
    }
}

/// The rule that a reference names: `cell:` and `flow:` say which book it
/// stands in; without either the book of the flow goes first.
pub open spec fn rule_named(reference: Seq<char>, cell: Book, flow: Book) -> Option<RuleView> {
    if let Some(name) = after_prefix(reference, "cell:"@) {
        in_book(cell, name)
    } else if let Some(name) = after_prefix(reference, "flow:"@) {
        in_book(flow, name)
    } else if flow.dom().contains(reference) {
        Some(flow[reference])
    } else {
        in_book(cell, reference)
    }
}

/// The rule that `reference` names.
pub fn lookup_rule<'a>(
    reference: &str,
    cell_rules: &'a NameMap<Rule>,
    flow_rules: &'a NameMap<Rule>,
) -> (r: Option<&'a Rule>)
    ensures
        match r {
            Some(rule) => rule_named(reference@, cell_rules.deep_view(), flow_rules.deep_view())
                == Some(rule.deep_view()),
            None => rule_named(reference@, cell_rules.deep_view(), flow_rules.deep_view()) is None,
        },
{
    if let Some(name) = strip_prefix(reference, "cell:") {
        cell_rules.get(&name)
    } else if let Some(name) = strip_prefix(reference, "flow:") {
        flow_rules.get(&name)
    } else {
        match flow_rules.get(reference) {
            Some(rule) => Some(rule),
            None => cell_rules.get(reference),
        }
    }
}

/// What a list of a rule is about.
#[derive(Clone, Copy, Debug, PartialEq, Eq, Structural)]
pub enum Direction {
    Reads,
    Writes,
    Files,
}

/// Which list of a net rule.
#[derive(Clone, Copy, Debug, PartialEq, Eq, Structural)]
pub enum Field {
    Allowed,
    Denied,
}

/// A list of a net rule.
pub open spec fn net_entries(net: Option<NetView>, field: Field) -> Option<Seq<Seq<char>>> {
    match net {
        Some(n) => match field {
            Field::Allowed => n.allowed,
            Field::Denied => n.denied,
        },
        None => None,
    }
}

/// A list of a rule. Files have one list only.
pub open spec fn entries(rule: RuleView, direction: Direction, field: Field) -> Option<
    Seq<Seq<char>>,
> {
    match direction {
        Direction::Reads => net_entries(rule.reads, field),
        Direction::Writes => net_entries(rule.writes, field),
        Direction::Files => rule.files,
    }
}

fn net_list(net: &Option<NetRule>, field: Field) -> (r: Option<&Vec<String>>)
    ensures
        r.deep_view() == net_entries(net.deep_view(), field),
{
    match net {
        Some(n) => match field {
            Field::Allowed => n.allowed.as_ref(),
            Field::Denied => n.denied.as_ref(),
        },
        None => None,
    }
}

fn list_of(rule: &Rule, direction: Direction, field: Field) -> (r: Option<&Vec<String>>)
    ensures
        r.deep_view() == entries(rule.deep_view(), direction, field),
{
    match direction {
        Direction::Reads => net_list(&rule.reads, field),
        Direction::Writes => net_list(&rule.writes, field),
        Direction::Files => match &rule.files {
            Some(f) => Some(&f.denied),
            None => None,
        },
    }
}

/// A value of a list that stands for the list of another rule.
pub open spec fn is_reference(value: Seq<char>) -> bool {
    occurs(value, ":"@) && !occurs(value, "*."@) && !occurs(value, "://"@)
}

/// What one value stands for: itself, or the list of the rule it refers to,
/// which is nothing where there is no such list.
pub open spec fn value_meaning(
    value: Seq<char>,
    field: Field,
    direction: Direction,
    cell: Book,
    flow: Book,
) -> Seq<Seq<char>> {
    if !is_reference(value) {
        seq![value]
    } else {
        match rule_named(value, cell, flow) {
            Some(rule) => match entries(rule, direction, field) {
                Some(list) => list,
                None => Seq::<Seq<char>>::empty(),
            },
            None => Seq::<Seq<char>>::empty(),
        }
    }
}

/// What the values of a list stand for, in their order.
pub open spec fn expanded(
    values: Seq<Seq<char>>,
    field: Field,
    direction: Direction,
    cell: Book,
    flow: Book,
) -> Seq<Seq<char>>
    decreases values.len(),
{
    if values.len() == 0 {
        Seq::<Seq<char>>::empty()
    } else {
        expanded(values.drop_last(), field, direction, cell, flow) + value_meaning(
            values.last(),
            field,
            direction,
            cell,
            flow,
        )
    }
}

/// Puts the texts of `more` behind those of `list`.
fn extend(list: &mut Vec<String>, more: &Vec<String>)
    ensures
        final(list).deep_view() == old(list).deep_view() + more.deep_view(),
{
    let ghost before = list.deep_view();
    let ghost all = more.deep_view();
    let mut i: usize = 0;
    assert(list.deep_view() == before + all.take(0));
    while i < more.len()
        invariant
            i <= more.len(),
            all == more.deep_view(),
            list.deep_view() == before + all.take(i as int),
        decreases more.len() - i,
    {
        let ghost now = list.deep_view();
        list.push(more[i].clone());
        assert(list.deep_view() == now.push(all[i as int]));
        i += 1;
        assert(list.deep_view() == before + all.take(i as int));
    }
    assert(all.take(all.len() as int) == all);
}

/// What the values of a list stand for.
pub fn expand_refs(
    values: &Vec<String>,
    field: Field,
    direction: Direction,
    cell_rules: &NameMap<Rule>,
    flow_rules: &NameMap<Rule>,
) -> (r: Vec<String>)
    ensures
        r.deep_view() == expanded(
            values.deep_view(),
            field,
            direction,
            cell_rules.deep_view(),
            flow_rules.deep_view(),
        ),
{
    let ghost cell = cell_rules.deep_view();
    let ghost flow = flow_rules.deep_view();
    let ghost all = values.deep_view();
    let mut r: Vec<String> = Vec::new();
    let mut i: usize = 0;
    assert(r.deep_view() == expanded(all.take(0), field, direction, cell, flow));
    while i < values.len()
        invariant
            i <= values.len(),
            all == values.deep_view(),
            cell == cell_rules.deep_view(),
            flow == flow_rules.deep_view(),
            r.deep_view() == expanded(all.take(i as int), field, direction, cell, flow),
        decreases values.len() - i,
    {
        let value = &values[i];
        let ghost before = r.deep_view();
        assert(all.take(i + 1).drop_last() == all.take(i as int));
        assert(all.take(i + 1).last() == value@);
        if contains(value, ":") && !contains(value, "*.") && !contains(value, "://") {
            if let Some(rule) = lookup_rule(value, cell_rules, flow_rules) {
                if let Some(list) = list_of(rule, direction, field) {
                    extend(&mut r, list);
                }
            }
        } else {
            r.push(value.clone());
            assert(r.deep_view() == before + seq![value@]);
        }
        assert(r.deep_view() == before + value_meaning(value@, field, direction, cell, flow));
        i += 1;
    }
    assert(all.take(all.len() as int) == all);
    r
}

/// What holds while an op runs.
pub struct ResolvedRule {
    pub extends_server: bool,
    pub reads_allowed: Option<Vec<String>>,
    pub reads_denied: Option<Vec<String>>,
    pub writes_allowed: Option<Vec<String>>,
    pub writes_denied: Option<Vec<String>>,
    pub files_denied: Vec<String>,
}

/// What is resolved.
pub struct ResolvedView {
    pub extends_server: bool,
    pub reads_allowed: Option<Seq<Seq<char>>>,
    pub reads_denied: Option<Seq<Seq<char>>>,
    pub writes_allowed: Option<Seq<Seq<char>>>,
    pub writes_denied: Option<Seq<Seq<char>>>,
    pub files_denied: Seq<Seq<char>>,
}

impl View for ResolvedRule {
    type V = ResolvedView;

    open spec fn view(&self) -> ResolvedView {
        ResolvedView {
            extends_server: self.extends_server,
            reads_allowed: self.reads_allowed.deep_view(),
            reads_denied: self.reads_denied.deep_view(),
            writes_allowed: self.writes_allowed.deep_view(),
            writes_denied: self.writes_denied.deep_view(),
            files_denied: self.files_denied.deep_view(),
        }
    }
}

/// What the rules called `names` extend, in their order. Names without a rule
/// are passed over.
pub open spec fn extended(names: Seq<Seq<char>>, cell: Book, flow: Book) -> Seq<Seq<char>>
    decreases names.len(),
{
    if names.len() == 0 {
        Seq::<Seq<char>>::empty()
    } else {
        extended(names.drop_last(), cell, flow) + match rule_named(names.last(), cell, flow) {
            Some(rule) => rule.extends,
            None => Seq::<Seq<char>>::empty(),
        }
    }
}

/// A list that may not be there, with another one behind it.
pub open spec fn merged(
    list: Option<Seq<Seq<char>>>,
    more: Option<Seq<Seq<char>>>,
) -> Option<Seq<Seq<char>>> {
    match more {
        None => list,
        Some(m) => match list {
            None => Some(m),
            Some(l) => Some(l + m),
        },
    }
}

/// The list that comes from the rules extended: theirs, one behind the other.
pub open spec fn inherited(
    extends: Seq<Seq<char>>,
    direction: Direction,
    field: Field,
    cell: Book,
    flow: Book,
) -> Option<Seq<Seq<char>>>
    decreases extends.len(),
{
    if extends.len() == 0 {
        None
    } else {
        let front = inherited(extends.drop_last(), direction, field, cell, flow);
        if extends.last() == "server:default"@ {
            front
        } else {
            match rule_named(extends.last(), cell, flow) {
                Some(base) => merged(front, entries(base, direction, field)),
                None => front,
            }
        }
    }
}

/// The list of the last of the rules called `names` that has one.
pub open spec fn own_list(
    names: Seq<Seq<char>>,
    direction: Direction,
    field: Field,
    cell: Book,
    flow: Book,
) -> Option<Seq<Seq<char>>>
    decreases names.len(),
{
    if names.len() == 0 {
        None
    } else {
        let front = own_list(names.drop_last(), direction, field, cell, flow);
        match rule_named(names.last(), cell, flow) {
            Some(rule) => match entries(rule, direction, field) {
                Some(list) => Some(list),
                None => front,
            },
            None => front,
        }
    }
}

/// The list that holds: what the op's own rules say goes before what they
/// extend.
pub open spec fn effective(
    names: Seq<Seq<char>>,
    direction: Direction,
    field: Field,
    cell: Book,
    flow: Book,
) -> Option<Seq<Seq<char>>> {
    match own_list(names, direction, field, cell, flow) {
        Some(list) => Some(expanded(list, field, direction, cell, flow)),
        None => inherited(extended(names, cell, flow), direction, field, cell, flow),
    }
}

/// What holds while an op with the rules called `names` runs.
pub open spec fn resolved(names: Seq<Seq<char>>, flow: Book, cell: Book) -> ResolvedView {
    ResolvedView {
        extends_server: names.len() == 0 || extended(names, cell, flow).contains(
            "server:default"@,
        ),
        reads_allowed: effective(names, Direction::Reads, Field::Allowed, cell, flow),
        reads_denied: effective(names, Direction::Reads, Field::Denied, cell, flow),
        writes_allowed: effective(names, Direction::Writes, Field::Allowed, cell, flow),
        writes_denied: effective(names, Direction::Writes, Field::Denied, cell, flow),
        files_denied: match effective(names, Direction::Files, Field::Denied, cell, flow) {
            Some(list) => list,
            None => Seq::<Seq<char>>::empty(),
        },
    }
}

fn extends_of(
    names: &Vec<String>,
    cell_rules: &NameMap<Rule>,
    flow_rules: &NameMap<Rule>,
) -> (r: Vec<String>)
    ensures
        r.deep_view() == extended(
            names.deep_view(),
            cell_rules.deep_view(),
            flow_rules.deep_view(),
        ),
{
    let ghost cell = cell_rules.deep_view();
    let ghost flow = flow_rules.deep_view();
    let ghost all = names.deep_view();
    let mut r: Vec<String> = Vec::new();
    let mut i: usize = 0;
    assert(r.deep_view() == extended(all.take(0), cell, flow));
    while i < names.len()
        invariant
            i <= names.len(),
            all == names.deep_view(),
            cell == cell_rules.deep_view(),
            flow == flow_rules.deep_view(),
            r.deep_view() == extended(all.take(i as int), cell, flow),
        decreases names.len() - i,
    {
        assert(all.take(i + 1).drop_last() == all.take(i as int));
        assert(all.take(i + 1).last() == names[i as int]@);
        let ghost before = r.deep_view();
        match lookup_rule(&names[i], cell_rules, flow_rules) {
            Some(rule) => extend(&mut r, &rule.extends),
            None => {
                assert(before == before + Seq::<Seq<char>>::empty());
            },
        }
        i += 1;
    }
    assert(all.take(all.len() as int) == all);
    r
}

/// Puts a list of a net rule, where it has one, behind `target`.
pub fn merge_net_into(target: &mut Option<Vec<String>>, source: &Option<NetRule>, field: Field)
    ensures
        final(target).deep_view() == merged(
            old(target).deep_view(),
            net_entries(source.deep_view(), field),
        ),
{
    merge_into(target, net_list(source, field));
}

fn merge_into(target: &mut Option<Vec<String>>, more: Option<&Vec<String>>)
    ensures
        final(target).deep_view() == merged(old(target).deep_view(), more.deep_view()),
{
    if let Some(m) = more {
        let ghost before = target.deep_view();
        let mut list: Vec<String> = match target.take() {
            Some(l) => l,
            None => Vec::new(),
        };
        let ghost start = list.deep_view();
        extend(&mut list, m);
        assert(before is None ==> start + m.deep_view() == m.deep_view());
        *target = Some(list);
    }
}

fn inherited_list(
    extends: &Vec<String>,
    direction: Direction,
    field: Field,
    cell_rules: &NameMap<Rule>,
    flow_rules: &NameMap<Rule>,
) -> (r: Option<Vec<String>>)
    ensures
        r.deep_view() == inherited(
            extends.deep_view(),
            direction,
            field,
            cell_rules.deep_view(),
            flow_rules.deep_view(),
        ),
{
    let ghost cell = cell_rules.deep_view();
    let ghost flow = flow_rules.deep_view();
    let ghost all = extends.deep_view();
    let mut r: Option<Vec<String>> = None;
    let mut i: usize = 0;
    while i < extends.len()
        invariant
            i <= extends.len(),
            all == extends.deep_view(),
            cell == cell_rules.deep_view(),
            flow == flow_rules.deep_view(),
            r.deep_view() == inherited(all.take(i as int), direction, field, cell, flow),
        decreases extends.len() - i,
    {
        assert(all.take(i + 1).drop_last() == all.take(i as int));
        assert(all.take(i + 1).last() == extends[i as int]@);
        if !same(&extends[i], "server:default") {
            if let Some(base) = lookup_rule(&extends[i], cell_rules, flow_rules) {
                match direction {
                    Direction::Reads => merge_net_into(&mut r, &base.reads, field),
                    Direction::Writes => merge_net_into(&mut r, &base.writes, field),
                    Direction::Files => merge_into(&mut r, list_of(base, direction, field)),
                }
            }
        }
        i += 1;
    }
    assert(all.take(all.len() as int) == all);
    r
}

fn effective_list(
    names: &Vec<String>,
    extends: &Vec<String>,
    direction: Direction,
    field: Field,
    cell_rules: &NameMap<Rule>,
    flow_rules: &NameMap<Rule>,
) -> (r: Option<Vec<String>>)
    requires
        extends.deep_view() == extended(
            names.deep_view(),
            cell_rules.deep_view(),
            flow_rules.deep_view(),
        ),
    ensures
        r.deep_view() == effective(
            names.deep_view(),
            direction,
            field,
            cell_rules.deep_view(),
            flow_rules.deep_view(),
        ),
{
    let ghost cell = cell_rules.deep_view();
    let ghost flow = flow_rules.deep_view();
    let ghost all = names.deep_view();
    let mut own: Option<&Vec<String>> = None;
    let mut i: usize = 0;
    while i < names.len()
        invariant
            i <= names.len(),
            all == names.deep_view(),
            cell == cell_rules.deep_view(),
            flow == flow_rules.deep_view(),
            own.deep_view() == own_list(all.take(i as int), direction, field, cell, flow),
        decreases names.len() - i,
    {
        assert(all.take(i + 1).drop_last() == all.take(i as int));
        assert(all.take(i + 1).last() == names[i as int]@);
        if let Some(rule) = lookup_rule(&names[i], cell_rules, flow_rules) {
            if let Some(list) = list_of(rule, direction, field) {
                own = Some(list);
            }
        }
        i += 1;
    }
    assert(all.take(all.len() as int) == all);
    match own {
        Some(list) => Some(expand_refs(list, field, direction, cell_rules, flow_rules)),
        None => inherited_list(extends, direction, field, cell_rules, flow_rules),
    }
}

/// What holds while `op` runs.
pub fn resolve_op_rules(
    op: &Op,
    flow_rules: &NameMap<Rule>,
    cell_rules: &NameMap<Rule>,
) -> (r: ResolvedRule)
    ensures
        r@ == resolved(
            op.config.rules.deep_view(),
            flow_rules.deep_view(),
            cell_rules.deep_view(),
        ),
{
    let names = &op.config.rules;
    let extends = extends_of(names, cell_rules, flow_rules);
    ResolvedRule {
        extends_server: names.len() == 0 || one_of(&extends, "server:default"),
        reads_allowed: effective_list(
            names,
            &extends,
            Direction::Reads,
            Field::Allowed,
            cell_rules,
            flow_rules,
        ),
        reads_denied: effective_list(
            names,
            &extends,
            Direction::Reads,
            Field::Denied,
            cell_rules,
            flow_rules,
        ),
        writes_allowed: effective_list(
            names,
            &extends,
            Direction::Writes,
            Field::Allowed,
            cell_rules,
            flow_rules,
        ),
        writes_denied: effective_list(
            names,
            &extends,
            Direction::Writes,
            Field::Denied,
            cell_rules,
            flow_rules,
        ),
        files_denied: match effective_list(
            names,
            &extends,
            Direction::Files,
            Field::Denied,
            cell_rules,
            flow_rules,
        ) {
            Some(list) => list,
            None => {
                let none: Vec<String> = Vec::new();
                assert(none.deep_view() == Seq::<Seq<char>>::empty());
                none
            },
        },
    }
}

/// An op without rules runs under the default of the server and under nothing
/// else.
pub proof fn law_no_rules_inherit_server(flow: Book, cell: Book)
    ensures
        resolved(Seq::<Seq<char>>::empty(), flow, cell) == (ResolvedView {
            extends_server: true,
            reads_allowed: None,
            reads_denied: None,
            writes_allowed: None,
            writes_denied: None,
            files_denied: Seq::<Seq<char>>::empty(),
        }),
{
}

/// Names that no rule has change nothing: an op that has no others runs
/// without any list, and not under the default of the server.
pub proof fn law_missing_rules_ignored(names: Seq<Seq<char>>, flow: Book, cell: Book)
    requires
        names.len() > 0,
        forall|i: int| 0 <= i < names.len() ==> rule_named(#[trigger] names[i], cell, flow) is None,
    ensures
        resolved(names, flow, cell) == (ResolvedView {
            extends_server: false,
            reads_allowed: None,
            reads_denied: None,
            writes_allowed: None,
            writes_denied: None,
            files_denied: Seq::<Seq<char>>::empty(),
        }),
{
    lemma_missing(names, flow, cell);
}

proof fn lemma_missing(names: Seq<Seq<char>>, flow: Book, cell: Book)
    requires
        forall|i: int| 0 <= i < names.len() ==> rule_named(#[trigger] names[i], cell, flow) is None,
    ensures
        extended(names, cell, flow) == Seq::<Seq<char>>::empty(),
        forall|d: Direction, f: Field| #[trigger] own_list(names, d, f, cell, flow) is None,
    decreases names.len(),
{
    if names.len() > 0 {
        let front = names.drop_last();
        assert forall|i: int| 0 <= i < front.len() implies rule_named(
            #[trigger] front[i],
            cell,
            flow,
        ) is None by {
            assert(front[i] == names[i]);
        }
        lemma_missing(front, flow, cell);
        assert(rule_named(names[names.len() - 1], cell, flow) is None);
        assert forall|d: Direction, f: Field| #[trigger]
            own_list(names, d, f, cell, flow) is None by {
            assert(own_list(front, d, f, cell, flow) is None);
        }
    }
}

/// What the last rule of an op says of a list replaces what the rules before
/// it say and what any of them extends.
pub proof fn law_last_rule_wins(
    names: Seq<Seq<char>>,
    direction: Direction,
    field: Field,
    flow: Book,
    cell: Book,
)
    requires
        names.len() > 0,
        rule_named(names.last(), cell, flow) is Some,
        entries(rule_named(names.last(), cell, flow)->0, direction, field) is Some,
    ensures
        effective(names, direction, field, cell, flow) == Some(
            expanded(
                entries(rule_named(names.last(), cell, flow)->0, direction, field)->0,
                field,
                direction,
                cell,
                flow,
            ),
        ),
{
}

/// A list of what is resolved. Files are denied only.
pub open spec fn listed(r: ResolvedView, direction: Direction, field: Field) -> Option<
    Seq<Seq<char>>,
> {
    match (direction, field) {
        (Direction::Reads, Field::Allowed) => r.reads_allowed,
        (Direction::Reads, Field::Denied) => r.reads_denied,
        (Direction::Writes, Field::Allowed) => r.writes_allowed,
        (Direction::Writes, Field::Denied) => r.writes_denied,
        (Direction::Files, _) => Some(r.files_denied),
    }
}

/// Which rule a name stands for: `cell:` and `flow:` choose the book, and a name
/// without them that both books have is that of the flow.
pub proof fn law_books(name: Seq<char>, cell: Book, flow: Book)
    ensures
        cell.dom().contains(name) ==> rule_named("cell:"@ + name, cell, flow) == Some(cell[name]),
        !cell.dom().contains(name) ==> rule_named("cell:"@ + name, cell, flow) is None,
        flow.dom().contains(name) ==> rule_named("flow:"@ + name, cell, flow) == Some(flow[name]),
        !flow.dom().contains(name) ==> rule_named("flow:"@ + name, cell, flow) is None,
        !occurs(name, ":"@) && flow.dom().contains(name) ==> rule_named(name, cell, flow) == Some(
            flow[name],
        ),
        !occurs(name, ":"@) && !flow.dom().contains(name) && cell.dom().contains(name)
            ==> rule_named(name, cell, flow) == Some(cell[name]),
        !flow.dom().contains(name) && !cell.dom().contains(name) && !occurs(name, ":"@)
            ==> rule_named(name, cell, flow) is None,
{
    reveal_strlit("cell:");
    reveal_strlit("flow:");
    reveal_strlit(":");
    let c = "cell:"@ + name;
    let f = "flow:"@ + name;
    assert("cell:"@.is_prefix_of(c));
    assert(c.skip(5) =~= name);
    assert("flow:"@.is_prefix_of(f));
    assert(f.skip(5) =~= name);
    assert(!"cell:"@.is_prefix_of(f)) by {
        assert(f[0] != "cell:"@[0]);
    }
    if "cell:"@.is_prefix_of(name) || "flow:"@.is_prefix_of(name) {
        assert(name[4] == name.subrange(0, 5)[4]);
        assert(name.subrange(4, 5) =~= ":"@);
        assert(occurs_at(name, ":"@, 4));
    }
}

/// What a rule says of each direction is its own: of reads and of writes which
/// hosts are allowed and which denied, and of files which are denied.
pub proof fn law_lists_of_a_rule(rule: RuleView)
    ensures
        rule.reads matches Some(n) ==> entries(rule, Direction::Reads, Field::Allowed) == n.allowed
            && entries(rule, Direction::Reads, Field::Denied) == n.denied,
        rule.writes matches Some(n) ==> entries(rule, Direction::Writes, Field::Allowed)
            == n.allowed && entries(rule, Direction::Writes, Field::Denied) == n.denied,
        rule.reads is None ==> entries(rule, Direction::Reads, Field::Allowed) is None && entries(
            rule,
            Direction::Reads,
            Field::Denied,
        ) is None,
        rule.writes is None ==> entries(rule, Direction::Writes, Field::Allowed) is None && entries(
            rule,
            Direction::Writes,
            Field::Denied,
        ) is None,
        entries(rule, Direction::Files, Field::Denied) == rule.files,
{
}

/// The rule called `names[i]` has a list of its own.
pub open spec fn has_own(
    names: Seq<Seq<char>>,
    i: int,
    direction: Direction,
    field: Field,
    cell: Book,
    flow: Book,
) -> bool {
    rule_named(names[i], cell, flow) matches Some(rule) && entries(rule, direction, field) is Some
}

/// The rule called `names[i]` extends, as its `j`-th, a rule with the list
/// `list`.
pub open spec fn extends_list(
    names: Seq<Seq<char>>,
    i: int,
    j: int,
    direction: Direction,
    field: Field,
    list: Seq<Seq<char>>,
    cell: Book,
    flow: Book,
) -> bool {
    &&& 0 <= i < names.len()
    &&& rule_named(names[i], cell, flow) matches Some(rule)
    &&& 0 <= j < rule.extends.len()
    &&& rule.extends[j] != "server:default"@
    &&& rule_named(rule.extends[j], cell, flow) matches Some(base)
    &&& entries(base, direction, field) == Some(list)
}

proof fn lemma_no_own(
    names: Seq<Seq<char>>,
    direction: Direction,
    field: Field,
    cell: Book,
    flow: Book,
)
    requires
        forall|i: int| 0 <= i < names.len() ==> !has_own(names, i, direction, field, cell, flow),
    ensures
        own_list(names, direction, field, cell, flow) is None,
    decreases names.len(),
{
    if names.len() > 0 {
        let front = names.drop_last();
        assert forall|i: int| 0 <= i < front.len() implies !has_own(
            front,
            i,
            direction,
            field,
            cell,
            flow,
        ) by {
            assert(!has_own(names, i, direction, field, cell, flow));
        }
        lemma_no_own(front, direction, field, cell, flow);
        assert(!has_own(names, names.len() - 1, direction, field, cell, flow));
    }
}

proof fn lemma_extended_has(
    names: Seq<Seq<char>>,
    i: int,
    j: int,
    cell: Book,
    flow: Book,
)
    requires
        0 <= i < names.len(),
        rule_named(names[i], cell, flow) matches Some(rule) && 0 <= j < rule.extends.len(),
    ensures
        extended(names, cell, flow).contains(rule_named(names[i], cell, flow)->0.extends[j]),
    decreases names.len(),
{
    let x = rule_named(names[i], cell, flow)->0.extends[j];
    let front = names.drop_last();
    let before = extended(front, cell, flow);
    let all = extended(names, cell, flow);
    if i == names.len() - 1 {
        assert(all[before.len() + j] == x);
    } else {
        assert(front[i] == names[i]);
        lemma_extended_has(front, i, j, cell, flow);
        let k = choose|k: int| 0 <= k < before.len() && before[k] == x;
        assert(all[k] == x);
    }
}

proof fn lemma_extended_from(names: Seq<Seq<char>>, k: int, cell: Book, flow: Book) -> (r: (
    int,
    int,
))
    requires
        0 <= k < extended(names, cell, flow).len(),
    ensures
        0 <= r.0 < names.len(),
        rule_named(names[r.0], cell, flow) is Some,
        0 <= r.1 < rule_named(names[r.0], cell, flow)->0.extends.len(),
        rule_named(names[r.0], cell, flow)->0.extends[r.1] == extended(names, cell, flow)[k],
    decreases names.len(),
{
    let front = names.drop_last();
    let before = extended(front, cell, flow);
    if k < before.len() {
        let r = lemma_extended_from(front, k, cell, flow);
        assert(front[r.0] == names[r.0]);
        r
    } else {
        (names.len() - 1, k - before.len())
    }
}

/// The `k`-th of the rules extended has the list `list`.
spec fn gives_list(
    extends: Seq<Seq<char>>,
    k: int,
    direction: Direction,
    field: Field,
    list: Seq<Seq<char>>,
    cell: Book,
    flow: Book,
) -> bool {
    &&& 0 <= k < extends.len()
    &&& extends[k] != "server:default"@
    &&& rule_named(extends[k], cell, flow) matches Some(base)
    &&& entries(base, direction, field) == Some(list)
}

proof fn lemma_inherited_has(
    extends: Seq<Seq<char>>,
    k: int,
    direction: Direction,
    field: Field,
    list: Seq<Seq<char>>,
    cell: Book,
    flow: Book,
)
    requires
        gives_list(extends, k, direction, field, list, cell, flow),
    ensures
        inherited(extends, direction, field, cell, flow) is Some,
        forall|x: Seq<char>|
            list.contains(x) ==> #[trigger] inherited(
                extends,
                direction,
                field,
                cell,
                flow,
            )->0.contains(x),
    decreases extends.len(),
{
    let front = extends.drop_last();
    let before = inherited(front, direction, field, cell, flow);
    let all = inherited(extends, direction, field, cell, flow);
    if k == extends.len() - 1 {
        assert forall|x: Seq<char>| list.contains(x) implies #[trigger] all->0.contains(x) by {
            let m = choose|m: int| 0 <= m < list.len() && list[m] == x;
            if before is Some {
                assert(all->0[before->0.len() + m] == x);
            } else {
                assert(all->0[m] == x);
            }
        }
    } else {
        assert(front[k] == extends[k]);
        lemma_inherited_has(front, k, direction, field, list, cell, flow);
        assert forall|x: Seq<char>| list.contains(x) implies #[trigger] all->0.contains(x) by {
            assert(before->0.contains(x));
            let m = choose|m: int| 0 <= m < before->0.len() && before->0[m] == x;
            assert(all->0[m] == x);
        }
    }
}

proof fn lemma_inherited_from(
    extends: Seq<Seq<char>>,
    direction: Direction,
    field: Field,
    x: Seq<char>,
    cell: Book,
    flow: Book,
) -> (r: (int, Seq<Seq<char>>))
    requires
        inherited(extends, direction, field, cell, flow) matches Some(all) && all.contains(x),
    ensures
        gives_list(extends, r.0, direction, field, r.1, cell, flow),
        r.1.contains(x),
    decreases extends.len(),
{
    let front = extends.drop_last();
    let before = inherited(front, direction, field, cell, flow);
    let all = inherited(extends, direction, field, cell, flow)->0;
    if before is Some && before->0.contains(x) {
        let r = lemma_inherited_from(front, direction, field, x, cell, flow);
        assert(front[r.0] == extends[r.0]);
        r
    } else {
        let base = rule_named(extends.last(), cell, flow)->0;
        let list = entries(base, direction, field)->0;
        let m = choose|m: int| 0 <= m < all.len() && all[m] == x;
        if before is Some {
            if m < before->0.len() {
                assert(before->0[m] == x);
            }
            assert(list[m - before->0.len()] == x);
        } else {
            assert(list[m] == x);
        }
        (extends.len() - 1, list)
    }
}

proof fn lemma_inherited_none(
    extends: Seq<Seq<char>>,
    direction: Direction,
    field: Field,
    cell: Book,
    flow: Book,
)
    requires
        inherited(extends, direction, field, cell, flow) is Some,
    ensures
        exists|k: int, list: Seq<Seq<char>>|
            gives_list(extends, k, direction, field, list, cell, flow),
    decreases extends.len(),
{
    let front = extends.drop_last();
    if inherited(front, direction, field, cell, flow) is Some {
        lemma_inherited_none(front, direction, field, cell, flow);
        let (k, list) = choose|k: int, list: Seq<Seq<char>>|
            gives_list(front, k, direction, field, list, cell, flow);
        assert(front[k] == extends[k]);
        assert(gives_list(extends, k, direction, field, list, cell, flow));
    } else {
        let list = entries(rule_named(extends.last(), cell, flow)->0, direction, field)->0;
        assert(gives_list(extends, extends.len() - 1, direction, field, list, cell, flow));
    }
}

/// Where no rule of an op has a list of its own, the lists of the rules that
/// they extend hold, all of them and nothing else.
pub proof fn law_extended_rules_hold(
    names: Seq<Seq<char>>,
    i: int,
    j: int,
    list: Seq<Seq<char>>,
    direction: Direction,
    field: Field,
    cell: Book,
    flow: Book,
)
    requires
        forall|k: int| 0 <= k < names.len() ==> !has_own(names, k, direction, field, cell, flow),
        direction == Direction::Files ==> field == Field::Denied,
        extends_list(names, i, j, direction, field, list, cell, flow),
    ensures
        listed(resolved(names, flow, cell), direction, field) is Some,
        forall|x: Seq<char>|
            list.contains(x) ==> #[trigger] listed(
                resolved(names, flow, cell),
                direction,
                field,
            )->0.contains(x),
        forall|x: Seq<char>| #[trigger]
            listed(resolved(names, flow, cell), direction, field)->0.contains(x) ==> exists|
                a: int,
                b: int,
                other: Seq<Seq<char>>,
            |
                extends_list(names, a, b, direction, field, other, cell, flow) && other.contains(x),
{
    lemma_no_own(names, direction, field, cell, flow);
    lemma_extended_has(names, i, j, cell, flow);
    let extends = extended(names, cell, flow);
    let wanted = rule_named(names[i], cell, flow)->0.extends[j];
    let k = choose|k: int| 0 <= k < extends.len() && extends[k] == wanted;
    lemma_inherited_has(extends, k, direction, field, list, cell, flow);
    let all = listed(resolved(names, flow, cell), direction, field)->0;
    assert forall|x: Seq<char>| #[trigger] all.contains(x) implies exists|
        a: int,
        b: int,
        other: Seq<Seq<char>>,
    |
        extends_list(names, a, b, direction, field, other, cell, flow) && other.contains(x) by {
        let (m, other) = lemma_inherited_from(extends, direction, field, x, cell, flow);
        let (a, b) = lemma_extended_from(names, m, cell, flow);
        assert(extends_list(names, a, b, direction, field, other, cell, flow));
    }
}

/// Where neither the rules of an op nor those that they extend have a list,
/// there is none.
pub proof fn law_no_list_invented(
    names: Seq<Seq<char>>,
    direction: Direction,
    field: Field,
    cell: Book,
    flow: Book,
)
    requires
        forall|k: int| 0 <= k < names.len() ==> !has_own(names, k, direction, field, cell, flow),
        direction == Direction::Files ==> field == Field::Denied,
        forall|a: int, b: int, other: Seq<Seq<char>>|
            !extends_list(names, a, b, direction, field, other, cell, flow),
    ensures
        listed(resolved(names, flow, cell), direction, field) == (if direction == Direction::Files {
            Some(Seq::<Seq<char>>::empty())
        } else {
            None
        }),
{
    lemma_no_own(names, direction, field, cell, flow);
    let extends = extended(names, cell, flow);
    if inherited(extends, direction, field, cell, flow) is Some {
        lemma_inherited_none(extends, direction, field, cell, flow);
        let (k, list) = choose|k: int, list: Seq<Seq<char>>|
            gives_list(extends, k, direction, field, list, cell, flow);
        let (a, b) = lemma_extended_from(names, k, cell, flow);
        assert(extends_list(names, a, b, direction, field, list, cell, flow));
    }
}

proof fn lemma_own_list(
    names: Seq<Seq<char>>,
    i: int,
    direction: Direction,
    field: Field,
    cell: Book,
    flow: Book,
)
    requires
        0 <= i < names.len(),
        has_own(names, i, direction, field, cell, flow),
        forall|k: int| i < k < names.len() ==> !has_own(names, k, direction, field, cell, flow),
    ensures
        own_list(names, direction, field, cell, flow) == entries(
            rule_named(names[i], cell, flow)->0,
            direction,
            field,
        ),
    decreases names.len(),
{
    if i < names.len() - 1 {
        let front = names.drop_last();
        assert(!has_own(names, names.len() - 1, direction, field, cell, flow));
        assert(front[i] == names[i]);
        assert forall|k: int| i < k < front.len() implies !has_own(
            front,
            k,
            direction,
            field,
            cell,
            flow,
        ) by {
            assert(!has_own(names, k, direction, field, cell, flow));
        }
        lemma_own_list(front, i, direction, field, cell, flow);
    }
}

proof fn lemma_expanded(
    values: Seq<Seq<char>>,
    x: Seq<char>,
    direction: Direction,
    field: Field,
    cell: Book,
    flow: Book,
)
    ensures
        expanded(values, field, direction, cell, flow).contains(x) <==> exists|k: int|
            0 <= k < values.len() && #[trigger] stands_for(
                values[k],
                x,
                direction,
                field,
                cell,
                flow,
            ),
    decreases values.len(),
{
    if values.len() > 0 {
        let front = values.drop_last();
        let before = expanded(front, field, direction, cell, flow);
        let more = value_meaning(values.last(), field, direction, cell, flow);
        let all = before + more;
        lemma_expanded(front, x, direction, field, cell, flow);
        if all.contains(x) {
            let m = choose|m: int| 0 <= m < all.len() && all[m] == x;
            if m < before.len() {
                assert(before[m] == x);
                let k = choose|k: int|
                    0 <= k < front.len() && #[trigger] stands_for(
                        front[k],
                        x,
                        direction,
                        field,
                        cell,
                        flow,
                    );
                assert(front[k] == values[k]);
            } else {
                assert(more[m - before.len()] == x);
                assert(more.contains(x));
                assert(stands_for(values[values.len() - 1], x, direction, field, cell, flow));
            }
        }
        if exists|k: int|
            0 <= k < values.len() && #[trigger] stands_for(
                values[k],
                x,
                direction,
                field,
                cell,
                flow,
            ) {
            let k = choose|k: int|
                0 <= k < values.len() && #[trigger] stands_for(
                    values[k],
                    x,
                    direction,
                    field,
                    cell,
                    flow,
                );
            if k < front.len() {
                assert(stands_for(front[k], x, direction, field, cell, flow));
                let m = choose|m: int| 0 <= m < before.len() && before[m] == x;
                assert(all[m] == x);
            } else {
                assert(more.contains(x)) by {
                    if !refers(values.last()) {
                        assert(more[0] == x);
                    }
                }
                let m = choose|m: int| 0 <= m < more.len() && more[m] == x;
                assert(all[before.len() + m] == x);
            }
        }
    }
}

/// A value with a colon refers to a rule, unless it is a pattern of hosts or
/// an address with a scheme.
pub open spec fn refers(value: Seq<char>) -> bool {
    occurs(value, ":"@) && !occurs(value, "*."@) && !occurs(value, "://"@)
}

/// The value `x` comes from the value `value` of a list: it is that one, or
/// stands in the list of the rule that `value` refers to.
pub open spec fn stands_for(
    value: Seq<char>,
    x: Seq<char>,
    direction: Direction,
    field: Field,
    cell: Book,
    flow: Book,
) -> bool {
    if refers(value) {
        rule_named(value, cell, flow) matches Some(rule) && (entries(
            rule,
            direction,
            field,
        ) matches Some(list) && list.contains(x))
    } else {
        x == value
    }
}

/// The last rule of an op that has a list of its own decides it: what its
/// values stand for holds, each of them and nothing else.
pub proof fn law_own_list_holds(
    names: Seq<Seq<char>>,
    i: int,
    x: Seq<char>,
    direction: Direction,
    field: Field,
    cell: Book,
    flow: Book,
)
    requires
        0 <= i < names.len(),
        has_own(names, i, direction, field, cell, flow),
        forall|k: int| i < k < names.len() ==> !has_own(names, k, direction, field, cell, flow),
        direction == Direction::Files ==> field == Field::Denied,
    ensures
        ({
            let own = entries(rule_named(names[i], cell, flow)->0, direction, field)->0;
            listed(resolved(names, flow, cell), direction, field) matches Some(all) && (all.contains(
                x,
            ) <==> exists|k: int|
                0 <= k < own.len() && #[trigger] stands_for(own[k], x, direction, field, cell, flow))
        }),
{
    lemma_own_list(names, i, direction, field, cell, flow);
    let own = entries(rule_named(names[i], cell, flow)->0, direction, field)->0;
    lemma_expanded(own, x, direction, field, cell, flow);
}

/// The default of the server holds besides exactly where an op has no rules or
/// one of them extends it.
pub proof fn law_server_default(names: Seq<Seq<char>>, cell: Book, flow: Book)
    ensures
        resolved(names, flow, cell).extends_server <==> names.len() == 0 || exists|i: int|
            0 <= i < names.len() && (rule_named(#[trigger] names[i], cell, flow) matches Some(rule)
                && rule.extends.contains("server:default"@)),
{
    let extends = extended(names, cell, flow);
    if names.len() > 0 && extends.contains("server:default"@) {
        let k = choose|k: int| 0 <= k < extends.len() && extends[k] == "server:default"@;
        let (a, b) = lemma_extended_from(names, k, cell, flow);
        assert(rule_named(names[a], cell, flow)->0.extends[b] == "server:default"@);
    }
    if exists|i: int|
        0 <= i < names.len() && (rule_named(#[trigger] names[i], cell, flow) matches Some(rule)
            && rule.extends.contains("server:default"@)) {
        let i = choose|i: int|
            0 <= i < names.len() && (rule_named(#[trigger] names[i], cell, flow) matches Some(rule)
                && rule.extends.contains("server:default"@));
        let e = rule_named(names[i], cell, flow)->0.extends;
        let j = choose|j: int| 0 <= j < e.len() && e[j] == "server:default"@;
        lemma_extended_has(names, i, j, cell, flow);
    }
}

// Applying the rules

/// Where a cell reaches the control interface of its host.
pub const CELLS_URL: &'static str = "http://192.168.83.1:8082/cells";

/// Some list says which hosts may be reached.
pub open spec fn has_net(rule: ResolvedView) -> bool {
    rule.reads_allowed is Some || rule.reads_denied is Some || rule.writes_allowed is Some
        || rule.writes_denied is Some
}

/// Two lists of hosts.
pub open spec fn hosts_tree(
    allowed: Option<Seq<Seq<char>>>,
    denied: Option<Seq<Seq<char>>>,
) -> Tree {
    Tree::Object(
        seq![
            ("allowed"@, optional_texts_tree(allowed)),
            ("denied"@, optional_texts_tree(denied)),
        ],
    )
}

/// What the host is told of the rules of the cell at `cell_ip`.
pub open spec fn rules_tree(rule: ResolvedView, cell_ip: Seq<char>) -> Tree {
    Tree::Object(
        seq![
            ("cellIp"@, Tree::Text(cell_ip)),
            ("branchId"@, Tree::Text("flow"@)),
            (
                "egress"@,
                Tree::Object(
                    seq![
                        ("additive"@, Tree::Bool(rule.extends_server)),
                        ("reads"@, hosts_tree(rule.reads_allowed, rule.reads_denied)),
                        ("writes"@, hosts_tree(rule.writes_allowed, rule.writes_denied)),
                    ],
                ),
            ),
        ],
    )
}

fn hosts_json(allowed: &Option<Vec<String>>, denied: &Option<Vec<String>>) -> (r: Json)
    ensures
        r.deep_view() == hosts_tree(allowed.deep_view(), denied.deep_view()),
{
    let mut m: Vec<(String, Json)> = Vec::new();
    assert(members_of(m@) == Seq::<(Seq<char>, Tree)>::empty());
    add_member(&mut m, "allowed", optional_texts(allowed));
    add_member(&mut m, "denied", optional_texts(denied));
    assert(members_of(m@) == hosts_tree(allowed.deep_view(), denied.deep_view())->Object_0);
    object(m)
}

/// The command that tells the host of the rules, where there are any on hosts.
pub fn apply_rules(rule: &ResolvedRule, cell_ip: &str) -> (r: Option<Vec<String>>)
    ensures
        r.deep_view() == (if has_net(rule@) {
            Some(post_line(printed(rules_tree(rule@, cell_ip@)), CELLS_URL@))
        } else {
            None
        }),
{
    if rule.reads_allowed.is_none() && rule.reads_denied.is_none() && rule.writes_allowed.is_none()
        && rule.writes_denied.is_none() {
        return None;
    }
    let mut egress: Vec<(String, Json)> = Vec::new();
    assert(members_of(egress@) == Seq::<(Seq<char>, Tree)>::empty());
    add_member(&mut egress, "additive", Json::Bool(rule.extends_server));
    add_member(&mut egress, "reads", hosts_json(&rule.reads_allowed, &rule.reads_denied));
    add_member(&mut egress, "writes", hosts_json(&rule.writes_allowed, &rule.writes_denied));
    assert(members_of(egress@) == rules_tree(rule@, cell_ip@)->Object_0[2].1->Object_0);
    let mut m: Vec<(String, Json)> = Vec::new();
    assert(members_of(m@) == Seq::<(Seq<char>, Tree)>::empty());
    add_member(&mut m, "cellIp", text(cell_ip));
    add_member(&mut m, "branchId", text("flow"));
    add_member(&mut m, "egress", object(egress));
    assert(members_of(m@) == rules_tree(rule@, cell_ip@)->Object_0);
    Some(post(&render(&object(m)), CELLS_URL))
}

/// What the host is told when the rules of the cell no longer hold.
pub open spec fn cleared_tree(cell_ip: Seq<char>) -> Tree {
    Tree::Object(
        seq![("cellIp"@, Tree::Text(cell_ip)), ("branchId"@, Tree::Text("flow"@))],
    )
}

/// The command that tells the host that the rules no longer hold.
pub fn clear_network_rules(cell_ip: &str) -> (r: Vec<String>)
    ensures
        r.deep_view() == post_line(printed(cleared_tree(cell_ip@)), CELLS_URL@),
{
    let mut m: Vec<(String, Json)> = Vec::new();
    assert(members_of(m@) == Seq::<(Seq<char>, Tree)>::empty());
    add_member(&mut m, "cellIp", text(cell_ip));
    add_member(&mut m, "branchId", text("flow"));
    assert(members_of(m@) == cleared_tree(cell_ip@)->Object_0);
    post(&render(&object(m)), CELLS_URL)
}

/// What a pattern of denied files stands for.
pub open spec fn file_target(repo_root: Seq<char>, pattern: Seq<char>) -> Seq<char> {
    joined_path(repo_root, trimmed_end_of(pattern, "/**"@))
}

/// The files that a rule denies, each to be left alone where it is missing.
pub open spec fn file_targets(repo_root: Seq<char>, patterns: Seq<Seq<char>>) -> Seq<Seq<char>> {
    patterns.map_values(|p: Seq<char>| file_target(repo_root, p))
}

/// The files that the rule denies.
pub fn denied_files(rule: &ResolvedRule, repo_root: &str) -> (r: Vec<String>)
    ensures
        r.deep_view() == file_targets(repo_root@, rule@.files_denied),
{
    proof {
        reveal_strlit("/**");
    }
    let mut r: Vec<String> = Vec::new();
    let mut i: usize = 0;
    while i < rule.files_denied.len()
        invariant
            i <= rule.files_denied.len(),
            "/**"@.len() > 0,
            r.deep_view() == file_targets(repo_root@, rule@.files_denied.take(i as int)),
        decreases rule.files_denied.len() - i,
    {
        let ghost before = r.deep_view();
        let t = join(repo_root, &trim_end_of(&rule.files_denied[i], "/**"));
        r.push(t);
        assert(r.deep_view() == before.push(t@));
        i += 1;
        assert(r.deep_view() == file_targets(repo_root@, rule@.files_denied.take(i as int)));
    }
    assert(rule@.files_denied.take(rule@.files_denied.len() as int) == rule@.files_denied);
    r
}

/// The command line that changes who may write `target`.
pub open spec fn chmod_line(mode: Seq<char>, target: Seq<char>) -> Seq<Seq<char>> {
    seq!["chmod"@, "-R"@, mode, target]
}

/// The command that keeps everybody from writing the file `target`.
pub fn apply_file_rules(target: &str) -> (r: Vec<String>)
    ensures
        r.deep_view() == chmod_line("a-w"@, target@),
{
    let mut r = command("chmod");
    arg(&mut r, "-R");
    arg(&mut r, "a-w");
    arg(&mut r, target);
    r
}

/// The command that lets the user write the file `target` again.
pub fn clear_file_rules(target: &str) -> (r: Vec<String>)
    ensures
        r.deep_view() == chmod_line("u+w"@, target@),
{
    let mut r = command("chmod");
    arg(&mut r, "-R");
    arg(&mut r, "u+w");
    arg(&mut r, target);
    r
}

/// What is done when the rules no longer hold: the command that tells the host
/// comes first, where the address of the cell is known.
pub open spec fn clearing(cell_ip: Option<Seq<char>>, present: Seq<Seq<char>>) -> Seq<
    Seq<Seq<char>>,
> {
    (match cell_ip {
        Some(ip) => seq![post_line(printed(cleared_tree(ip)), CELLS_URL@)],
        None => Seq::<Seq<Seq<char>>>::empty(),
    }) + present.map_values(|t: Seq<char>| chmod_line("u+w"@, t))
}

/// The commands that undo the rules; `present` are the denied files that there
/// are.
pub fn clear_rules(cell_ip: &Option<String>, present: &Vec<String>) -> (r: Vec<Vec<String>>)
    ensures
        r.deep_view() == clearing(cell_ip.deep_view(), present.deep_view()),
{
    let mut r: Vec<Vec<String>> = Vec::new();
    if let Some(ip) = cell_ip {
        let c = clear_network_rules(ip);
        r.push(c);
        assert(r.deep_view() == seq![c.deep_view()]);
    } else {
        assert(r.deep_view() == Seq::<Seq<Seq<char>>>::empty());
    }
    let ghost start = r.deep_view();
    let ghost all = present.deep_view();
    let ghost undo = |t: Seq<char>| chmod_line("u+w"@, t);
    let mut i: usize = 0;
    assert(r.deep_view() == start + all.take(0).map_values(undo));
    while i < present.len()
        invariant
            i <= present.len(),
            all == present.deep_view(),
            undo == (|t: Seq<char>| chmod_line("u+w"@, t)),
            r.deep_view() == start + all.take(i as int).map_values(undo),
        decreases present.len() - i,
    {
        let ghost before = r.deep_view();
        let c = clear_file_rules(&present[i]);
        r.push(c);
        assert(r.deep_view() == before.push(c.deep_view()));
        i += 1;
        assert(all.take(i as int).map_values(undo) == all.take(i - 1).map_values(undo).push(
            undo(all[i - 1]),
        ));
        assert(r.deep_view() == start + all.take(i as int).map_values(undo));
    }
    assert(all.take(all.len() as int) == all);
    r
}

/// The value states the texts of a list in their order, or is null where there
/// is no list.
pub open spec fn states(t: Tree, list: Option<Seq<Seq<char>>>) -> bool {
    match list {
        None => t is Null,
        Some(l) => t matches Tree::List(items) && items.len() == l.len() && forall|i: int|
            0 <= i < l.len() ==> #[trigger] items[i] == Tree::Text(l[i]),
    }
}

/// The host is told of a cell by its address, and of each list under its own
/// name: null where there is none, and else every host in its order. The lists
/// add to those of the server exactly where its default is extended.
pub proof fn law_host_told_of_rules(rule: ResolvedView, cell_ip: Seq<char>)
    ensures
        ({
            let t = rules_tree(rule, cell_ip);
            let egress = under(t, "egress"@);
            let told = |direction: Seq<char>, list: Seq<char>| under(under(egress, direction), list);
            &&& under(t, "cellIp"@) == Tree::Text(cell_ip)
            &&& under(egress, "additive"@) == Tree::Bool(rule.extends_server)
            &&& states(told("reads"@, "allowed"@), rule.reads_allowed)
            &&& states(told("reads"@, "denied"@), rule.reads_denied)
            &&& states(told("writes"@, "allowed"@), rule.writes_allowed)
            &&& states(told("writes"@, "denied"@), rule.writes_denied)
        }),
        under(cleared_tree(cell_ip), "cellIp"@) == Tree::Text(cell_ip),
        under(cleared_tree(cell_ip), "egress"@) == Tree::Null,
{
    reveal_strlit("cellIp");
    reveal_strlit("branchId");
    reveal_strlit("egress");
    reveal_strlit("additive");
    reveal_strlit("reads");
    reveal_strlit("writes");
    reveal_strlit("allowed");
    reveal_strlit("denied");
    let t = rules_tree(rule, cell_ip)->Object_0;
    let e = t[2].1->Object_0;
    assert("cellIp"@[0] != "egress"@[0]);
    assert("reads"@[0] != "writes"@[0]);
    assert("allowed"@[0] != "denied"@[0]);
    lemma_member_found(t, 0);
    lemma_member_found(t, 2);
    lemma_member_found(e, 0);
    lemma_member_found(e, 1);
    lemma_member_found(e, 2);
    lemma_member_found(e[1].1->Object_0, 0);
    lemma_member_found(e[1].1->Object_0, 1);
    lemma_member_found(e[2].1->Object_0, 0);
    lemma_member_found(e[2].1->Object_0, 1);
    let c = cleared_tree(cell_ip)->Object_0;
    lemma_member_found(c, 0);
    lemma_member_missing(c, "egress"@);
}

/// Of rules without any list of hosts the host is not told, and of all others
/// it is.
pub proof fn law_told_only_of_hosts(rule: ResolvedView)
    ensures
        has_net(rule) <==> exists|direction: Direction, field: Field|
            direction != Direction::Files && #[trigger] listed(rule, direction, field) is Some,
{
    assert(listed(rule, Direction::Reads, Field::Allowed) == rule.reads_allowed);
    assert(listed(rule, Direction::Reads, Field::Denied) == rule.reads_denied);
    assert(listed(rule, Direction::Writes, Field::Allowed) == rule.writes_allowed);
    assert(listed(rule, Direction::Writes, Field::Denied) == rule.writes_denied);
}

/// Every file that rules deny is found below the repository, and a pattern for
/// all below a directory stands for that directory. When the rules are undone,
/// each of the files that there are can be written again.
pub proof fn law_denied_files_restored(
    repo_root: Seq<char>,
    patterns: Seq<Seq<char>>,
    cell_ip: Option<Seq<char>>,
    present: Seq<Seq<char>>,
    i: int,
)
    ensures
        0 <= i < patterns.len() ==> file_targets(repo_root, patterns).contains(
            joined_path(repo_root, trimmed_end_of(patterns[i], "/**"@)),
        ),
        0 <= i < present.len() ==> clearing(cell_ip, present).contains(
            seq!["chmod"@, "-R"@, "u+w"@, present[i]],
        ),
        cell_ip matches Some(ip) ==> clearing(cell_ip, present)[0].last()
            == "http://192.168.83.1:8082/cells"@,
        clearing(cell_ip, present).len() == present.len() + (if cell_ip is Some {
            1int
        } else {
            0int
        }),
{
    if 0 <= i < patterns.len() {
        assert(file_targets(repo_root, patterns)[i] == joined_path(
            repo_root,
            trimmed_end_of(patterns[i], "/**"@),
        ));
    }
    if 0 <= i < present.len() {
        let n: int = if cell_ip is Some {
            1
        } else {
            0
        };
        assert(clearing(cell_ip, present)[n + i] =~= seq!["chmod"@, "-R"@, "u+w"@, present[i]]);
    }
}

// The address of the cell

/// The first word of `words` that holds an address of the bridge.
pub open spec fn first_bridge_word(words: Seq<Seq<char>>) -> Option<Seq<char>>
    decreases words.len(),
{
    if words.len() == 0 {
        None
    } else if occurs(words[0], "192.168.83."@) {
        Some(words[0])
    } else {
        first_bridge_word(words.drop_first())
    }
}

/// The address of the cell in what `ip -4 -o addr show` prints: what stands
/// before the slash of the first word that holds an address of the bridge.
pub open spec fn cell_ip_in(output: Seq<char>) -> Option<Seq<char>> {
    match first_bridge_word(words_of(output)) {
        Some(w) => Some(parts_of(w, Sep::Char('/'))[0]),
        None => None,
    }
}

/// The address of the cell in what `ip -4 -o addr show` prints.
pub fn get_cell_ip(output: &str) -> (r: Option<String>)
    ensures
        r.deep_view() == cell_ip_in(output@),
{
    let list = words(output);
    let ghost all = list.deep_view();
    let mut i: usize = 0;
    assert(all.skip(0) == all);
    while i < list.len()
        invariant
            i <= list.len(),
            all == list.deep_view(),
            all == words_of(output@),
            first_bridge_word(all) == first_bridge_word(all.skip(i as int)),
        decreases list.len() - i,
    {
        assert(all.skip(i as int)[0] == list[i as int]@);
        if contains(&list[i], "192.168.83.") {
            let parts = split(&list[i], Sep::Char('/'));
            assert(parts.deep_view()[0] == parts[0]@);
            return Some(parts[0].clone());
        }
        assert(all.skip(i as int).drop_first() == all.skip(i + 1));
        i += 1;
    }
    None
}

/// The lists of the rules stand in their order, one behind the other, and so
/// do the values that each of them gives.
pub proof fn law_lists_in_order(
    a: Seq<Seq<char>>,
    b: Seq<Seq<char>>,
    direction: Direction,
    field: Field,
    cell: Book,
    flow: Book,
)
    ensures
        expanded(a + b, field, direction, cell, flow) == expanded(a, field, direction, cell, flow)
            + expanded(b, field, direction, cell, flow),
        extended(a + b, cell, flow) == extended(a, cell, flow) + extended(b, cell, flow),
        ({
            let first = inherited(a, direction, field, cell, flow);
            let second = inherited(b, direction, field, cell, flow);
            let both = inherited(a + b, direction, field, cell, flow);
            &&& first is Some && second is Some ==> both == Some(first->0 + second->0)
            &&& first is Some && second is None ==> both == first
            &&& first is None ==> both == second
        }),
    decreases b.len(),
{
    if b.len() == 0 {
        assert(a + b == a);
    } else {
        let short = b.drop_last();
        law_lists_in_order(a, short, direction, field, cell, flow);
        assert((a + b).drop_last() == a + short);
        assert((a + b).last() == b.last());
        let front = inherited(a, direction, field, cell, flow);
        let middle = inherited(short, direction, field, cell, flow);
        let before = inherited(a + short, direction, field, cell, flow);
        let base = rule_named(b.last(), cell, flow);
        if b.last() != "server:default"@ && base is Some {
            let more = entries(base->0, direction, field);
            if more is Some && front is Some && middle is Some {
                assert((front->0 + middle->0) + more->0 == front->0 + (middle->0 + more->0));
            }
        }
    }
}

/// One value gives itself, or the list of the rule that it refers to in its
/// order; one rule passes on what it extends, and hands on its list as it is.
pub proof fn law_list_of_one(
    value: Seq<char>,
    direction: Direction,
    field: Field,
    cell: Book,
    flow: Book,
)
    ensures
        ({
            let named = rule_named(value, cell, flow);
            let given = expanded(seq![value], field, direction, cell, flow);
            let passed = inherited(seq![value], direction, field, cell, flow);
            &&& !refers(value) ==> given == seq![value]
            &&& refers(value) && named is Some && entries(named->0, direction, field) is Some
                ==> given == entries(named->0, direction, field)->0
            &&& refers(value) && (named is None || entries(named->0, direction, field) is None)
                ==> given.len() == 0
            &&& named is Some ==> extended(seq![value], cell, flow) == named->0.extends
            &&& named is None ==> extended(seq![value], cell, flow).len() == 0
            &&& value != "server:default"@ && named is Some ==> passed == entries(
                named->0,
                direction,
                field,
            )
            &&& value == "server:default"@ || named is None ==> passed is None
        }),
{
    let one = seq![value];
    assert(one.drop_last() == Seq::<Seq<char>>::empty());
    assert(one.last() == value);
    assert(expanded(one.drop_last(), field, direction, cell, flow) == Seq::<Seq<char>>::empty());
    assert(extended(one.drop_last(), cell, flow) == Seq::<Seq<char>>::empty());
    assert(inherited(one.drop_last(), direction, field, cell, flow) is None);
}

/// The rules of a flow are told under the flow's own mark, and nobody may
/// write a denied file until it is handed back to its user.
pub proof fn law_files_denied_to_all(rule: ResolvedView, cell_ip: Seq<char>, target: Seq<char>)
    ensures
        under(rules_tree(rule, cell_ip), "branchId"@) == Tree::Text("flow"@),
        under(cleared_tree(cell_ip), "branchId"@) == Tree::Text("flow"@),
        chmod_line("a-w"@, target) == seq!["chmod"@, "-R"@, "a-w"@, target],
{
    reveal_strlit("cellIp");
    reveal_strlit("branchId");
    assert("cellIp"@.len() == 6 && "branchId"@.len() == 8);
    let t = rules_tree(rule, cell_ip)->Object_0;
    let c = cleared_tree(cell_ip)->Object_0;
    assert(t[0].0 == "cellIp"@ && t[1].0 == "branchId"@);
    assert(c[0].0 == "cellIp"@ && c[1].0 == "branchId"@);
    lemma_member_found(t, 1);
    lemma_member_found(c, 1);
}

proof fn lemma_first_bridge_word(words: Seq<Seq<char>>, i: int)
    requires
        0 <= i <= words.len(),
        forall|k: int| 0 <= k < i ==> !occurs(#[trigger] words[k], "192.168.83."@),
    ensures
        i < words.len() && occurs(words[i], "192.168.83."@) ==> first_bridge_word(words) == Some(
            words[i],
        ),
        i == words.len() ==> first_bridge_word(words) is None,
    decreases i,
{
    if i > 0 {
        let rest = words.drop_first();
        assert(!occurs(words[0], "192.168.83."@));
        assert forall|k: int| 0 <= k < i - 1 implies !occurs(
            #[trigger] rest[k],
            "192.168.83."@,
        ) by {
            assert(rest[k] == words[k + 1]);
        }
        lemma_first_bridge_word(rest, i - 1);
    }
}

/// The address of a cell is the first of the bridge among the words that are
/// printed, without the width of its network; where none is, there is none.
pub proof fn law_cell_address_found(
    words: Seq<Seq<char>>,
    i: int,
    ip: Seq<char>,
    width: Seq<char>,
)
    requires
        words.len() > 0,
        0 <= i <= words.len(),
        forall|k: int| 0 <= k < words.len() ==> (#[trigger] words[k]).len() > 0,
        forall|k: int, j: int|
            0 <= k < words.len() && 0 <= j < words[k].len() ==> !crate::text::basic::is_space(
                #[trigger] words[k][j],
            ),
        forall|k: int| 0 <= k < i ==> !occurs(#[trigger] words[k], "192.168.83."@),
        i < words.len() ==> words[i] == ip + seq!['/'] + width && occurs(ip, "192.168.83."@)
            && !ip.contains('/'),
    ensures
        i < words.len() ==> cell_ip_in(joined(words, seq![' '])) == Some(ip),
        i == words.len() ==> cell_ip_in(joined(words, seq![' '])) is None,
{
    crate::text::split::law_words_read_back(words);
    lemma_first_bridge_word(words, i);
    if i < words.len() {
        crate::text::basic::lemma_occurs_longer(ip, seq!['/'], "192.168.83."@);
        crate::text::basic::lemma_occurs_longer(ip + seq!['/'], width, "192.168.83."@);
        crate::text::split::lemma_first_part(ip, '/', width);
    }
}

} // verus!
