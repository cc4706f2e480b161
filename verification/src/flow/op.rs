//! The ops of a flow, `op.md`: a frontmatter between lines of hyphens, and a
//! prompt.

use crate::names::NameMap;
use crate::path::{join, joined_path};
use crate::text::basic::{
    chars_of, find, find_in, law_affix_and_rest, lemma_find_from, occurs, occurs_at, one_of,
    starts_with, text_of, trim, trimmed,
};
use vstd::prelude::*;

verus! {

/// What the frontmatter of an op says.
pub struct OpFrontmatter {
    pub name: String,
    /// The rules that hold while the op runs.
    pub rules: Vec<String>,
    /// The ops that may follow.
    pub next: Vec<String>,
    /// When a lifecycle op runs.
    pub on: Option<Lifecycle>,
    pub params: NameMap<String>,
    /// Op-level timeout override (e.g. "4h", "30m"). Falls back to flow timeout.
    pub timeout: Option<String>,
}

/// The ends of a flow that a lifecycle op may run at.
#[derive(Clone, Copy, Debug, PartialEq, Eq, Structural)]
pub enum Lifecycle {
    Success,
    Failure,
    Finish,
}

impl DeepView for Lifecycle {
    type V = Lifecycle;

    open spec fn deep_view(&self) -> Lifecycle {
        *self
    }
}

/// An op.
pub struct Op {
    pub config: OpFrontmatter,
    pub prompt: String,
}

/// The two parts of an op file.
pub struct OpSource {
    pub frontmatter: String,
    pub prompt: String,
}

/// What the two parts of an op file are.
pub struct OpSourceView {
    pub frontmatter: Seq<char>,
    pub prompt: Seq<char>,
}

impl View for OpSource {
    type V = OpSourceView;

    open spec fn view(&self) -> OpSourceView {
        OpSourceView { frontmatter: self.frontmatter@, prompt: self.prompt@ }
    }
}

/// What is wrong with an op file.
#[derive(Clone, Copy, Debug, PartialEq, Eq, Structural)]
pub enum OpError {
    NoFrontmatter,
    NotClosed,
}

impl OpError {
    /// The error in words.
    pub open spec fn words(self) -> Seq<char> {
        match self {
            OpError::NoFrontmatter => "op.md must start with --- frontmatter delimiter"@,
            OpError::NotClosed => "missing closing --- in op.md frontmatter"@,
        }
    }

    /// The error in words.
    pub fn message(&self) -> (r: String)
        ensures
            r@ == self.words(),
    {
        match self {
            OpError::NoFrontmatter => "op.md must start with --- frontmatter delimiter".to_string(),
            OpError::NotClosed => "missing closing --- in op.md frontmatter".to_string(),
        }
    }
}

/// The parts of an op file: what stands between the hyphens that the file
/// begins with and the next ones, and what follows those.
pub open spec fn op_parts(content: Seq<char>) -> Result<OpSourceView, OpError> {
    let t = trimmed(content);
    if !"---"@.is_prefix_of(t) {
        Err(OpError::NoFrontmatter)
    } else {
        let rest = t.skip("---"@.len() as int);
        match find_in(rest, "---"@) {
            None => Err(OpError::NotClosed),
            Some(end) => Ok(
                OpSourceView {
                    frontmatter: trimmed(rest.take(end)),
                    prompt: trimmed(rest.skip(end + "---"@.len())),
                },
            ),
        }
    }
}

/// Cuts an op file into its frontmatter and its prompt.
pub fn parse_op_md(content: &str) -> (r: Result<OpSource, OpError>)
    ensures
        match r {
            Ok(s) => op_parts(content@) == Ok::<OpSourceView, OpError>(s@),
            Err(e) => op_parts(content@) == Err::<OpSourceView, OpError>(e),
        },
{
    let t = trim(content);
    if !starts_with(&t, "---") {
        return Err(OpError::NoFrontmatter);
    }
    proof {
        reveal_strlit("---");
    }
    let tv = chars_of(&t);
    let rest = text_of(&tv, 3, tv.len());
    assert(rest@ == t@.skip(3));
    match find(&rest, "---") {
        None => Err(OpError::NotClosed),
        Some(end) => {
            let rv = chars_of(&rest);
            let front = text_of(&rv, 0, end);
            let body = text_of(&rv, end + 3, rv.len());
            assert(front@ == rest@.take(end as int));
            assert(body@ == rest@.skip(end + 3));
            Ok(OpSource { frontmatter: trim(&front), prompt: trim(&body) })
        },
    }
}

/// The file of an op.
pub open spec fn op_file_of(flow_dir: Seq<char>, op_name: Seq<char>) -> Seq<char> {
    joined_path(joined_path(joined_path(flow_dir, "ops"@), op_name), "op.md"@)
}

/// The file that the op `op_name` is loaded from.
pub fn load_op(flow_dir: &str, op_name: &str) -> (r: String)
    ensures
        r@ == op_file_of(flow_dir@, op_name@),
{
    join(&join(&join(flow_dir, "ops"), op_name), "op.md")
}

/// Whether `target` may follow `op`.
pub fn op_allows(op: &Op, target: &str) -> (r: bool)
    ensures
        r == op.config.next.deep_view().contains(target@),
{
    one_of(&op.config.next, target)
}

/// A file that begins with hyphens, a frontmatter and hyphens again is cut
/// there: what stands between the hyphens is the frontmatter, and all that
/// follows is the prompt, also where it has hyphens of its own.
pub proof fn law_op_cut_at_hyphens(content: Seq<char>, front: Seq<char>, body: Seq<char>)
    requires
        trimmed(content) == seq!['-', '-', '-'] + front + seq!['-', '-', '-'] + body,
        !occurs(front + seq!['-', '-'], seq!['-', '-', '-']),
    ensures
        op_parts(content) == Ok::<OpSourceView, OpError>(
            OpSourceView { frontmatter: trimmed(front), prompt: trimmed(body) },
        ),
{
    let bar = seq!['-', '-', '-'];
    reveal_strlit("---");
    assert("---"@ == bar);
    let t = trimmed(content);
    let rest = front + bar + body;
    assert(t == bar + rest);
    law_affix_and_rest(rest, bar);
    assert(t.skip(3) == rest);
    assert(bar.drop_last() == seq!['-', '-']);
    lemma_first_found(front, bar, body);
    let n = front.len() as int;
    assert(rest.take(n) == front);
    assert(rest.skip(n + 3) == body);
}

proof fn lemma_first_found(front: Seq<char>, p: Seq<char>, body: Seq<char>)
    requires
        p.len() > 0,
        !occurs(front + p.drop_last(), p),
    ensures
        find_in(front + p + body, p) == Some(front.len() as int),
{
    let rest = front + p + body;
    let n = front.len() as int;
    assert(rest.subrange(n, n + p.len()) == p);
    assert(occurs_at(rest, p, n));
    lemma_find_from(rest, p, 0);
    let k = find_in(rest, p)->0;
    if k < n {
        let short = front + p.drop_last();
        assert(short.subrange(k, k + p.len()) == rest.subrange(k, k + p.len()));
        assert(occurs_at(short, p, k));
    }
}

/// A file that does not begin with hyphens has no frontmatter, and one that
/// does but has no other three hyphens leaves it open.
pub proof fn law_op_needs_hyphens(content: Seq<char>, rest: Seq<char>)
    ensures
        op_parts(content) == Err::<OpSourceView, OpError>(OpError::NoFrontmatter) <==> !"---"@
            .is_prefix_of(trimmed(content)),
        trimmed(content) == "---"@ + rest ==> (op_parts(content) == Err::<OpSourceView, OpError>(
            OpError::NotClosed,
        ) <==> !occurs(rest, "---"@)),
{
    law_affix_and_rest(rest, "---"@);
    lemma_find_from(rest, "---"@, 0);
    if find_in(rest, "---"@) is Some {
        assert(occurs_at(rest, "---"@, find_in(rest, "---"@)->0));
    }
}

/// What is wrong with an op file is said, and an op is looked for in the
/// directory of its name.
pub proof fn law_op_errors_said(flow_dir: Seq<char>, op_name: Seq<char>)
    ensures
        OpError::NoFrontmatter.words() == "op.md must start with --- frontmatter delimiter"@,
        OpError::NotClosed.words() == "missing closing --- in op.md frontmatter"@,
        op_file_of(flow_dir, op_name) == joined_path(
            joined_path(joined_path(flow_dir, "ops"@), op_name),
            "op.md"@,
        ),
{
}

} // verus!
