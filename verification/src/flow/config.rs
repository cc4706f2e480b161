//! The configuration of a flow, `flow.toml`.

use crate::names::NameMap;
use crate::path::{join, joined_path};
use vstd::prelude::*;

verus! {

/// A flow and the rules it defines.
pub struct FlowConfig {
    pub flow: FlowMeta,
    pub rules: NameMap<Rule>,
}

/// How many times an op may retry where the flow does not say.
pub fn default_max_retries() -> (r: u32)
    ensures
        r == 10,
{
    10
}

/// The timeout of the ops of a flow that does not say.
pub fn default_timeout() -> (r: String)
    ensures
        r@ == "2h"@,
{
    "2h".to_string()
}

/// What a flow says of itself.
pub struct FlowMeta {
    /// The op it starts with.
    pub start: String,
    /// The directory its state goes to.
    pub state: Option<String>,
    pub max_retries: u32,
    /// Default op timeout for this flow (e.g. "2h", "30m"). Ops can override.
    pub timeout: String,
}

/// A rule: what an op may reach.
#[derive(Clone)]
pub struct Rule {
    pub extends: Vec<String>,
    pub files: Option<FileRule>,
    pub reads: Option<NetRule>,
    pub writes: Option<NetRule>,
}

/// Which files an op may not write.
#[derive(Clone)]
pub struct FileRule {
    pub denied: Vec<String>,
}

/// Which hosts an op may and may not reach.
#[derive(Clone)]
pub struct NetRule {
    pub allowed: Option<Vec<String>>,
    pub denied: Option<Vec<String>>,
}

/// What a rule says.
pub struct RuleView {
    pub extends: Seq<Seq<char>>,
    pub files: Option<Seq<Seq<char>>>,
    pub reads: Option<NetView>,
    pub writes: Option<NetView>,
}

/// What a net rule says.
pub struct NetView {
    pub allowed: Option<Seq<Seq<char>>>,
    pub denied: Option<Seq<Seq<char>>>,
}

impl DeepView for FileRule {
    type V = Seq<Seq<char>>;

    open spec fn deep_view(&self) -> Seq<Seq<char>> {
        self.denied.deep_view()
    }
}

impl DeepView for NetRule {
    type V = NetView;

    open spec fn deep_view(&self) -> NetView {
        NetView { allowed: self.allowed.deep_view(), denied: self.denied.deep_view() }
    }
}

impl DeepView for Rule {
    type V = RuleView;

    open spec fn deep_view(&self) -> RuleView {
        RuleView {
            extends: self.extends.deep_view(),
            files: self.files.deep_view(),
            reads: self.reads.deep_view(),
            writes: self.writes.deep_view(),
        }
    }
}

impl Default for Rule {
    /// A rule that says nothing.
    fn default() -> (r: Self)
        ensures
            r.deep_view() == (RuleView {
                extends: Seq::<Seq<char>>::empty(),
                files: None,
                reads: None,
                writes: None,
            }),
    {
        let r = Rule { extends: Vec::new(), files: None, reads: None, writes: None };
        assert(r.extends.deep_view() == Seq::<Seq<char>>::empty());
        r
    }
}

/// The directory of a flow.
pub open spec fn flow_dir_of(repo_root: Seq<char>, name: Seq<char>) -> Seq<char> {
    joined_path(joined_path(repo_root, ".cella/flows"@), name)
}

/// The directory of the flow `name`.
pub fn flow_dir(repo_root: &str, name: &str) -> (r: String)
    ensures
        r@ == flow_dir_of(repo_root@, name@),
{
    join(&join(repo_root, ".cella/flows"), name)
}

/// The file that the configuration of the flow `name` is loaded from.
pub fn load_flow(repo_root: &str, name: &str) -> (r: String)
    ensures
        r@ == joined_path(flow_dir_of(repo_root@, name@), "flow.toml"@),
{
    join(&flow_dir(repo_root, name), "flow.toml")
}

/// A flow stands in the directory of its name, among the flows of its
/// repository.
pub proof fn law_flow_in_its_directory(repo_root: Seq<char>, name: Seq<char>)
    ensures
        flow_dir_of(repo_root, name) == joined_path(
            joined_path(repo_root, ".cella/flows"@),
            name,
        ),
{
}

} // verus!
