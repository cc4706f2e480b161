//! The state of a flow, its decisions and signals, and where they are kept.

use crate::json::{
    from_value, get, increasing, item_value, items_of, json_print, json_read, json_tree, member_of,
    member_value, named_trees, object_value, print_value, read_value, reads_back, to_value, under,
    whole_text, Json, Number, Tree, NESTING,
};
use crate::path::{join, joined_path};
use crate::text::basic::{same, trim, trimmed};
use crate::text::number::{all_digits, decimal, decimal_text, is_digit, lemma_decimal_value};
use crate::text::order::in_order;
use vstd::prelude::*;

verus! {

/// Where the running flow leaves its traces.
pub const CELLX_DIR: &'static str = "/tmp/cellx";

/// Where the state of a flow goes unless it says otherwise.
pub const DEFAULT_STATE_DIR: &'static str = "/var/lib/cellx/state";

/// How a flow stands.
#[derive(Clone, Copy, Debug, PartialEq, Eq, Structural)]
pub enum FlowState {
    Running,
    Paused,
    Done,
    Failed,
}

impl FlowState {
    /// The state as it is written.
    pub open spec fn written(self) -> Seq<char> {
        match self {
            FlowState::Running => "running"@,
            FlowState::Paused => "paused"@,
            FlowState::Done => "done"@,
            FlowState::Failed => "failed"@,
        }
    }

    /// The state as it is written.
    pub fn text(&self) -> (r: String)
        ensures
            r@ == self.written(),
    {
        match self {
            FlowState::Running => "running".to_string(),
            FlowState::Paused => "paused".to_string(),
            FlowState::Done => "done".to_string(),
            FlowState::Failed => "failed".to_string(),
        }
    }

    /// The state as it is shown.
    pub open spec fn shown(self) -> Seq<char> {
        match self {
            FlowState::Running => "Running"@,
            FlowState::Paused => "Paused"@,
            FlowState::Done => "Done"@,
            FlowState::Failed => "Failed"@,
        }
    }

    /// The state as it is shown.
    pub fn label(&self) -> (r: String)
        ensures
            r@ == self.shown(),
    {
        match self {
            FlowState::Running => "Running".to_string(),
            FlowState::Paused => "Paused".to_string(),
            FlowState::Done => "Done".to_string(),
            FlowState::Failed => "Failed".to_string(),
        }
    }
}

/// The states are told apart by the word that is written and by the one that is
/// shown, which differ only in the case of their first letter.
pub proof fn law_states_told_apart(a: FlowState, b: FlowState)
    ensures
        a.written() == b.written() <==> a == b,
        a.shown() == b.shown() <==> a == b,
        a.written() == "running"@ <==> a == FlowState::Running,
        a.written() == "paused"@ <==> a == FlowState::Paused,
        a.written() == "done"@ <==> a == FlowState::Done,
        a.written() == "failed"@ <==> a == FlowState::Failed,
        a.shown().skip(1) == a.written().skip(1),
        a.shown()[0] != a.written()[0],
{
    reveal_strlit("running");
    reveal_strlit("paused");
    reveal_strlit("done");
    reveal_strlit("failed");
    reveal_strlit("Running");
    reveal_strlit("Paused");
    reveal_strlit("Done");
    reveal_strlit("Failed");
    assert("paused"@[0] != "failed"@[0]);
    assert("Paused"@[0] != "Failed"@[0]);
    assert(a.shown().skip(1) =~= a.written().skip(1));
}

/// The status of a flow.
pub struct FlowStatus {
    pub flow_name: String,
    pub current_op: String,
    pub state: FlowState,
    pub started_at: u64,
    pub op_started_at: u64,
    pub state_dir: String,
}

/// What the status of a flow says.
pub struct StatusView {
    pub flow_name: Seq<char>,
    pub current_op: Seq<char>,
    pub state: FlowState,
    pub started_at: u64,
    pub op_started_at: u64,
    pub state_dir: Seq<char>,
}

impl View for FlowStatus {
    type V = StatusView;

    open spec fn view(&self) -> StatusView {
        StatusView {
            flow_name: self.flow_name@,
            current_op: self.current_op@,
            state: self.state,
            started_at: self.started_at,
            op_started_at: self.op_started_at,
            state_dir: self.state_dir@,
        }
    }
}

/// One thing done to the files of a machine.
pub enum FileStep {
    /// Make the directory, and those above it, where they are missing.
    MakeDir(String),
    Write { path: String, text: String },
    Rename { from: String, to: String },
    /// Remove the file where there is one.
    Remove(String),
}

/// What is done to the files.
pub enum FileStepView {
    MakeDir(Seq<char>),
    Write { path: Seq<char>, text: Seq<char> },
    Rename { from: Seq<char>, to: Seq<char> },
    Remove(Seq<char>),
}

impl DeepView for FileStep {
    type V = FileStepView;

    open spec fn deep_view(&self) -> FileStepView {
        match self {
            FileStep::MakeDir(p) => FileStepView::MakeDir(p@),
            FileStep::Write { path, text } => FileStepView::Write { path: path@, text: text@ },
            FileStep::Rename { from, to } => FileStepView::Rename { from: from@, to: to@ },
            FileStep::Remove(p) => FileStepView::Remove(p@),
        }
    }
}

/// Where the status of the running flow is looked up.
pub open spec fn pointer_file() -> Seq<char> {
    joined_path(CELLX_DIR@, "flow.json"@)
}

/// How the status `json` of the flow in `state_dir` is saved: the file in the
/// state directory is replaced as a whole, and the pointer is written.
pub open spec fn save_steps(state_dir: Seq<char>, json: Seq<char>) -> Seq<FileStepView> {
    seq![
        FileStepView::MakeDir(state_dir),
        FileStepView::Write { path: joined_path(state_dir, "flow.json.tmp"@), text: json },
        FileStepView::Rename {
            from: joined_path(state_dir, "flow.json.tmp"@),
            to: joined_path(state_dir, "flow.json"@),
        },
        FileStepView::MakeDir(CELLX_DIR@),
        FileStepView::Write { path: pointer_file(), text: json },
    ]
}

impl FlowStatus {
    /// Where the status of the running flow is looked up.
    pub fn pointer_path() -> (r: String)
        ensures
            r@ == pointer_file(),
    {
        join(CELLX_DIR, "flow.json")
    }

    /// The status file in the state directory.
    pub fn flow_json_path(&self) -> (r: String)
        ensures
            r@ == joined_path(self.state_dir@, "flow.json"@),
    {
        join(&self.state_dir, "flow.json")
    }

    /// The file that the status is loaded from.
    pub fn load() -> (r: String)
        ensures
            r@ == pointer_file(),
    {
        Self::pointer_path()
    }

    /// What is done to save the status, whose text is `json`.
    pub fn save(&self, json: &str) -> (r: Vec<FileStep>)
        ensures
            r.deep_view() == save_steps(self.state_dir@, json@),
    {
        let tmp = join(&self.state_dir, "flow.json.tmp");
        let r = vec![
            FileStep::MakeDir(self.state_dir.clone()),
            FileStep::Write { path: tmp.clone(), text: json.to_string() },
            FileStep::Rename { from: tmp, to: self.flow_json_path() },
            FileStep::MakeDir(CELLX_DIR.to_string()),
            FileStep::Write { path: Self::pointer_path(), text: json.to_string() },
        ];
        assert(r.deep_view() =~= save_steps(self.state_dir@, json@));
        r
    }

    /// What is done to forget the running flow.
    pub fn remove() -> (r: FileStep)
        ensures
            r.deep_view() == FileStepView::Remove(pointer_file()),
    {
        FileStep::Remove(Self::pointer_path())
    }
}

/// The status file is never written in place: it changes only by a rename of
/// a file written before. (Where the state directory is the one of the
/// pointer, the status file is the pointer, which is written in place.)
pub proof fn law_status_replaced_whole(state_dir: Seq<char>, json: Seq<char>, i: int)
    requires
        joined_path(state_dir, "flow.json"@) != pointer_file(),
        0 <= i < save_steps(state_dir, json).len(),
    ensures
        save_steps(state_dir, json)[i] matches FileStepView::Write { path, .. } ==> path
            != joined_path(state_dir, "flow.json"@),
        save_steps(state_dir, json)[1] == (FileStepView::Write {
            path: joined_path(state_dir, "flow.json.tmp"@),
            text: json,
        }),
        save_steps(state_dir, json)[2] == (FileStepView::Rename {
            from: joined_path(state_dir, "flow.json.tmp"@),
            to: joined_path(state_dir, "flow.json"@),
        }),
{
    reveal_strlit("flow.json");
    reveal_strlit("flow.json.tmp");
    reveal_strlit("/");
    assert(!"/"@.is_prefix_of("flow.json"@)) by {
        assert("flow.json"@[0] != "/"@[0]);
    }
    assert(!"/"@.is_prefix_of("flow.json.tmp"@)) by {
        assert("flow.json.tmp"@[0] != "/"@[0]);
    }
    assert(joined_path(state_dir, "flow.json.tmp"@).len() == joined_path(
        state_dir,
        "flow.json"@,
    ).len() + 4);
}

/// What a cell reports to its host.
pub struct FlowReport {
    pub cell_ip: String,
    pub flow_name: String,
    pub current_op: String,
    pub state: FlowState,
    pub started_at: u64,
    pub op_started_at: u64,
}

/// What an op decides.
pub enum Decision {
    To { op: String, params: Option<serde_json::Value> },
    Retry { after: Option<u64> },
    Pause,
    Done,
}

/// What is decided.
pub enum DecisionView {
    To { op: Seq<char>, params: Option<Tree> },
    Retry { after: Option<u64> },
    Pause,
    Done,
}

impl View for Decision {
    type V = DecisionView;

    open spec fn view(&self) -> DecisionView {
        match self {
            Decision::To { op, params } => DecisionView::To {
                op: op@,
                params: match params {
                    Some(p) => Some(json_tree(*p)),
                    None => None,
                },
            },
            Decision::Retry { after } => DecisionView::Retry { after: *after },
            Decision::Pause => DecisionView::Pause,
            Decision::Done => DecisionView::Done,
        }
    }
}

// Signal file (pause or stop from outside)

/// A signal to the running flow.
#[derive(Clone, Copy, Debug, PartialEq, Eq, Structural)]
pub enum Signal {
    Pause,
    Done,
}

/// The file that a signal is left in.
pub open spec fn signal_file() -> Seq<char> {
    joined_path(CELLX_DIR@, "flow-signal"@)
}

/// The file that a signal is left in.
pub fn signal_path() -> (r: String)
    ensures
        r@ == signal_file(),
{
    join(CELLX_DIR, "flow-signal")
}

/// The signal that a file gives.
pub open spec fn signal_of(content: Seq<char>) -> Option<Signal> {
    if trimmed(content) == "pause"@ {
        Some(Signal::Pause)
    } else if trimmed(content) == "done"@ {
        Some(Signal::Done)
    } else {
        None
    }
}

/// The signal that the content of the signal file gives.
pub fn check_signal(content: &str) -> (r: Option<Signal>)
    ensures
        r == signal_of(content@),
{
    let t = trim(content);
    if same(&t, "pause") {
        Some(Signal::Pause)
    } else if same(&t, "done") {
        Some(Signal::Done)
    } else {
        None
    }
}

/// What is done to leave the signal `sig`.
pub fn write_signal(sig: &str) -> (r: Vec<FileStep>)
    ensures
        r.deep_view() == seq![
            FileStepView::MakeDir(CELLX_DIR@),
            FileStepView::Write { path: signal_file(), text: sig@ },
        ],
{
    let r = vec![
        FileStep::MakeDir(CELLX_DIR.to_string()),
        FileStep::Write { path: signal_path(), text: sig.to_string() },
    ];
    assert(r.deep_view() =~= seq![
        FileStepView::MakeDir(CELLX_DIR@),
        FileStepView::Write { path: signal_file(), text: sig@ },
    ]);
    r
}

/// A signal that was left is the signal that is found.
pub proof fn law_signal_arrives()
    ensures
        signal_of("pause"@) == Some(Signal::Pause),
        signal_of("done"@) == Some(Signal::Done),
{
    reveal_strlit("pause");
    reveal_strlit("done");
}

// Workspace paths

/// A name with the time it was used at.
pub open spec fn stamped(name: Seq<char>, timestamp: u64) -> Seq<char> {
    name + "-"@ + decimal(timestamp as nat)
}

fn stamp(name: &str, timestamp: u64) -> (r: String)
    ensures
        r@ == stamped(name@, timestamp),
{
    let mut r = name.to_string();
    r.append("-");
    r.append(&decimal_text(timestamp));
    r
}

/// The directory for the state of a flow.
pub open spec fn state_dir_of(base: Option<Seq<char>>, flow_name: Seq<char>, timestamp: u64) -> Seq<
    char,
> {
    joined_path(
        match base {
            Some(b) => b,
            None => DEFAULT_STATE_DIR@,
        },
        stamped(flow_name, timestamp),
    )
}

/// The directory for the state of the flow `flow_name` started at `timestamp`.
pub fn flow_state_dir(base: Option<&str>, flow_name: &str, timestamp: u64) -> (r: String)
    ensures
        r@ == state_dir_of(base.deep_view(), flow_name@, timestamp),
{
    match base {
        Some(b) => join(b, &stamp(flow_name, timestamp)),
        None => join(DEFAULT_STATE_DIR, &stamp(flow_name, timestamp)),
    }
}

/// The workspace of the op `op_name` started at `timestamp`.
pub fn op_workspace(flow_state: &str, op_name: &str, timestamp: u64) -> (r: String)
    ensures
        r@ == joined_path(flow_state@, stamped(op_name@, timestamp)),
{
    join(flow_state, &stamp(op_name, timestamp))
}

/// The file in a workspace that an op leaves its decision in.
pub open spec fn result_file(workspace: Seq<char>) -> Seq<char> {
    joined_path(workspace, "result.json"@)
}

/// The file in a workspace that an op leaves its decision in.
pub fn result_path(workspace: &str) -> (r: String)
    ensures
        r@ == result_file(workspace@),
{
    join(workspace, "result.json")
}

/// A delay as it is written.
pub open spec fn delay_tree(after: Option<u64>) -> Tree {
    match after {
        Some(n) => Tree::Number { whole: Some(n), text: decimal(n as nat) },
        None => Tree::Null,
    }
}

/// The members of the object that a decision is written as.
pub open spec fn decision_members(d: DecisionView) -> Seq<(Seq<char>, Tree)> {
    match d {
        DecisionView::To { op, params: None } => seq![
            ("action"@, Tree::Text("to"@)),
            ("op"@, Tree::Text(op)),
        ],
        DecisionView::To { op, params: Some(p) } => seq![
            ("action"@, Tree::Text("to"@)),
            ("op"@, Tree::Text(op)),
            ("params"@, p),
        ],
        DecisionView::Retry { after } => seq![
            ("action"@, Tree::Text("retry"@)),
            ("after"@, delay_tree(after)),
        ],
        DecisionView::Pause => seq![("action"@, Tree::Text("pause"@))],
        DecisionView::Done => seq![("action"@, Tree::Text("done"@))],
    }
}

/// What a decision is written as.
pub open spec fn decision_tree(d: DecisionView) -> Tree {
    Tree::Object(decision_members(d))
}

/// The text of a decision.
pub open spec fn result_text(d: DecisionView) -> Seq<char> {
    json_print(decision_tree(d))
}

/// A value that is given: null is none.
pub open spec fn given(t: Tree) -> Option<Tree> {
    match t {
        Tree::Null => None,
        _ => Some(t),
    }
}

/// The decision to go on with the op that a value names.
pub open spec fn to_in(op: Tree, params: Tree) -> Option<DecisionView> {
    match op {
        Tree::Text(name) => Some(DecisionView::To { op: name, params: given(params) }),
        _ => None,
    }
}

/// The decision to run an op again after the delay that a value gives.
pub open spec fn retry_in(after: Tree) -> Option<DecisionView> {
    match after {
        Tree::Null => Some(DecisionView::Retry { after: None }),
        Tree::Number { whole: Some(n), .. } => Some(DecisionView::Retry { after: Some(n) }),
        _ => None,
    }
}

/// The decision that a value states: an object says what is to be done and by
/// which name, a list gives the same without names.
pub open spec fn decision_in(t: Tree) -> Option<DecisionView> {
    match t {
        Tree::Object(_) => {
            let action = under(t, "action"@);
            if action == Tree::Text("to"@) {
                to_in(under(t, "op"@), under(t, "params"@))
            } else if action == Tree::Text("retry"@) {
                retry_in(under(t, "after"@))
            } else if action == Tree::Text("pause"@) {
                Some(DecisionView::Pause)
            } else if action == Tree::Text("done"@) {
                Some(DecisionView::Done)
            } else {
                None
            }
        },
        Tree::List(items) => if items.len() == 0 {
            None
        } else if items[0] == Tree::Text("to"@) {
            if items.len() == 2 {
                to_in(items[1], Tree::Null)
            } else if items.len() == 3 {
                to_in(items[1], items[2])
            } else {
                None
            }
        } else if items[0] == Tree::Text("retry"@) && items.len() == 2 {
            retry_in(items[1])
        } else if items[0] == Tree::Text("pause"@) && items.len() == 1 {
            Some(DecisionView::Pause)
        } else if items[0] == Tree::Text("done"@) && items.len() == 1 {
            Some(DecisionView::Done)
        } else {
            None
        },
        _ => None,
    }
}

/// The decision that the content of the file states, where it is there.
pub open spec fn result_in(content: Option<Seq<char>>) -> Option<DecisionView> {
    match content {
        Some(text) => match json_read(text) {
            Ok(t) => decision_in(t),
            Err(_) => None,
        },
        None => None,
    }
}

/// A decision that its file keeps: its parameters are not null, are not nested
/// too deep, and hold no number that is read from its text as another one.
pub open spec fn kept(d: DecisionView) -> bool {
    &&& d matches DecisionView::To { params, .. } ==> params != Some(Tree::Null)
    &&& reads_back(decision_tree(d), NESTING as int)
}

/// The value that states a decision states that one and no other, unless its
/// parameters are null.
pub proof fn law_decision_reads_back(d: DecisionView)
    requires
        d matches DecisionView::To { params, .. } ==> params != Some(Tree::Null),
    ensures
        decision_in(decision_tree(d)) == Some(d),
{
    reveal_strlit("action");
    reveal_strlit("op");
    reveal_strlit("params");
    reveal_strlit("after");
    reveal_strlit("to");
    reveal_strlit("retry");
    reveal_strlit("pause");
    reveal_strlit("done");
    let m = decision_members(d);
    lemma_members_found(m);
    assert("action"@[0] != "params"@[0]);
    assert("retry"@[0] != "pause"@[0]);
    assert(m[0].0 == "action"@);
    if let DecisionView::To { params, .. } = d {
        assert(m[1].0 == "op"@);
        if params is Some {
            assert(m[2].0 == "params"@);
            assert(under(decision_tree(d), "params"@) == params->0);
            assert(given(params->0) == params);
        } else {
            assert(member_of(m, "params"@) is None);
        }
        assert(under(decision_tree(d), "op"@) == m[1].1);
    } else if d is Retry {
        assert(m[1].0 == "after"@);
        assert(under(decision_tree(d), "after"@) == m[1].1);
        assert("retry"@ != "to"@);
    } else {
        assert("pause"@.len() == 5 && "to"@.len() == 2 && "done"@.len() == 4);
    }
}

/// The first three members of an object are found by their names.
proof fn lemma_members_found(m: Seq<(Seq<char>, Tree)>)
    ensures
        m.len() > 0 ==> member_of(m, m[0].0) == Some(m[0].1),
        m.len() > 1 && m[0].0 != m[1].0 ==> member_of(m, m[1].0) == Some(m[1].1),
        m.len() > 2 && m[0].0 != m[2].0 && m[1].0 != m[2].0 ==> member_of(m, m[2].0) == Some(
            m[2].1,
        ),
        forall|n: Seq<char>|
            m.len() <= 3 && (forall|i: int| 0 <= i < m.len() ==> (#[trigger] m[i]).0 != n)
                ==> #[trigger] member_of(m, n) is None,
{
    reveal_with_fuel(member_of, 4);
    if m.len() > 1 {
        assert(m.drop_first()[0] == m[1]);
    }
    if m.len() > 2 {
        assert(m.drop_first().drop_first()[0] == m[2]);
    }
}

/// A decision without parameters is always kept.
pub proof fn law_plain_decision_kept(d: DecisionView)
    requires
        d matches DecisionView::To { params, .. } ==> params is None,
    ensures
        kept(d),
{
    if let DecisionView::Retry { after: Some(n) } = d {
        lemma_decimal_value(n as nat);
        let text = decimal(n as nat);
        assert forall|i: int| 0 <= i < text.len() implies is_digit(#[trigger] text[i])
            || text[i] == '-' by {
            assert(all_digits(text));
        }
        assert(whole_text(text));
    }
    let m = decision_members(d);
    assert forall|i: int| 0 <= i < m.len() implies reads_back(
        (#[trigger] m[i]).1,
        NESTING as int - 1,
    ) by {}
}

fn delay(after: Option<u64>) -> (r: Json)
    ensures
        r.deep_view() == delay_tree(after),
{
    match after {
        Some(n) => Json::Number(Number { whole: Some(n), text: decimal_text(n) }),
        None => Json::Null,
    }
}

proof fn lemma_names_increase(d: DecisionView)
    ensures
        increasing(decision_members(d)),
{
    reveal_strlit("action");
    reveal_strlit("op");
    reveal_strlit("params");
    reveal_strlit("after");
    reveal_with_fuel(in_order, 3);
    assert("action"@.drop_first()[0] == 'c');
    assert("after"@.drop_first()[0] == 'f');
}

/// The value that states a decision.
fn decision_value(decision: &Decision) -> (r: serde_json::Value)
    ensures
        json_tree(r) == decision_tree(decision@),
{
    proof {
        lemma_names_increase(decision@);
    }
    let r = match decision {
        Decision::To { op, params } => {
            let action = to_value(&Json::Text("to".to_string()));
            let name = to_value(&Json::Text(op.clone()));
            let mut members: Vec<(&str, &serde_json::Value)> = Vec::new();
            members.push(("action", &action));
            members.push(("op", &name));
            if let Some(p) = params {
                members.push(("params", p));
            }
            assert(named_trees(members@) =~= decision_members(decision@));
            object_value(&members)
        },
        Decision::Retry { after } => {
            let action = to_value(&Json::Text("retry".to_string()));
            let wait = to_value(&delay(*after));
            let mut members: Vec<(&str, &serde_json::Value)> = Vec::new();
            members.push(("action", &action));
            members.push(("after", &wait));
            assert(named_trees(members@) =~= decision_members(decision@));
            object_value(&members)
        },
        Decision::Pause => {
            let action = to_value(&Json::Text("pause".to_string()));
            let mut members: Vec<(&str, &serde_json::Value)> = Vec::new();
            members.push(("action", &action));
            assert(named_trees(members@) =~= decision_members(decision@));
            object_value(&members)
        },
        Decision::Done => {
            let action = to_value(&Json::Text("done".to_string()));
            let mut members: Vec<(&str, &serde_json::Value)> = Vec::new();
            members.push(("action", &action));
            assert(named_trees(members@) =~= decision_members(decision@));
            object_value(&members)
        },
    };
    r
}

/// What is done to leave a decision: its text takes the place of an earlier
/// one. What is then read from the file is that decision, where it is kept.
pub fn write_result_to(workspace: &str, decision: &Decision) -> (r: Vec<FileStep>)
    ensures
        r.deep_view() == seq![
            FileStepView::MakeDir(workspace@),
            FileStepView::Write {
                path: result_file(workspace@),
                text: result_text(decision@),
            },
        ],
        kept(decision@) ==> result_in(Some(r.deep_view()[1]->text)) == Some(decision@),
{
    let json = print_value(&decision_value(decision));
    proof {
        if kept(decision@) {
            law_decision_reads_back(decision@);
        }
    }
    let r = vec![
        FileStep::MakeDir(workspace.to_string()),
        FileStep::Write { path: result_path(workspace), text: json },
    ];
    assert(r.deep_view() =~= seq![
        FileStepView::MakeDir(workspace@),
        FileStepView::Write { path: result_file(workspace@), text: result_text(decision@) },
    ]);
    r
}

/// Why a decision cannot be read.
pub enum ResultError {
    /// There is no file.
    Missing,
    /// Its content is no JSON: this is wrong with it.
    Unreadable(String),
    /// Its content states no decision.
    Undecided,
}

impl ResultError {
    /// The error in words.
    pub fn message(&self) -> (r: String)
        ensures
            r@ == (match self {
                ResultError::Missing => "no result (missing result.json in workspace)"@,
                _ => "parsing result"@,
            }),
    {
        match self {
            ResultError::Missing => "no result (missing result.json in workspace)".to_string(),
            _ => "parsing result".to_string(),
        }
    }
}

fn is_word(j: &Json, word: &str) -> (r: bool)
    ensures
        r == (j.deep_view() == Tree::Text(word@)),
{
    match j {
        Json::Text(s) => same(s, word),
        _ => false,
    }
}

fn decide_to(op: &Json, params: Option<serde_json::Value>) -> (r: Option<Decision>)
    ensures
        ({
            let tree = match params {
                Some(p) => json_tree(p),
                None => Tree::Null,
            };
            match to_in(op.deep_view(), tree) {
                Some(d) => r matches Some(x) && x@ == d,
                None => r is None,
            }
        }),
{
    match op {
        Json::Text(name) => {
            let params = match params {
                Some(p) => match from_value(&p) {
                    Json::Null => None,
                    _ => Some(p),
                },
                None => None,
            };
            Some(Decision::To { op: name.clone(), params })
        },
        _ => None,
    }
}

fn decide_retry(after: &Json) -> (r: Option<Decision>)
    ensures
        match retry_in(after.deep_view()) {
            Some(d) => r matches Some(x) && x@ == d,
            None => r is None,
        },
{
    match after {
        Json::Null => Some(Decision::Retry { after: None }),
        Json::Number(n) => match n.whole {
            Some(w) => Some(Decision::Retry { after: Some(w) }),
            None => None,
        },
        _ => None,
    }
}

fn part<'a>(j: &'a Json, name: &str, none: &'a Json) -> (r: &'a Json)
    requires
        none.deep_view() == Tree::Null,
    ensures
        r.deep_view() == under(j.deep_view(), name@),
{
    match get(j, name) {
        Some(v) => v,
        None => none,
    }
}

/// The decision that a value states.
pub fn decision_of(v: &serde_json::Value) -> (r: Option<Decision>)
    ensures
        match decision_in(json_tree(*v)) {
            Some(d) => r matches Some(x) && x@ == d,
            None => r is None,
        },
{
    proof {
        reveal_strlit("to");
        reveal_strlit("retry");
        reveal_strlit("pause");
        reveal_strlit("done");
    }
    let none = Json::Null;
    let j = from_value(v);
    match &j {
        Json::Object(_) => {
            let action = part(&j, "action", &none);
            if is_word(action, "to") {
                decide_to(part(&j, "op", &none), member_value(v, "params"))
            } else if is_word(action, "retry") {
                decide_retry(part(&j, "after", &none))
            } else if is_word(action, "pause") {
                Some(Decision::Pause)
            } else if is_word(action, "done") {
                Some(Decision::Done)
            } else {
                None
            }
        },
        Json::List(items) => {
            assert(j.deep_view()->List_0 =~= items_of(items@));
            if items.len() == 0 {
                None
            } else if is_word(&items[0], "to") {
                if items.len() == 2 || items.len() == 3 {
                    decide_to(&items[1], item_value(v, 2))
                } else {
                    None
                }
            } else if is_word(&items[0], "retry") && items.len() == 2 {
                decide_retry(&items[1])
            } else if is_word(&items[0], "pause") && items.len() == 1 {
                Some(Decision::Pause)
            } else if is_word(&items[0], "done") && items.len() == 1 {
                Some(Decision::Done)
            } else {
                None
            }
        },
        _ => None,
    }
}

/// The decision of an op, from the content of the file that it leaves it in. A
/// JSON value has every name once: of a member that stands twice in the content
/// it keeps the last, so a content that repeats one is to be refused before.
pub fn read_result_from(content: Option<&str>) -> (r: Result<Decision, ResultError>)
    ensures
        match result_in(content.deep_view()) {
            Some(d) => r matches Ok(x) && x@ == d,
            None => match content {
                None => r matches Err(ResultError::Missing),
                Some(text) => match json_read(text@) {
                    Err(m) => r matches Err(ResultError::Unreadable(e)) && e@ == m,
                    Ok(_) => r matches Err(ResultError::Undecided),
                },
            },
        },
{
    match content {
        None => Err(ResultError::Missing),
        Some(text) => match read_value(text) {
            Err(e) => Err(ResultError::Unreadable(e)),
            Ok(v) => match decision_of(&v) {
                Some(d) => Ok(d),
                None => Err(ResultError::Undecided),
            },
        },
    }
}

/// A file asks for a pause or for the end by that word alone, with or without
/// white space around it; any other file is no signal.
pub proof fn law_signal_by_its_word(content: Seq<char>)
    ensures
        signal_of(content) == Some(Signal::Pause) <==> trimmed(content) == "pause"@,
        signal_of(content) == Some(Signal::Done) <==> trimmed(content) == "done"@,
        signal_of(content) is None <==> trimmed(content) != "pause"@ && trimmed(content)
            != "done"@,
        signal_file() == joined_path("/tmp/cellx"@, "flow-signal"@),
{
    reveal_strlit("pause");
    reveal_strlit("done");
    assert("pause"@.len() == 5 && "done"@.len() == 4);
}

/// An object states the decision that its action names: to go on with the op
/// that it names and the parameters that it gives, to run the op again after
/// the delay that it gives, to pause or to be done. With any other action, or
/// without what the action needs, it states none.
pub proof fn law_object_states_decision(m: Seq<(Seq<char>, Tree)>)
    ensures
        ({
            let t = Tree::Object(m);
            let action = under(t, "action"@);
            let stated = decision_in(t);
            &&& action == Tree::Text("to"@) ==> (match under(t, "op"@) {
                Tree::Text(op) => stated == Some(
                    DecisionView::To {
                        op,
                        params: if under(t, "params"@) == Tree::Null {
                            None
                        } else {
                            Some(under(t, "params"@))
                        },
                    },
                ),
                _ => stated is None,
            })
            &&& action == Tree::Text("retry"@) ==> (match under(t, "after"@) {
                Tree::Null => stated == Some(DecisionView::Retry { after: None }),
                Tree::Number { whole: Some(n), .. } => stated == Some(
                    DecisionView::Retry { after: Some(n) },
                ),
                _ => stated is None,
            })
            &&& action == Tree::Text("pause"@) <==> stated == Some(DecisionView::Pause)
            &&& action == Tree::Text("done"@) <==> stated == Some(DecisionView::Done)
            &&& stated is Some ==> action == Tree::Text("to"@) || action == Tree::Text("retry"@)
                || action == Tree::Text("pause"@) || action == Tree::Text("done"@)
        }),
{
    lemma_actions_differ();
}

proof fn lemma_actions_differ()
    ensures
        "to"@ != "retry"@ && "to"@ != "pause"@ && "to"@ != "done"@,
        "retry"@ != "pause"@ && "retry"@ != "done"@ && "pause"@ != "done"@,
{
    reveal_strlit("to");
    reveal_strlit("retry");
    reveal_strlit("pause");
    reveal_strlit("done");
    assert("to"@.len() == 2 && "retry"@.len() == 5 && "pause"@.len() == 5 && "done"@.len() == 4);
    assert("retry"@[0] == 'r' && "pause"@[0] == 'p');
}

/// A list states the same decisions as an object, by place: the action, and
/// then what it needs and no more.
pub proof fn law_list_states_decision(op: Seq<char>, params: Tree, n: u64, text: Seq<char>)
    requires
        params != Tree::Null,
    ensures
        ({
            let to = Tree::Text("to"@);
            let retry = Tree::Text("retry"@);
            let delay = Tree::Number { whole: Some(n), text };
            &&& decision_in(Tree::List(seq![to, Tree::Text(op)])) == Some(
                DecisionView::To { op, params: None },
            )
            &&& decision_in(Tree::List(seq![to, Tree::Text(op), params])) == Some(
                DecisionView::To { op, params: Some(params) },
            )
            &&& decision_in(Tree::List(seq![to])) is None
            &&& decision_in(Tree::List(seq![retry, Tree::Null])) == Some(
                DecisionView::Retry { after: None },
            )
            &&& decision_in(Tree::List(seq![retry, delay])) == Some(
                DecisionView::Retry { after: Some(n) },
            )
            &&& decision_in(Tree::List(seq![Tree::Text("pause"@)])) == Some(DecisionView::Pause)
            &&& decision_in(Tree::List(seq![Tree::Text("done"@)])) == Some(DecisionView::Done)
            &&& decision_in(Tree::List(Seq::<Tree>::empty())) is None
            &&& decision_in(Tree::Null) is None && decision_in(Tree::Text(op)) is None
        }),
{
    lemma_actions_differ();
}

/// A decision is written under the word for its action, with what it needs
/// under the names for that.
pub proof fn law_decision_written(d: DecisionView)
    ensures
        ({
            let t = decision_tree(d);
            &&& d matches DecisionView::To { op, params } ==> under(t, "action"@) == Tree::Text(
                "to"@,
            ) && under(t, "op"@) == Tree::Text(op) && (params is Some ==> under(t, "params"@)
                == params->0) && (params is None ==> under(t, "params"@) == Tree::Null)
            &&& d matches DecisionView::Retry { after } ==> under(t, "action"@) == Tree::Text(
                "retry"@,
            ) && (after is None ==> under(t, "after"@) == Tree::Null) && (after is Some ==> under(
                t,
                "after"@,
            ) == (Tree::Number { whole: Some(after->0), text: decimal(after->0 as nat) }))
            &&& d == DecisionView::Pause ==> under(t, "action"@) == Tree::Text("pause"@)
            &&& d == DecisionView::Done ==> under(t, "action"@) == Tree::Text("done"@)
        }),
        result_text(d) == json_print(decision_tree(d)),
{
    reveal_strlit("action");
    reveal_strlit("op");
    reveal_strlit("params");
    reveal_strlit("after");
    assert("action"@.len() == 6 && "op"@.len() == 2 && "params"@.len() == 6 && "after"@.len() == 5);
    assert("action"@[0] == 'a' && "params"@[0] == 'p');
    let m = decision_members(d);
    assert(m[0].0 == "action"@);
    crate::json::lemma_member_found(m, 0);
    match d {
        DecisionView::To { op, params } => {
            assert(m[1].0 == "op"@);
            crate::json::lemma_member_found(m, 1);
            if params is Some {
                assert(m[2].0 == "params"@);
                crate::json::lemma_member_found(m, 2);
            } else {
                crate::json::lemma_member_missing(m, "params"@);
            }
        },
        DecisionView::Retry { after } => {
            assert(m[1].0 == "after"@);
            crate::json::lemma_member_found(m, 1);
        },
        _ => {},
    }
}

/// The decision of an op is what the file in its workspace states: none where
/// the file is missing or cannot be read.
pub proof fn law_decision_from_file(text: Seq<char>, workspace: Seq<char>)
    ensures
        json_read(text) matches Ok(t) ==> result_in(Some(text)) == decision_in(t),
        json_read(text) is Err ==> result_in(Some(text)) is None,
        result_in(None) is None,
        result_file(workspace) == joined_path(workspace, "result.json"@),
{
}

/// Each run of a flow has a directory of its own, under the base that the flow
/// names or else the common one: its name and the time at which it began.
pub proof fn law_own_directory_per_run(base: Seq<char>, name: Seq<char>, at: u64, other: u64)
    ensures
        state_dir_of(Some(base), name, at) == joined_path(base, name + "-"@ + decimal(at as nat)),
        state_dir_of(None, name, at) == joined_path(
            "/var/lib/cellx/state"@,
            name + "-"@ + decimal(at as nat),
        ),
        stamped(name, at) == stamped(name, other) ==> at == other,
{
    let n = (name + "-"@).len() as int;
    assert(stamped(name, at).skip(n) == decimal(at as nat));
    assert(stamped(name, other).skip(n) == decimal(other as nat));
    lemma_decimal_value(at as nat);
    lemma_decimal_value(other as nat);
}

/// A saved status is found in the state directory and at the pointer, and both
/// say the same.
pub proof fn law_status_saved_twice(state_dir: Seq<char>, json: Seq<char>)
    ensures
        ({
            let steps = save_steps(state_dir, json);
            &&& steps.len() == 5
            &&& steps[0] == FileStepView::MakeDir(state_dir)
            &&& steps[3] == FileStepView::MakeDir("/tmp/cellx"@)
            &&& steps[4] == (FileStepView::Write {
                path: joined_path("/tmp/cellx"@, "flow.json"@),
                text: json,
            })
        }),
{
}

} // verus!
