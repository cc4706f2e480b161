//! The run of a flow: from op to op until it ends.

use crate::cellx::rules::{resolve_op_rules, resolved, Book, ResolvedRule, ResolvedView};
use crate::flow::config::{FlowConfig, Rule};
use crate::flow::op::{op_allows, Lifecycle, Op};
use crate::flow::state::{
    flow_state_dir, op_workspace, state_dir_of, stamped, Decision, FlowReport, FlowState,
    FlowStatus, Signal, StatusView,
};
use crate::flow::time::{duration_fits, duration_of, parse_duration, timeout_text};
use crate::names::NameMap;
use crate::path::joined_path;
use crate::text::basic::same;
use crate::text::number::{decimal, decimal_text};
use crate::text::order::{ordered, sort};
use vstd::prelude::*;

verus! {

/// How a flow ends.
pub enum FlowOutcome {
    Success,
    Failure(String),
    Stopped,
    Paused,
}

/// How a flow ends.
pub enum OutcomeView {
    Success,
    Failure(Seq<char>),
    Stopped,
    Paused,
}

impl View for FlowOutcome {
    type V = OutcomeView;

    open spec fn view(&self) -> OutcomeView {
        match self {
            FlowOutcome::Success => OutcomeView::Success,
            FlowOutcome::Failure(m) => OutcomeView::Failure(m@),
            FlowOutcome::Stopped => OutcomeView::Stopped,
            FlowOutcome::Paused => OutcomeView::Paused,
        }
    }
}

/// What the run waits for.
pub enum Stage {
    /// Whether there is a signal.
    Signal,
    /// The op, read from its file.
    Load,
    /// The hooks of the op; its rules have been applied.
    Hooks,
    /// The workspace of the op.
    Workspace,
    /// The status on file.
    Save,
    /// The end of the hooks.
    Onion,
    /// The decision of the op.
    Result,
    /// The op once more, to see whether `target` may follow it.
    Check { target: String, params: Option<serde_json::Value> },
    /// Nothing.
    Ended,
}

/// What the run waits for.
pub enum StageView {
    Signal,
    Load,
    Hooks,
    Workspace,
    Save,
    Onion,
    Result,
    Check { target: Seq<char>, params: Option<serde_json::Value> },
    Ended,
}

impl View for Stage {
    type V = StageView;

    open spec fn view(&self) -> StageView {
        match self {
            Stage::Signal => StageView::Signal,
            Stage::Load => StageView::Load,
            Stage::Hooks => StageView::Hooks,
            Stage::Workspace => StageView::Workspace,
            Stage::Save => StageView::Save,
            Stage::Onion => StageView::Onion,
            Stage::Result => StageView::Result,
            Stage::Check { target, params } => StageView::Check {
                target: target@,
                params: *params,
            },
            Stage::Ended => StageView::Ended,
        }
    }
}

/// The run of a flow.
pub struct FlowLoop {
    pub stage: Stage,
    pub current_op: String,
    /// How often the op was run again.
    pub retry_count: u32,
    /// What the op before handed on.
    pub params: Option<serde_json::Value>,
    /// The timeout of the op that was loaded.
    pub timeout: String,
    /// Where the op that was loaded works.
    pub workspace: String,
    pub status: FlowStatus,
}

/// How the run of a flow stands.
pub struct LoopView {
    pub stage: StageView,
    pub current_op: Seq<char>,
    pub retry_count: u32,
    pub params: Option<serde_json::Value>,
    pub timeout: Seq<char>,
    pub workspace: Seq<char>,
    pub status: StatusView,
}

impl View for FlowLoop {
    type V = LoopView;

    open spec fn view(&self) -> LoopView {
        LoopView {
            stage: self.stage@,
            current_op: self.current_op@,
            retry_count: self.retry_count,
            params: self.params,
            timeout: self.timeout@,
            workspace: self.workspace@,
            status: self.status@,
        }
    }
}

/// What has come to pass. Where something went wrong, `error` says what.
pub enum Event {
    /// A signal was looked for.
    Signal(Option<Signal>),
    /// The op was read from its file.
    Loaded(Result<Op, String>),
    /// The rules were applied and the hooks resolved.
    Hooks { error: Option<String>, now: u64 },
    /// The workspace was made.
    Workspace { error: Option<String>, now: u64 },
    /// The status was saved.
    Saved { error: Option<String> },
    /// The hooks were run.
    Ran { error: Option<String>, now: u64 },
    /// The decision was read, where there is one.
    Result(Option<Decision>),
}

/// What is to be done next.
pub enum Action {
    /// Look for a signal, after some seconds where it says so.
    CheckSignal { after: Option<u64> },
    /// Read the op.
    LoadOp { op: String },
    /// Apply the rules and resolve the hooks.
    Apply { rules: ResolvedRule },
    MakeWorkspace { path: String },
    /// Save the status and report it.
    Save,
    RunHooks,
    /// Undo the rules and read the decision of the op.
    ReadResult,
    /// End, and undo the rules first where it says so.
    End { clear: bool, outcome: FlowOutcome },
}

/// What is to be done next.
pub enum ActionView {
    CheckSignal { after: Option<u64> },
    LoadOp { op: Seq<char> },
    Apply { rules: ResolvedView },
    MakeWorkspace { path: Seq<char> },
    Save,
    RunHooks,
    ReadResult,
    End { clear: bool, outcome: OutcomeView },
}

impl View for Action {
    type V = ActionView;

    open spec fn view(&self) -> ActionView {
        match self {
            Action::CheckSignal { after } => ActionView::CheckSignal { after: *after },
            Action::LoadOp { op } => ActionView::LoadOp { op: op@ },
            Action::Apply { rules } => ActionView::Apply { rules: rules@ },
            Action::MakeWorkspace { path } => ActionView::MakeWorkspace { path: path@ },
            Action::Save => ActionView::Save,
            Action::RunHooks => ActionView::RunHooks,
            Action::ReadResult => ActionView::ReadResult,
            Action::End { clear, outcome } => ActionView::End { clear: *clear, outcome: outcome@ },
        }
    }
}

/// The event is the one that the run waits for, and its time does not lie
/// before the start of the op.
pub open spec fn awaited(v: LoopView, e: Event) -> bool {
    match v.stage {
        StageView::Signal => e is Signal,
        StageView::Load => e is Loaded,
        StageView::Hooks => e is Hooks,
        StageView::Workspace => e is Workspace,
        StageView::Save => e is Saved,
        StageView::Onion => e matches Event::Ran { error, now } && now >= v.status.op_started_at
            && (error is None ==> duration_fits(v.timeout)),
        StageView::Result => e is Result,
        StageView::Check { .. } => e is Loaded,
        StageView::Ended => false,
    }
}

/// The run ends as `outcome` says.
pub open spec fn ended(v: LoopView, clear: bool, outcome: OutcomeView) -> (LoopView, ActionView) {
    (LoopView { stage: StageView::Ended, ..v }, ActionView::End { clear, outcome })
}

/// The run goes on in the stage `stage` after doing `action`.
pub open spec fn goes_on(v: LoopView, stage: StageView, action: ActionView) -> (
    LoopView,
    ActionView,
) {
    (LoopView { stage, ..v }, action)
}

/// A signal was looked for.
pub open spec fn after_signal(v: LoopView, signal: Option<Signal>) -> (LoopView, ActionView) {
    match signal {
        Some(Signal::Pause) => ended(v, false, OutcomeView::Paused),
        Some(Signal::Done) => ended(v, false, OutcomeView::Stopped),
        None => goes_on(v, StageView::Load, ActionView::LoadOp { op: v.current_op }),
    }
}

/// The op was read from its file.
pub open spec fn after_load(v: LoopView, flow: FlowConfig, cell: Book, loaded: Result<Op, String>) -> (
    LoopView,
    ActionView,
) {
    match loaded {
        Err(e) => ended(
            v,
            false,
            OutcomeView::Failure("loading op "@ + v.current_op + ": "@ + e@),
        ),
        Ok(op) => if op.config.on is Some {
            ended(
                v,
                false,
                OutcomeView::Failure(
                    "op '"@ + v.current_op + "' is a lifecycle op, not a regular op"@,
                ),
            )
        } else {
            (
                LoopView {
                    stage: StageView::Hooks,
                    timeout: timeout_text(op.config, flow.flow),
                    ..v
                },
                ActionView::Apply {
                    rules: resolved(op.config.rules.deep_view(), flow.rules.deep_view(), cell),
                },
            )
        },
    }
}

/// The hooks were resolved.
pub open spec fn after_hooks(v: LoopView, error: Option<String>, now: u64) -> (
    LoopView,
    ActionView,
) {
    match error {
        Some(e) => ended(
            v,
            true,
            OutcomeView::Failure("resolving hooks for "@ + v.current_op + ": "@ + e@),
        ),
        None => {
            let path = joined_path(v.status.state_dir, stamped(v.current_op, now));
            (
                LoopView { stage: StageView::Workspace, workspace: path, ..v },
                ActionView::MakeWorkspace { path },
            )
        },
    }
}

/// The workspace was made.
pub open spec fn after_workspace(v: LoopView, error: Option<String>, now: u64) -> (
    LoopView,
    ActionView,
) {
    match error {
        Some(e) => ended(v, true, OutcomeView::Failure("creating workspace: "@ + e@)),
        None => (
            LoopView {
                stage: StageView::Save,
                status: StatusView { current_op: v.current_op, op_started_at: now, ..v.status },
                ..v
            },
            ActionView::Save,
        ),
    }
}

/// The status was saved.
pub open spec fn after_save(v: LoopView, error: Option<String>) -> (LoopView, ActionView) {
    match error {
        Some(e) => ended(v, false, OutcomeView::Failure("saving state: "@ + e@)),
        None => goes_on(v, StageView::Onion, ActionView::RunHooks),
    }
}

/// The message of an op that took too long.
pub open spec fn timed_out(op: Seq<char>, duration: nat, timeout: nat) -> Seq<char> {
    "op '"@ + op + "' timed out ("@ + decimal(duration) + "s > "@ + decimal(timeout) + "s)"@
}

/// The hooks were run.
pub open spec fn after_hooks_ran(v: LoopView, error: Option<String>, now: u64) -> (
    LoopView,
    ActionView,
) {
    let duration = (now - v.status.op_started_at) as nat;
    match error {
        Some(e) => ended(v, true, OutcomeView::Failure("hook execution: "@ + e@)),
        None => if duration_of(v.timeout) is Some && duration > duration_of(v.timeout)->0 {
            ended(
                v,
                true,
                OutcomeView::Failure(timed_out(v.current_op, duration, duration_of(v.timeout)->0)),
            )
        } else {
            goes_on(v, StageView::Result, ActionView::ReadResult)
        },
    }
}

/// The decision was read.
pub open spec fn after_result(v: LoopView, max_retries: u32, decision: Option<Decision>) -> (
    LoopView,
    ActionView,
) {
    match decision {
        None => ended(
            v,
            false,
            OutcomeView::Failure(
                "no transition decision for op '"@ + v.current_op
                    + "' (missing result.json in workspace)"@,
            ),
        ),
        Some(Decision::To { op, params }) => goes_on(
            v,
            StageView::Check { target: op@, params },
            ActionView::LoadOp { op: v.current_op },
        ),
        Some(Decision::Retry { after }) => if v.retry_count >= max_retries {
            ended(
                v,
                false,
                OutcomeView::Failure(
                    "op '"@ + v.current_op + "' exceeded max retries ("@ + decimal(
                        max_retries as nat,
                    ) + ")"@,
                ),
            )
        } else {
            (
                LoopView {
                    stage: StageView::Signal,
                    retry_count: (v.retry_count + 1) as u32,
                    ..v
                },
                ActionView::CheckSignal { after },
            )
        },
        Some(Decision::Pause) => ended(v, false, OutcomeView::Paused),
        Some(Decision::Done) => ended(v, false, OutcomeView::Success),
    }
}

/// The op was read once more, to see whether `target` may follow it.
pub open spec fn after_check(
    v: LoopView,
    target: Seq<char>,
    params: Option<serde_json::Value>,
    loaded: Result<Op, String>,
) -> (LoopView, ActionView) {
    match loaded {
        Err(e) => ended(v, false, OutcomeView::Failure("loading op: "@ + e@)),
        Ok(op) => if !op.config.next.deep_view().contains(target) {
            ended(
                v,
                false,
                OutcomeView::Failure(
                    "invalid transition: "@ + v.current_op + " -> "@ + target
                        + " (not in next list)"@,
                ),
            )
        } else {
            (
                LoopView {
                    stage: StageView::Signal,
                    current_op: target,
                    params,
                    retry_count: 0,
                    ..v
                },
                ActionView::CheckSignal { after: None },
            )
        },
    }
}

/// How the run stands after the event, and what is to be done.
pub open spec fn loop_next(v: LoopView, flow: FlowConfig, cell: Book, e: Event) -> (
    LoopView,
    ActionView,
) {
    match (v.stage, e) {
        (StageView::Signal, Event::Signal(s)) => after_signal(v, s),
        (StageView::Load, Event::Loaded(l)) => after_load(v, flow, cell, l),
        (StageView::Hooks, Event::Hooks { error, now }) => after_hooks(v, error, now),
        (StageView::Workspace, Event::Workspace { error, now }) => after_workspace(v, error, now),
        (StageView::Save, Event::Saved { error }) => after_save(v, error),
        (StageView::Onion, Event::Ran { error, now }) => after_hooks_ran(v, error, now),
        (StageView::Result, Event::Result(d)) => after_result(v, flow.flow.max_retries, d),
        (StageView::Check { target, params }, Event::Loaded(l)) => after_check(
            v,
            target,
            params,
            l,
        ),
        _ => arbitrary(),
    }
}

/// The run at its beginning.
pub open spec fn loop_start(
    status: StatusView,
    current_op: Seq<char>,
    params: Option<serde_json::Value>,
) -> LoopView {
    LoopView {
        stage: StageView::Signal,
        current_op,
        retry_count: 0,
        params,
        timeout: Seq::<char>::empty(),
        workspace: Seq::<char>::empty(),
        status,
    }
}

impl FlowLoop {
    /// The run at its beginning. The first thing to do is to look for a signal.
    pub fn new(
        status: FlowStatus,
        current_op: String,
        params: Option<serde_json::Value>,
    ) -> (r: Self)
        ensures
            r@ == loop_start(status@, current_op@, params),
    {
        FlowLoop {
            stage: Stage::Signal,
            current_op,
            retry_count: 0,
            params,
            timeout: String::new(),
            workspace: String::new(),
            status,
        }
    }

    fn end(self, clear: bool, outcome: FlowOutcome) -> (r: (FlowLoop, Action))
        ensures
            (r.0@, r.1@) == ended(self@, clear, outcome@),
    {
        (FlowLoop { stage: Stage::Ended, ..self }, Action::End { clear, outcome })
    }

    fn fail(self, clear: bool, what: &str, error: &str) -> (r: (FlowLoop, Action))
        ensures
            (r.0@, r.1@) == ended(self@, clear, OutcomeView::Failure(what@ + error@)),
    {
        let mut m = what.to_string();
        m.append(error);
        self.end(clear, FlowOutcome::Failure(m))
    }

    fn loaded(
        self,
        flow: &FlowConfig,
        cell_rules: &NameMap<Rule>,
        loaded: Result<Op, String>,
    ) -> (r: (FlowLoop, Action))
        ensures
            (r.0@, r.1@) == after_load(self@, *flow, cell_rules.deep_view(), loaded),
    {
        match loaded {
            Err(e) => {
                let mut m = "loading op ".to_string();
                m.append(&self.current_op);
                m.append(": ");
                m.append(&e);
                self.end(false, FlowOutcome::Failure(m))
            },
            Ok(op) => {
                if op.config.on.is_some() {
                    let mut m = "op '".to_string();
                    m.append(&self.current_op);
                    m.append("' is a lifecycle op, not a regular op");
                    return self.end(false, FlowOutcome::Failure(m));
                }
                let rules = resolve_op_rules(&op, &flow.rules, cell_rules);
                let timeout = match op.config.timeout {
                    Some(t) => t,
                    None => flow.flow.timeout.clone(),
                };
                (
                    FlowLoop { stage: Stage::Hooks, timeout, ..self },
                    Action::Apply { rules },
                )
            },
        }
    }

    fn hooks_found(self, error: Option<String>, now: u64) -> (r: (FlowLoop, Action))
        ensures
            (r.0@, r.1@) == after_hooks(self@, error, now),
    {
        match error {
            Some(e) => {
                let mut m = "resolving hooks for ".to_string();
                m.append(&self.current_op);
                m.append(": ");
                m.append(&e);
                self.end(true, FlowOutcome::Failure(m))
            },
            None => {
                let path = op_workspace(&self.status.state_dir, &self.current_op, now);
                (
                    FlowLoop { stage: Stage::Workspace, workspace: path.clone(), ..self },
                    Action::MakeWorkspace { path },
                )
            },
        }
    }

    fn workspace_made(self, error: Option<String>, now: u64) -> (r: (FlowLoop, Action))
        ensures
            (r.0@, r.1@) == after_workspace(self@, error, now),
    {
        match error {
            Some(e) => self.fail(true, "creating workspace: ", &e),
            None => {
                let status = FlowStatus {
                    current_op: self.current_op.clone(),
                    op_started_at: now,
                    ..self.status
                };
                (FlowLoop { stage: Stage::Save, status, ..self }, Action::Save)
            },
        }
    }

    fn hooks_ran(self, error: Option<String>, now: u64) -> (r: (FlowLoop, Action))
        requires
            now >= self.status.op_started_at,
            error is None ==> duration_fits(self.timeout@),
        ensures
            (r.0@, r.1@) == after_hooks_ran(self@, error, now),
    {
        let duration: u64 = now - self.status.op_started_at;
        match error {
            Some(e) => self.fail(true, "hook execution: ", &e),
            None => {
                if let Some(timeout) = parse_duration(&self.timeout) {
                    if duration > timeout {
                        let mut m = "op '".to_string();
                        m.append(&self.current_op);
                        m.append("' timed out (");
                        m.append(&decimal_text(duration));
                        m.append("s > ");
                        m.append(&decimal_text(timeout));
                        m.append("s)");
                        return self.end(true, FlowOutcome::Failure(m));
                    }
                }
                (FlowLoop { stage: Stage::Result, ..self }, Action::ReadResult)
            },
        }
    }

    fn decided(self, max_retries: u32, decision: Option<Decision>) -> (r: (FlowLoop, Action))
        ensures
            (r.0@, r.1@) == after_result(self@, max_retries, decision),
    {
        match decision {
            None => {
                let mut m = "no transition decision for op '".to_string();
                m.append(&self.current_op);
                m.append("' (missing result.json in workspace)");
                self.end(false, FlowOutcome::Failure(m))
            },
            Some(Decision::To { op, params }) => {
                let current = self.current_op.clone();
                (
                    FlowLoop { stage: Stage::Check { target: op, params }, ..self },
                    Action::LoadOp { op: current },
                )
            },
            Some(Decision::Retry { after }) => {
                if self.retry_count >= max_retries {
                    let mut m = "op '".to_string();
                    m.append(&self.current_op);
                    m.append("' exceeded max retries (");
                    m.append(&decimal_text(max_retries as u64));
                    m.append(")");
                    return self.end(false, FlowOutcome::Failure(m));
                }
                let retry_count: u32 = self.retry_count + 1;
                (
                    FlowLoop { stage: Stage::Signal, retry_count, ..self },
                    Action::CheckSignal { after },
                )
            },
            Some(Decision::Pause) => self.end(false, FlowOutcome::Paused),
            Some(Decision::Done) => self.end(false, FlowOutcome::Success),
        }
    }

    fn checked(
        self,
        target: String,
        params: Option<serde_json::Value>,
        loaded: Result<Op, String>,
    ) -> (r: (FlowLoop, Action))
        ensures
            (r.0@, r.1@) == after_check(self@, target@, params, loaded),
    {
        match loaded {
            Err(e) => self.fail(false, "loading op: ", &e),
            Ok(op) => {
                if !op_allows(&op, &target) {
                    let mut m = "invalid transition: ".to_string();
                    m.append(&self.current_op);
                    m.append(" -> ");
                    m.append(&target);
                    m.append(" (not in next list)");
                    return self.end(false, FlowOutcome::Failure(m));
                }
                (
                    FlowLoop {
                        stage: Stage::Signal,
                        current_op: target,
                        params,
                        retry_count: 0,
                        ..self
                    },
                    Action::CheckSignal { after: None },
                )
            },
        }
    }
}

/// How the run stands after the event it waits for, and what is to be done.
pub fn run_loop(
    run: FlowLoop,
    flow: &FlowConfig,
    cell_rules: &NameMap<Rule>,
    event: Event,
) -> (r: (FlowLoop, Action))
    requires
        awaited(run@, event),
    ensures
        (r.0@, r.1@) == loop_next(run@, *flow, cell_rules.deep_view(), event),
{
    let FlowLoop { stage, current_op, retry_count, params, timeout, workspace, status } = run;
    let rest = FlowLoop {
        stage: Stage::Ended,
        current_op,
        retry_count,
        params,
        timeout,
        workspace,
        status,
    };
    match (stage, event) {
        (Stage::Signal, Event::Signal(s)) => match s {
            Some(Signal::Pause) => rest.end(false, FlowOutcome::Paused),
            Some(Signal::Done) => rest.end(false, FlowOutcome::Stopped),
            None => {
                let op = rest.current_op.clone();
                (FlowLoop { stage: Stage::Load, ..rest }, Action::LoadOp { op })
            },
        },
        (Stage::Load, Event::Loaded(l)) => rest.loaded(flow, cell_rules, l),
        (Stage::Hooks, Event::Hooks { error, now }) => rest.hooks_found(error, now),
        (Stage::Workspace, Event::Workspace { error, now }) => rest.workspace_made(error, now),
        (Stage::Save, Event::Saved { error }) => match error {
            Some(e) => rest.fail(false, "saving state: ", &e),
            None => (FlowLoop { stage: Stage::Onion, ..rest }, Action::RunHooks),
        },
        (Stage::Onion, Event::Ran { error, now }) => rest.hooks_ran(error, now),
        (Stage::Result, Event::Result(d)) => rest.decided(flow.flow.max_retries, d),
        (Stage::Check { target, params }, Event::Loaded(l)) => rest.checked(target, params, l),
        _ => vstd::pervasive::unreached(),
    }
}

// What the run keeps

/// An op is run again at most as often as the flow allows.
pub proof fn law_retries_bounded(v: LoopView, flow: FlowConfig, cell: Book, e: Event)
    requires
        awaited(v, e),
        v.retry_count <= flow.flow.max_retries,
    ensures
        loop_next(v, flow, cell, e).0.retry_count <= flow.flow.max_retries,
        loop_start(v.status, v.current_op, v.params).retry_count <= flow.flow.max_retries,
{
}

/// The run goes from one op to another only where the file of the first lists
/// the second among the ops that may follow. The count of retries then starts
/// anew, and the new op gets the parameters of the decision.
pub proof fn law_transitions_listed(v: LoopView, flow: FlowConfig, cell: Book, e: Event)
    requires
        awaited(v, e),
        loop_next(v, flow, cell, e).0.current_op != v.current_op,
    ensures
        v.stage is Check,
        loop_next(v, flow, cell, e).0.current_op == v.stage->target,
        loop_next(v, flow, cell, e).0.params == v.stage->Check_params,
        loop_next(v, flow, cell, e).0.retry_count == 0,
        e matches Event::Loaded(Ok(op)) && op.config.next.deep_view().contains(v.stage->target),
{
}

/// A lifecycle op is never run as an op of the flow: the run ends, and the
/// rules of that op are not applied.
pub proof fn law_lifecycle_op_refused(v: LoopView, flow: FlowConfig, cell: Book, op: Op)
    requires
        v.stage is Load,
        op.config.on is Some,
    ensures
        loop_next(v, flow, cell, Event::Loaded(Ok(op))).0.stage is Ended,
        loop_next(v, flow, cell, Event::Loaded(Ok(op))).1 matches ActionView::End {
            clear,
            outcome,
        } && !clear && outcome is Failure,
{
}

/// The rules of an op are in force in this stage.
pub open spec fn in_force(stage: StageView) -> bool {
    stage is Hooks || stage is Workspace || stage is Save || stage is Onion
}

/// What is done undoes the rules.
pub open spec fn undoes(action: ActionView) -> bool {
    match action {
        ActionView::ReadResult => true,
        ActionView::End { clear, .. } => clear,
        _ => false,
    }
}

/// Rules come into force when they are applied, and once they are, the run
/// either keeps them or undoes them. (Where the status cannot be saved, the
/// run ends with the rules in force.)
pub proof fn law_rules_undone(v: LoopView, flow: FlowConfig, cell: Book, e: Event)
    requires
        awaited(v, e),
        !(v.stage is Save && e matches Event::Saved { error: Some(_) }),
    ensures
        in_force(v.stage) && !in_force(loop_next(v, flow, cell, e).0.stage) ==> undoes(
            loop_next(v, flow, cell, e).1,
        ),
        !in_force(v.stage) && in_force(loop_next(v, flow, cell, e).0.stage) ==> loop_next(
            v,
            flow,
            cell,
            e,
        ).1 is Apply,
{
}

/// The hooks of an op are run only after its status was saved, its workspace
/// made and its rules applied, in this order backwards.
pub proof fn law_stages_in_order(v: LoopView, flow: FlowConfig, cell: Book, e: Event)
    requires
        awaited(v, e),
    ensures
        loop_next(v, flow, cell, e).1 is RunHooks <==> v.stage is Save && e matches Event::Saved {
            error: None,
        },
        loop_next(v, flow, cell, e).1 is Save ==> v.stage is Workspace,
        loop_next(v, flow, cell, e).1 is MakeWorkspace ==> v.stage is Hooks,
        loop_next(v, flow, cell, e).1 is Apply ==> v.stage is Load && (e matches Event::Loaded(
            Ok(op),
        ) && op.config.on is None),
{
}

/// What goes wrong at an event: the op cannot be read or is for the end of the
/// flow, something could not be done, the op took longer than it may, it left
/// no decision or one that the flow does not allow.
pub open spec fn goes_wrong(v: LoopView, flow: FlowConfig, e: Event) -> bool {
    match e {
        Event::Loaded(Err(_)) => true,
        Event::Loaded(Ok(op)) => match v.stage {
            StageView::Check { target, .. } => !op.config.next.deep_view().contains(target),
            _ => op.config.on is Some,
        },
        Event::Hooks { error, .. } => error is Some,
        Event::Workspace { error, .. } => error is Some,
        Event::Saved { error } => error is Some,
        Event::Ran { error, now } => error is Some || (duration_of(v.timeout) matches Some(t) && now
            > v.status.op_started_at + t),
        Event::Result(None) => true,
        Event::Result(Some(Decision::Retry { .. })) => v.retry_count == flow.flow.max_retries,
        _ => false,
    }
}

/// A run succeeds only by the decision that the flow is done. It is paused by
/// that decision or by the signal to pause, and stopped by the signal that says
/// so. It fails when something goes wrong, and at no other event does it end.
pub proof fn law_how_runs_end(v: LoopView, flow: FlowConfig, cell: Book, e: Event)
    requires
        awaited(v, e),
        v.retry_count <= flow.flow.max_retries,
    ensures
        ({
            let (after, action) = loop_next(v, flow, cell, e);
            let outcome = action->outcome;
            let ends = action is End;
            &&& after.stage is Ended <==> ends
            &&& ends && outcome is Success <==> (e matches Event::Result(Some(Decision::Done)))
            &&& ends && outcome is Paused <==> ((e matches Event::Result(Some(Decision::Pause))) || (
            e matches Event::Signal(Some(Signal::Pause))))
            &&& ends && outcome is Stopped <==> (e matches Event::Signal(Some(Signal::Done)))
            &&& ends && outcome is Failure <==> goes_wrong(v, flow, e)
        }),
{
}

/// When a run ends, the rules of its op are undone where they are in force, and
/// only there. (Where the status cannot be saved they stay.)
pub proof fn law_end_undoes_rules(v: LoopView, flow: FlowConfig, cell: Book, e: Event)
    requires
        awaited(v, e),
        !(v.stage is Save),
        loop_next(v, flow, cell, e).1 is End,
    ensures
        loop_next(v, flow, cell, e).1->clear == in_force(v.stage),
{
}

/// Every failure says which op it is about or what went wrong: the message of
/// the error that came stands at its end.
pub proof fn law_failures_name_their_cause(
    v: LoopView,
    flow: FlowConfig,
    cell: Book,
    e: Event,
    cause: String,
)
    requires
        awaited(v, e),
        (e matches Event::Loaded(Err(m)) && m == cause) || (e matches Event::Hooks {
            error: Some(m),
            ..
        } && m == cause) || (e matches Event::Workspace { error: Some(m), .. } && m == cause) || (
        e matches Event::Saved { error: Some(m) } && m == cause) || (e matches Event::Ran {
            error: Some(m),
            ..
        } && m == cause),
    ensures
        loop_next(v, flow, cell, e).1 matches ActionView::End {
            outcome: OutcomeView::Failure(message),
            ..
        } && cause@.is_suffix_of(message),
{
    let message = match loop_next(v, flow, cell, e).1 {
        ActionView::End { outcome: OutcomeView::Failure(m), .. } => m,
        _ => Seq::<char>::empty(),
    };
    assert(message.subrange(message.len() - cause@.len(), message.len() as int) =~= cause@);
}

/// A failure says what went wrong in full: the op that it is about, and how
/// long, how often or where to. A status that cannot be saved ends the run with
/// the rules in force.
pub proof fn law_failures_said(
    v: LoopView,
    flow: FlowConfig,
    cell: Book,
    cause: String,
    op: Op,
    now: u64,
    after: Option<u64>,
)
    ensures
        v.stage is Load ==> loop_next(v, flow, cell, Event::Loaded(Err(cause))).1
            == failed_with(false, "loading op "@ + v.current_op + ": "@ + cause@),
        v.stage is Load && op.config.on is Some ==> loop_next(
            v,
            flow,
            cell,
            Event::Loaded(Ok(op)),
        ).1 == failed_with(
            false,
            "op '"@ + v.current_op + "' is a lifecycle op, not a regular op"@,
        ),
        v.stage is Hooks ==> loop_next(v, flow, cell, Event::Hooks { error: Some(cause), now }).1
            == failed_with(true, "resolving hooks for "@ + v.current_op + ": "@ + cause@),
        v.stage is Workspace ==> loop_next(
            v,
            flow,
            cell,
            Event::Workspace { error: Some(cause), now },
        ).1 == failed_with(true, "creating workspace: "@ + cause@),
        v.stage is Save ==> loop_next(v, flow, cell, Event::Saved { error: Some(cause) }).1
            == failed_with(false, "saving state: "@ + cause@),
        v.stage is Onion ==> loop_next(v, flow, cell, Event::Ran { error: Some(cause), now }).1
            == failed_with(true, "hook execution: "@ + cause@),
        v.stage is Onion && duration_of(v.timeout) is Some && now > v.status.op_started_at
            + duration_of(v.timeout)->0 ==> loop_next(
            v,
            flow,
            cell,
            Event::Ran { error: None, now },
        ).1 == failed_with(
            true,
            "op '"@ + v.current_op + "' timed out ("@ + decimal(
                (now - v.status.op_started_at) as nat,
            ) + "s > "@ + decimal(duration_of(v.timeout)->0) + "s)"@,
        ),
        v.stage is Result ==> loop_next(v, flow, cell, Event::Result(None)).1 == failed_with(
            false,
            "no transition decision for op '"@ + v.current_op
                + "' (missing result.json in workspace)"@,
        ),
        v.stage is Result && v.retry_count == flow.flow.max_retries ==> loop_next(
            v,
            flow,
            cell,
            Event::Result(Some(Decision::Retry { after })),
        ).1 == failed_with(
            false,
            "op '"@ + v.current_op + "' exceeded max retries ("@ + decimal(
                flow.flow.max_retries as nat,
            ) + ")"@,
        ),
        v.stage is Check ==> loop_next(v, flow, cell, Event::Loaded(Err(cause))).1 == failed_with(
            false,
            "loading op: "@ + cause@,
        ),
        v.stage is Check && !op.config.next.deep_view().contains(v.stage->target) ==> loop_next(
            v,
            flow,
            cell,
            Event::Loaded(Ok(op)),
        ).1 == failed_with(
            false,
            "invalid transition: "@ + v.current_op + " -> "@ + v.stage->target
                + " (not in next list)"@,
        ),
{
}

/// The end of a run that failed.
pub open spec fn failed_with(clear: bool, message: Seq<char>) -> ActionView {
    ActionView::End { clear, outcome: OutcomeView::Failure(message) }
}

/// What a run carries from event to event: the op and the parameters change
/// only when it goes to another op, the workspace only when one is made, and of
/// the status only the op and the time of its start, when the workspace has
/// been made.
pub proof fn law_run_keeps(v: LoopView, flow: FlowConfig, cell: Book, e: Event)
    requires
        awaited(v, e),
    ensures
        ({
            let after = loop_next(v, flow, cell, e).0;
            &&& !(v.stage is Check) ==> after.current_op == v.current_op && after.params == v.params
            &&& !(v.stage is Hooks) ==> after.workspace == v.workspace
            &&& !(v.stage is Load) ==> after.timeout == v.timeout
            &&& !(v.stage is Workspace) ==> after.status == v.status
            &&& after.status.flow_name == v.status.flow_name
            &&& after.status.started_at == v.status.started_at
            &&& after.status.state == v.status.state
            &&& after.status.state_dir == v.status.state_dir
            &&& after.retry_count != v.retry_count ==> v.stage is Check || (e matches Event::Result(
                Some(Decision::Retry { .. }),
            ) && after.retry_count == v.retry_count + 1)
        }),
{
}

/// Without a signal the op of the run is read. Its rules are applied, and it
/// runs under its own timeout or else under that of the flow. Its workspace is
/// a directory of its own in the state directory, named by the op and the time.
/// The status that is saved names the op and that time.
pub proof fn law_op_is_set_up(v: LoopView, flow: FlowConfig, cell: Book, op: Op, now: u64)
    ensures
        v.stage is Signal ==> loop_next(v, flow, cell, Event::Signal(None)).1 == (
        ActionView::LoadOp { op: v.current_op }),
        v.stage is Load && op.config.on is None ==> ({
            let (after, action) = loop_next(v, flow, cell, Event::Loaded(Ok(op)));
            &&& after.stage is Hooks
            &&& op.config.timeout matches Some(t) ==> after.timeout == t@
            &&& op.config.timeout is None ==> after.timeout == flow.flow.timeout@
            &&& action == (ActionView::Apply {
                rules: resolved(op.config.rules.deep_view(), flow.rules.deep_view(), cell),
            })
        }),
        v.stage is Hooks ==> ({
            let (after, action) = loop_next(v, flow, cell, Event::Hooks { error: None, now });
            &&& after.stage is Workspace
            &&& action == (ActionView::MakeWorkspace { path: after.workspace })
            &&& after.workspace == joined_path(
                v.status.state_dir,
                v.current_op + "-"@ + decimal(now as nat),
            )
        }),
        v.stage is Workspace ==> ({
            let (after, action) = loop_next(v, flow, cell, Event::Workspace { error: None, now });
            &&& after.stage is Save && action is Save
            &&& after.status.current_op == v.current_op
            &&& after.status.op_started_at == now
        }),
        v.stage is Save ==> ({
            let (after, action) = loop_next(v, flow, cell, Event::Saved { error: None });
            after.stage is Onion && action is RunHooks
        }),
{
}

/// After the hooks of an op its decision is read, unless it took longer than it
/// may. An op that is to be run again is, after the delay that it asks for and
/// a look for a signal; one that is to be followed by another is read once more
/// before the run goes there, with the parameters of the decision.
pub proof fn law_decisions_followed(
    v: LoopView,
    flow: FlowConfig,
    cell: Book,
    after_secs: Option<u64>,
    target: String,
    params: Option<serde_json::Value>,
    op: Op,
)
    ensures
        v.stage is Result && v.retry_count < flow.flow.max_retries ==> ({
            let (after, action) = loop_next(
                v,
                flow,
                cell,
                Event::Result(Some(Decision::Retry { after: after_secs })),
            );
            &&& after.stage is Signal && action == (ActionView::CheckSignal { after: after_secs })
            &&& after.retry_count == v.retry_count + 1 && after.current_op == v.current_op
        }),
        v.stage is Result ==> ({
            let (first, action) = loop_next(
                v,
                flow,
                cell,
                Event::Result(Some(Decision::To { op: target, params })),
            );
            let (second, next) = loop_next(first, flow, cell, Event::Loaded(Ok(op)));
            &&& action == (ActionView::LoadOp { op: v.current_op })
            &&& awaited(first, Event::Loaded(Ok(op)))
            &&& op.config.next.deep_view().contains(target@) ==> second.current_op == target@
                && second.params == params && second.stage is Signal && next
                == (ActionView::CheckSignal { after: None })
        }),
{
}

/// An op that ran within its time, or without a time that can be read, goes on
/// to its decision.
pub proof fn law_op_within_its_time(v: LoopView, flow: FlowConfig, cell: Book, now: u64)
    requires
        v.stage is Onion,
        now >= v.status.op_started_at,
        duration_of(v.timeout) matches Some(t) ==> now - v.status.op_started_at <= t,
    ensures
        loop_next(v, flow, cell, Event::Ran { error: None, now }).1 is ReadResult,
        loop_next(v, flow, cell, Event::Ran { error: None, now }).0.stage is Result,
{
}

// The beginning and the end

/// The status that was left is that of this flow, paused.
pub open spec fn resumes(saved: Option<FlowStatus>, flow_name: Seq<char>) -> bool {
    saved matches Some(s) && s.state == FlowState::Paused && s.flow_name@ == flow_name
}

/// The status that a flow is run with: where it was paused it goes on with the
/// op it stood at, and in the same directory.
pub open spec fn first_status(
    flow_name: Seq<char>,
    flow: FlowConfig,
    saved: Option<FlowStatus>,
    now: u64,
) -> StatusView {
    StatusView {
        flow_name,
        current_op: if resumes(saved, flow_name) {
            saved->0.current_op@
        } else {
            flow.flow.start@
        },
        state: FlowState::Running,
        started_at: now,
        op_started_at: now,
        state_dir: if resumes(saved, flow_name) {
            saved->0.state_dir@
        } else {
            state_dir_of(flow.flow.state.deep_view(), flow_name, now)
        },
    }
}

/// The status that the flow `flow_name` is run with; `saved` is the one that
/// was left.
pub fn run(
    flow_name: &str,
    flow: &FlowConfig,
    saved: Option<FlowStatus>,
    now: u64,
) -> (r: FlowStatus)
    ensures
        r@ == first_status(flow_name@, *flow, saved, now),
{
    let (current_op, state_dir) = match saved {
        Some(s) if s.state == FlowState::Paused && same(&s.flow_name, flow_name) => (
            s.current_op,
            s.state_dir,
        ),
        _ => {
            let base: Option<&str> = match &flow.flow.state {
                Some(b) => Some(b.as_str()),
                None => None,
            };
            (flow.flow.start.clone(), flow_state_dir(base, flow_name, now))
        },
    };
    FlowStatus {
        flow_name: flow_name.to_string(),
        current_op,
        state: FlowState::Running,
        started_at: now,
        op_started_at: now,
        state_dir,
    }
}

/// A flow that was left paused is taken up at the op of its status and in its
/// directory, whatever the flow would start with.
pub proof fn law_paused_flow_resumes(flow: FlowConfig, saved: FlowStatus, now: u64)
    requires
        saved.state == FlowState::Paused,
    ensures
        first_status(saved.flow_name@, flow, Some(saved), now).current_op == saved.current_op@,
        first_status(saved.flow_name@, flow, Some(saved), now).state_dir == saved.state_dir@,
        first_status(saved.flow_name@, flow, Some(saved), now).state == FlowState::Running,
{
}

/// A flow that was not left paused, or is another than the one that was, begins
/// with its first op and in a directory of its own, named by the flow and the
/// time. Either way it runs from now on.
pub proof fn law_flow_begins(
    name: Seq<char>,
    flow: FlowConfig,
    saved: Option<FlowStatus>,
    now: u64,
)
    ensures
        ({
            let first = first_status(name, flow, saved, now);
            &&& first.flow_name == name && first.state == FlowState::Running
            &&& first.started_at == now && first.op_started_at == now
            &&& (saved matches Some(s) ==> s.state != FlowState::Paused || s.flow_name@ != name)
                ==> first.current_op == flow.flow.start@ && first.state_dir == joined_path(
                match flow.flow.state {
                    Some(base) => base@,
                    None => "/var/lib/cellx/state"@,
                },
                name + "-"@ + decimal(now as nat),
            )
        }),
{
}

/// Whether there are rules that cannot be enforced, since the address of the
/// cell is not known.
pub fn unenforced(
    cell_ip: &Option<String>,
    flow_rules: &NameMap<Rule>,
    cell_rules: &NameMap<Rule>,
) -> (r: bool)
    ensures
        r == (cell_ip is None && (flow_rules@ != Map::<Seq<char>, Rule>::empty() || cell_rules@
            != Map::<Seq<char>, Rule>::empty())),
{
    cell_ip.is_none() && (!flow_rules.is_empty() || !cell_rules.is_empty())
}

/// What becomes of a flow that has ended.
pub struct Finish {
    /// The state that is saved.
    pub state: FlowState,
    /// Whether the flow is forgotten, or can be taken up again.
    pub forget: bool,
    pub error: Option<String>,
}

/// The state that an outcome leaves.
pub open spec fn final_state(outcome: OutcomeView) -> FlowState {
    match outcome {
        OutcomeView::Success => FlowState::Done,
        OutcomeView::Stopped => FlowState::Done,
        OutcomeView::Failure(_) => FlowState::Failed,
        OutcomeView::Paused => FlowState::Paused,
    }
}

/// The error that an outcome gives.
pub open spec fn final_error(outcome: OutcomeView) -> Option<Seq<char>> {
    match outcome {
        OutcomeView::Failure(m) => Some("flow failed: "@ + m),
        _ => None,
    }
}

/// What becomes of a flow that ends with `outcome`.
pub fn finish(outcome: &FlowOutcome) -> (r: Finish)
    ensures
        r.state == final_state(outcome@),
        r.forget == !(outcome@ is Paused),
        r.error.deep_view() == final_error(outcome@),
{
    match outcome {
        FlowOutcome::Success => Finish { state: FlowState::Done, forget: true, error: None },
        FlowOutcome::Stopped => Finish { state: FlowState::Done, forget: true, error: None },
        FlowOutcome::Failure(m) => {
            let mut e = "flow failed: ".to_string();
            e.append(m);
            Finish { state: FlowState::Failed, forget: true, error: Some(e) }
        },
        FlowOutcome::Paused => Finish { state: FlowState::Paused, forget: false, error: None },
    }
}

/// A flow is left paused exactly where it was paused, and failed exactly where
/// it failed, with an error that ends with the cause; otherwise it is done.
pub proof fn law_outcome_kept(outcome: OutcomeView)
    ensures
        final_state(outcome) == FlowState::Paused <==> outcome is Paused,
        final_state(outcome) == FlowState::Failed <==> outcome is Failure,
        final_state(outcome) == FlowState::Done <==> outcome is Success || outcome is Stopped,
        final_error(outcome) is Some <==> outcome is Failure,
        outcome matches OutcomeView::Failure(m) ==> m.is_suffix_of(final_error(outcome)->0),
{
    if let OutcomeView::Failure(m) = outcome {
        let e = final_error(outcome)->0;
        assert(e.subrange(e.len() - m.len(), e.len() as int) =~= m);
    }
}

/// Where a cell reports the status of its flow.
pub const STATUS_URL: &'static str = "http://192.168.83.1:8082/flow-status";

/// What the cell at `cell_ip` reports of the status.
pub fn report_status(cell_ip: &str, status: &FlowStatus) -> (r: FlowReport)
    ensures
        r.cell_ip@ == cell_ip@,
        r.flow_name@ == status@.flow_name,
        r.current_op@ == status@.current_op,
        r.state == status@.state,
        r.started_at == status@.started_at,
        r.op_started_at == status@.op_started_at,
{
    FlowReport {
        cell_ip: cell_ip.to_string(),
        flow_name: status.flow_name.clone(),
        current_op: status.current_op.clone(),
        state: status.state,
        started_at: status.started_at,
        op_started_at: status.op_started_at,
    }
}

// Lifecycle ops

/// A lifecycle op runs at this end of the flow.
pub open spec fn runs_at(lifecycle: Lifecycle, outcome: OutcomeView) -> bool {
    match outcome {
        OutcomeView::Paused => false,
        OutcomeView::Success => lifecycle == Lifecycle::Finish || lifecycle == Lifecycle::Success,
        OutcomeView::Failure(_) => lifecycle == Lifecycle::Finish || lifecycle
            == Lifecycle::Failure,
        OutcomeView::Stopped => lifecycle == Lifecycle::Finish,
    }
}

/// Whether a lifecycle op runs at this end of the flow.
pub fn should_run(lifecycle: Lifecycle, outcome: &FlowOutcome) -> (r: bool)
    ensures
        r == runs_at(lifecycle, outcome@),
{
    match outcome {
        FlowOutcome::Paused => false,
        FlowOutcome::Success => lifecycle == Lifecycle::Finish || lifecycle == Lifecycle::Success,
        FlowOutcome::Failure(_) => lifecycle == Lifecycle::Finish || lifecycle
            == Lifecycle::Failure,
        FlowOutcome::Stopped => lifecycle == Lifecycle::Finish,
    }
}

/// A flow that is paused runs no lifecycle op. Where it ends otherwise, those
/// for the finish always run, those for success only after success and those
/// for failure only after failure.
pub proof fn law_lifecycle(lifecycle: Lifecycle, outcome: OutcomeView)
    ensures
        outcome is Paused ==> !runs_at(lifecycle, outcome),
        !(outcome is Paused) ==> runs_at(Lifecycle::Finish, outcome),
        runs_at(Lifecycle::Success, outcome) <==> outcome is Success,
        runs_at(Lifecycle::Failure, outcome) <==> outcome is Failure,
{
}

/// The ops among `names` that have a lifecycle, with it.
pub open spec fn with_lifecycle(
    names: Seq<Seq<char>>,
    on: Map<Seq<char>, Lifecycle>,
) -> Seq<(Seq<char>, Lifecycle)>
    decreases names.len(),
{
    if names.len() == 0 {
        Seq::<(Seq<char>, Lifecycle)>::empty()
    } else {
        let front = with_lifecycle(names.drop_last(), on);
        if on.dom().contains(names.last()) {
            front.push((names.last(), on[names.last()]))
        } else {
            front
        }
    }
}

/// Every op among `names` with a lifecycle is there with it, and no other.
pub proof fn law_lifecycle_ops_found(
    names: Seq<Seq<char>>,
    on: Map<Seq<char>, Lifecycle>,
    name: Seq<char>,
    lifecycle: Lifecycle,
)
    ensures
        with_lifecycle(names, on).contains((name, lifecycle)) <==> names.contains(name)
            && on.dom().contains(name) && on[name] == lifecycle,
    decreases names.len(),
{
    let all = with_lifecycle(names, on);
    if names.len() > 0 {
        let front = names.drop_last();
        law_lifecycle_ops_found(front, on, name, lifecycle);
        let before = with_lifecycle(front, on);
        assert(names == front.push(names.last()));
        if names.contains(name) && name != names.last() {
            let i = choose|i: int| 0 <= i < names.len() && names[i] == name;
            assert(front[i] == name);
        }
        if front.contains(name) {
            let i = choose|i: int| 0 <= i < front.len() && front[i] == name;
            assert(names[i] == name);
        }
        assert(names[names.len() - 1] == names.last());
        if before.contains((name, lifecycle)) {
            let i = choose|i: int| 0 <= i < before.len() && before[i] == (name, lifecycle);
            assert(all[i] == (name, lifecycle));
        }
        if all.contains((name, lifecycle)) {
            let i = choose|i: int| 0 <= i < all.len() && all[i] == (name, lifecycle);
            if i < before.len() {
                assert(before[i] == (name, lifecycle));
            }
        }
        if name == names.last() && on.dom().contains(name) && on[name] == lifecycle {
            assert(all[all.len() - 1] == (name, lifecycle));
        }
    }
}

/// The lifecycle ops of a flow, by name. `names` are the directories of its
/// ops, and `on` gives the lifecycle of each op that could be loaded and has
/// one.
pub fn discover_lifecycle_ops(names: Vec<String>, on: &NameMap<Lifecycle>) -> (r: Vec<
    (String, Lifecycle),
>)
    ensures
        exists|sorted: Seq<Seq<char>>|
            ordered(sorted) && sorted.to_multiset() == names.deep_view().to_multiset()
                && r.deep_view() == #[trigger] with_lifecycle(sorted, on@),
{
    let sorted = sort(names);
    let ghost all = sorted.deep_view();
    let mut r: Vec<(String, Lifecycle)> = Vec::new();
    let mut i: usize = 0;
    assert(r.deep_view() == with_lifecycle(all.take(0), on@));
    while i < sorted.len()
        invariant
            i <= sorted.len(),
            all == sorted.deep_view(),
            r.deep_view() == with_lifecycle(all.take(i as int), on@),
        decreases sorted.len() - i,
    {
        assert(all.take(i + 1).drop_last() == all.take(i as int));
        assert(all.take(i + 1).last() == sorted[i as int]@);
        let ghost before = r.deep_view();
        if let Some(lifecycle) = on.get(&sorted[i]) {
            r.push((sorted[i].clone(), *lifecycle));
            assert(r.deep_view() == before.push((sorted[i as int]@, *lifecycle)));
        }
        i += 1;
    }
    assert(all.take(all.len() as int) == all);
    r
}

/// What the run of a lifecycle op waits for.
#[derive(Clone, Copy, Debug, PartialEq, Eq, Structural)]
pub enum LifeStage {
    Load,
    Hooks,
    Workspace,
    Onion,
}

/// What is to be done next for a lifecycle op.
pub enum LifeAction {
    /// Apply the rules and resolve the hooks.
    Apply { rules: ResolvedRule },
    MakeWorkspace { path: String },
    RunHooks,
    /// Go on with the next op: warn and undo the rules first where it says so.
    Next { clear: bool, warning: Option<String> },
}

/// What is to be done next for a lifecycle op.
pub enum LifeActionView {
    Apply { rules: ResolvedView },
    MakeWorkspace { path: Seq<char> },
    RunHooks,
    Next { clear: bool, warning: Option<Seq<char>> },
}

impl View for LifeAction {
    type V = LifeActionView;

    open spec fn view(&self) -> LifeActionView {
        match self {
            LifeAction::Apply { rules } => LifeActionView::Apply { rules: rules@ },
            LifeAction::MakeWorkspace { path } => LifeActionView::MakeWorkspace { path: path@ },
            LifeAction::RunHooks => LifeActionView::RunHooks,
            LifeAction::Next { clear, warning } => LifeActionView::Next {
                clear: *clear,
                warning: warning.deep_view(),
            },
        }
    }
}

/// The event is the one that the run of the op waits for.
pub open spec fn life_awaited(stage: LifeStage, e: Event) -> bool {
    match stage {
        LifeStage::Load => e is Loaded,
        LifeStage::Hooks => e is Hooks,
        LifeStage::Workspace => e is Workspace,
        LifeStage::Onion => e is Ran,
    }
}

/// What is to be done for the lifecycle op `name` after the event. Nothing
/// that goes wrong keeps the other lifecycle ops from running.
pub open spec fn life_next(
    stage: LifeStage,
    name: Seq<char>,
    state_dir: Seq<char>,
    flow: FlowConfig,
    cell: Book,
    e: Event,
) -> LifeActionView {
    match (stage, e) {
        (LifeStage::Load, Event::Loaded(Err(m))) => LifeActionView::Next {
            clear: false,
            warning: Some("warning: failed to load lifecycle op "@ + name + ": "@ + m@),
        },
        (LifeStage::Load, Event::Loaded(Ok(op))) => LifeActionView::Apply {
            rules: resolved(op.config.rules.deep_view(), flow.rules.deep_view(), cell),
        },
        (LifeStage::Hooks, Event::Hooks { error: Some(m), .. }) => LifeActionView::Next {
            clear: true,
            warning: Some(
                "warning: failed to resolve hooks for lifecycle op "@ + name + ": "@ + m@,
            ),
        },
        (LifeStage::Hooks, Event::Hooks { error: None, now }) => LifeActionView::MakeWorkspace {
            path: joined_path(state_dir, stamped(name, now)),
        },
        (LifeStage::Workspace, Event::Workspace { error: Some(m), .. }) => LifeActionView::Next {
            clear: true,
            warning: Some("warning: failed to create workspace for "@ + name + ": "@ + m@),
        },
        (LifeStage::Workspace, Event::Workspace { error: None, .. }) => LifeActionView::RunHooks,
        (LifeStage::Onion, Event::Ran { error: Some(m), .. }) => LifeActionView::Next {
            clear: true,
            warning: Some("warning: lifecycle op "@ + name + " failed: "@ + m@),
        },
        (LifeStage::Onion, Event::Ran { error: None, .. }) => LifeActionView::Next {
            clear: true,
            warning: None,
        },
        _ => arbitrary(),
    }
}

/// A lifecycle op is run as any other: its rules are applied, then its
/// workspace made, then its hooks run. What goes wrong is warned of, with the
/// error at the end, and the next op comes; the rules are undone then, where
/// they have been applied.
pub proof fn law_lifecycle_op_runs(
    stage: LifeStage,
    name: Seq<char>,
    state_dir: Seq<char>,
    flow: FlowConfig,
    cell: Book,
    e: Event,
)
    requires
        life_awaited(stage, e),
    ensures
        ({
            let action = life_next(stage, name, state_dir, flow, cell, e);
            &&& action is Apply <==> (e matches Event::Loaded(Ok(_)))
            &&& (e matches Event::Loaded(Ok(op)) ==> action->rules == resolved(
                op.config.rules.deep_view(),
                flow.rules.deep_view(),
                cell,
            ))
            &&& action is MakeWorkspace <==> (e matches Event::Hooks { error: None, .. })
            &&& (e matches Event::Hooks { error: None, now } ==> action->path == joined_path(
                state_dir,
                name + "-"@ + decimal(now as nat),
            ))
            &&& action is RunHooks <==> (e matches Event::Workspace { error: None, .. })
            &&& action is Next ==> action->clear == !(stage is Load)
            &&& action is Next ==> (action->warning is None <==> (e matches Event::Ran {
                error: None,
                ..
            }))
        }),
{
}

fn skip(clear: bool, what: &str, name: &str, how: &str, error: &str) -> (r: LifeAction)
    ensures
        r@ == (LifeActionView::Next { clear, warning: Some(what@ + name@ + how@ + error@) }),
{
    let mut m = what.to_string();
    m.append(name);
    m.append(how);
    m.append(error);
    LifeAction::Next { clear, warning: Some(m) }
}

/// What is to be done for the lifecycle op `name` after the event.
pub fn run_lifecycle_ops(
    stage: LifeStage,
    name: &str,
    state_dir: &str,
    flow: &FlowConfig,
    cell_rules: &NameMap<Rule>,
    event: Event,
) -> (r: LifeAction)
    requires
        life_awaited(stage, event),
    ensures
        r@ == life_next(stage, name@, state_dir@, *flow, cell_rules.deep_view(), event),
{
    match (stage, event) {
        (LifeStage::Load, Event::Loaded(Err(m))) => skip(
            false,
            "warning: failed to load lifecycle op ",
            name,
            ": ",
            &m,
        ),
        (LifeStage::Load, Event::Loaded(Ok(op))) => LifeAction::Apply {
            rules: resolve_op_rules(&op, &flow.rules, cell_rules),
        },
        (LifeStage::Hooks, Event::Hooks { error: Some(m), .. }) => skip(
            true,
            "warning: failed to resolve hooks for lifecycle op ",
            name,
            ": ",
            &m,
        ),
        (LifeStage::Hooks, Event::Hooks { error: None, now }) => LifeAction::MakeWorkspace {
            path: op_workspace(state_dir, name, now),
        },
        (LifeStage::Workspace, Event::Workspace { error: Some(m), .. }) => skip(
            true,
            "warning: failed to create workspace for ",
            name,
            ": ",
            &m,
        ),
        (LifeStage::Workspace, Event::Workspace { error: None, .. }) => LifeAction::RunHooks,
        (LifeStage::Onion, Event::Ran { error: Some(m), .. }) => skip(
            true,
            "warning: lifecycle op ",
            name,
            " failed: ",
            &m,
        ),
        (LifeStage::Onion, Event::Ran { error: None, .. }) => LifeAction::Next {
            clear: true,
            warning: None,
        },
        _ => vstd::pervasive::unreached(),
    }
}

// Status display

/// What is shown of the running flow. The minutes are shown once there are
/// some.
pub open spec fn status_lines(status: Option<StatusView>, now: u64) -> Seq<Seq<char>> {
    match status {
        None => seq!["no active flow"@],
        Some(s) => {
            let mins: nat = if now >= s.started_at {
                ((now - s.started_at) / 60) as nat
            } else {
                0
            };
            let lines = seq![
                "flow: "@ + s.flow_name,
                "state: "@ + s.state.shown(),
                "op: "@ + s.current_op,
            ];
            if mins > 0 {
                lines.push("elapsed: "@ + decimal(mins) + "m"@)
            } else {
                lines
            }
        },
    }
}

fn line(lines: &mut Vec<String>, label: &str, value: &str)
    ensures
        final(lines).deep_view() == old(lines).deep_view().push(label@ + value@),
{
    let ghost before = lines.deep_view();
    let mut l = label.to_string();
    l.append(value);
    lines.push(l);
    assert(lines.deep_view() == before.push(label@ + value@));
}

/// What is shown of the running flow at the time `now`.
pub fn print_status(status: Option<&FlowStatus>, now: u64) -> (r: Vec<String>)
    ensures
        r.deep_view() == status_lines(
            match status {
                Some(s) => Some(s@),
                None => None,
            },
            now,
        ),
{
    let mut r: Vec<String> = Vec::new();
    match status {
        Some(s) => {
            let elapsed: u64 = if now >= s.started_at {
                now - s.started_at
            } else {
                0
            };
            let mins: u64 = elapsed / 60;
            line(&mut r, "flow: ", &s.flow_name);
            line(&mut r, "state: ", &s.state.label());
            line(&mut r, "op: ", &s.current_op);
            if mins > 0 {
                let mut m = "elapsed: ".to_string();
                m.append(&decimal_text(mins));
                m.append("m");
                let ghost before = r.deep_view();
                r.push(m);
                assert(r.deep_view() == before.push(m@));
            }
        },
        None => {
            r.push("no active flow".to_string());
            assert(r.deep_view() == seq!["no active flow"@]);
        },
    }
    r
}

/// What is shown of a running flow is its name, its state, its op and, once a
/// minute has passed, the whole minutes; without a flow it says so.
pub proof fn law_status_shown(s: StatusView, now: u64, mins: u64)
    ensures
        status_lines(None, now) == seq!["no active flow"@],
        status_lines(Some(s), now)[0] == "flow: "@ + s.flow_name,
        status_lines(Some(s), now)[1] == "state: "@ + s.state.shown(),
        status_lines(Some(s), now)[2] == "op: "@ + s.current_op,
        now < s.started_at + 60 ==> status_lines(Some(s), now).len() == 3,
        mins > 0 && s.started_at + 60 * mins <= now < s.started_at + 60 * (mins + 1)
            ==> status_lines(Some(s), now).len() == 4 && status_lines(Some(s), now)[3]
            == "elapsed: "@ + decimal(mins as nat) + "m"@,
{
    if mins > 0 && s.started_at + 60 * mins <= now < s.started_at + 60 * (mins + 1) {
        assert((now - s.started_at) / 60 == mins);
    }
}

/// What is warned of a lifecycle op names it and what went wrong; the error of
/// a flow that failed says that it did.
pub proof fn law_warnings_said(
    name: Seq<char>,
    state_dir: Seq<char>,
    flow: FlowConfig,
    cell: Book,
    cause: String,
    now: u64,
    message: Seq<char>,
)
    ensures
        life_next(LifeStage::Load, name, state_dir, flow, cell, Event::Loaded(Err(cause))) == (
        LifeActionView::Next {
            clear: false,
            warning: Some("warning: failed to load lifecycle op "@ + name + ": "@ + cause@),
        }),
        life_next(
            LifeStage::Hooks,
            name,
            state_dir,
            flow,
            cell,
            Event::Hooks { error: Some(cause), now },
        ) == (LifeActionView::Next {
            clear: true,
            warning: Some(
                "warning: failed to resolve hooks for lifecycle op "@ + name + ": "@ + cause@,
            ),
        }),
        life_next(
            LifeStage::Workspace,
            name,
            state_dir,
            flow,
            cell,
            Event::Workspace { error: Some(cause), now },
        ) == (LifeActionView::Next {
            clear: true,
            warning: Some("warning: failed to create workspace for "@ + name + ": "@ + cause@),
        }),
        life_next(
            LifeStage::Onion,
            name,
            state_dir,
            flow,
            cell,
            Event::Ran { error: Some(cause), now },
        ) == (LifeActionView::Next {
            clear: true,
            warning: Some("warning: lifecycle op "@ + name + " failed: "@ + cause@),
        }),
        final_error(OutcomeView::Failure(message)) == Some("flow failed: "@ + message),
{
}

/// Lifecycle ops come in the order of their names.
pub proof fn law_lifecycle_ops_in_order(
    a: Seq<Seq<char>>,
    b: Seq<Seq<char>>,
    on: Map<Seq<char>, Lifecycle>,
)
    ensures
        with_lifecycle(a + b, on) == with_lifecycle(a, on) + with_lifecycle(b, on),
    decreases b.len(),
{
    if b.len() == 0 {
        assert(a + b == a);
    } else {
        law_lifecycle_ops_in_order(a, b.drop_last(), on);
        assert((a + b).drop_last() == a + b.drop_last());
    }
}

} // verus!
