use cella::cellx::run::{
    discover_lifecycle_ops, finish, print_status, report_status, run, run_lifecycle_ops, run_loop,
    should_run, unenforced, Action, Event, FlowLoop, FlowOutcome, LifeAction, LifeStage,
};
use cella::flow::config::{FlowConfig, FlowMeta, Rule};
use cella::flow::op::{Lifecycle, Op, OpFrontmatter};
use cella::flow::state::{Decision, FlowState, FlowStatus, Signal};
use cella::names::NameMap;

fn flow(max_retries: u32, timeout: &str) -> FlowConfig {
    FlowConfig {
        flow: FlowMeta {
            start: "plan".to_string(),
            state: None,
            max_retries,
            timeout: timeout.to_string(),
        },
        rules: NameMap::new(),
    }
}

fn op(name: &str, next: &[&str], on: Option<Lifecycle>) -> Op {
    Op {
        config: OpFrontmatter {
            name: name.to_string(),
            rules: vec![],
            next: next.iter().map(|s| s.to_string()).collect(),
            on,
            params: NameMap::new(),
            timeout: None,
        },
        prompt: "do it".to_string(),
    }
}

/// Brings the run from the look for a signal to the run of the hooks.
fn to_hooks(run: FlowLoop, flow: &FlowConfig, next: &[&str], at: u64) -> FlowLoop {
    let cell = NameMap::new();
    let name = run.current_op.clone();
    let (run, action) = run_loop(run, flow, &cell, Event::Signal(None));
    assert!(matches!(action, Action::LoadOp { op } if op == name));
    let (run, action) = run_loop(run, flow, &cell, Event::Loaded(Ok(op(&name, next, None))));
    assert!(matches!(action, Action::Apply { rules } if rules.extends_server));
    let (run, action) = run_loop(run, flow, &cell, Event::Hooks { error: None, now: at });
    let path = format!("/var/lib/cellx/state/dev-5/{name}-{at}");
    assert!(matches!(action, Action::MakeWorkspace { path: p } if p == path));
    let (run, action) = run_loop(run, flow, &cell, Event::Workspace { error: None, now: at });
    assert!(matches!(action, Action::Save));
    assert_eq!(run.status.current_op, name);
    assert_eq!(run.status.op_started_at, at);
    let (run, action) = run_loop(run, flow, &cell, Event::Saved { error: None });
    assert!(matches!(action, Action::RunHooks));
    run
}

fn begin(flow: &FlowConfig) -> FlowLoop {
    let status = run("dev", flow, None, 5);
    let op = status.current_op.clone();
    FlowLoop::new(status, op, None)
}

fn decide(run: FlowLoop, flow: &FlowConfig, at: u64, decision: Option<Decision>) -> (FlowLoop, Action) {
    let cell = NameMap::new();
    let (run, action) = run_loop(run, flow, &cell, Event::Ran { error: None, now: at });
    assert!(matches!(action, Action::ReadResult));
    run_loop(run, flow, &cell, Event::Result(decision))
}

fn failure(action: Action) -> (bool, String) {
    match action {
        Action::End { clear, outcome: FlowOutcome::Failure(m) } => (clear, m),
        _ => panic!("no failure"),
    }
}

#[test]
fn flow_runs_to_its_end() {
    let flow = flow(3, "2h");
    let run = to_hooks(begin(&flow), &flow, &["build"], 10);
    let (run, action) = decide(
        run,
        &flow,
        20,
        Some(Decision::To { op: "build".to_string(), params: Some(serde_json::Value::Bool(true)) }),
    );
    assert!(matches!(action, Action::LoadOp { op } if op == "plan"));
    let (run, action) =
        run_loop(run, &flow, &NameMap::new(), Event::Loaded(Ok(op("plan", &["build"], None))));
    assert!(matches!(action, Action::CheckSignal { after: None }));
    assert_eq!(run.current_op, "build");
    assert_eq!(run.params, Some(serde_json::Value::Bool(true)));
    let run = to_hooks(run, &flow, &[], 30);
    let (_, action) = decide(run, &flow, 40, Some(Decision::Done));
    assert!(matches!(action, Action::End { clear: false, outcome: FlowOutcome::Success }));
}

#[test]
fn unlisted_transition_fails() {
    let flow = flow(3, "2h");
    let run = to_hooks(begin(&flow), &flow, &["build"], 10);
    let (run, _) =
        decide(run, &flow, 20, Some(Decision::To { op: "ship".to_string(), params: None }));
    let (_, action) =
        run_loop(run, &flow, &NameMap::new(), Event::Loaded(Ok(op("plan", &["build"], None))));
    assert_eq!(
        failure(action),
        (false, "invalid transition: plan -> ship (not in next list)".to_string())
    );
}

#[test]
fn retries_run_out() {
    let flow = flow(2, "2h");
    let mut run = begin(&flow);
    for n in 1..=2 {
        run = to_hooks(run, &flow, &[], 10);
        let (next, action) = decide(run, &flow, 20, Some(Decision::Retry { after: Some(60) }));
        assert!(matches!(action, Action::CheckSignal { after: Some(60) }));
        assert_eq!(next.retry_count, n);
        run = next;
    }
    run = to_hooks(run, &flow, &[], 10);
    let (_, action) = decide(run, &flow, 20, Some(Decision::Retry { after: None }));
    assert_eq!(failure(action), (false, "op 'plan' exceeded max retries (2)".to_string()));
}

#[test]
fn op_times_out() {
    let flow = flow(2, "1m");
    let run = to_hooks(begin(&flow), &flow, &[], 100);
    let (_, action) =
        run_loop(run, &flow, &NameMap::new(), Event::Ran { error: None, now: 161 });
    assert_eq!(failure(action), (true, "op 'plan' timed out (61s > 60s)".to_string()));
    let run = to_hooks(begin(&flow), &flow, &[], 100);
    let (_, action) =
        run_loop(run, &flow, &NameMap::new(), Event::Ran { error: None, now: 160 });
    assert!(matches!(action, Action::ReadResult));
}

#[test]
fn signals_end_the_run() {
    let flow = flow(2, "1m");
    let cell = NameMap::new();
    let (_, action) = run_loop(begin(&flow), &flow, &cell, Event::Signal(Some(Signal::Pause)));
    assert!(matches!(action, Action::End { clear: false, outcome: FlowOutcome::Paused }));
    let (_, action) = run_loop(begin(&flow), &flow, &cell, Event::Signal(Some(Signal::Done)));
    assert!(matches!(action, Action::End { clear: false, outcome: FlowOutcome::Stopped }));
}

#[test]
fn failures_in_words() {
    let flow = flow(2, "1m");
    let cell: NameMap<Rule> = NameMap::new();
    let load = || run_loop(begin(&flow), &flow, &cell, Event::Signal(None)).0;
    let e = || Some("no room".to_string());

    let (_, a) = run_loop(load(), &flow, &cell, Event::Loaded(Err("gone".to_string())));
    assert_eq!(failure(a), (false, "loading op plan: gone".to_string()));

    let (_, a) =
        run_loop(load(), &flow, &cell, Event::Loaded(Ok(op("plan", &[], Some(Lifecycle::Finish)))));
    assert_eq!(
        failure(a),
        (false, "op 'plan' is a lifecycle op, not a regular op".to_string())
    );

    let hooks = || run_loop(load(), &flow, &cell, Event::Loaded(Ok(op("plan", &[], None)))).0;
    let (_, a) = run_loop(hooks(), &flow, &cell, Event::Hooks { error: e(), now: 1 });
    assert_eq!(failure(a), (true, "resolving hooks for plan: no room".to_string()));

    let ws = || run_loop(hooks(), &flow, &cell, Event::Hooks { error: None, now: 1 }).0;
    let (_, a) = run_loop(ws(), &flow, &cell, Event::Workspace { error: e(), now: 1 });
    assert_eq!(failure(a), (true, "creating workspace: no room".to_string()));

    let save = || run_loop(ws(), &flow, &cell, Event::Workspace { error: None, now: 1 }).0;
    let (_, a) = run_loop(save(), &flow, &cell, Event::Saved { error: e() });
    assert_eq!(failure(a), (false, "saving state: no room".to_string()));

    let ran = || run_loop(save(), &flow, &cell, Event::Saved { error: None }).0;
    let (_, a) = run_loop(ran(), &flow, &cell, Event::Ran { error: e(), now: 1 });
    assert_eq!(failure(a), (true, "hook execution: no room".to_string()));

    let (_, a) = decide(ran(), &flow, 1, None);
    assert_eq!(
        failure(a),
        (
            false,
            "no transition decision for op 'plan' (missing result.json in workspace)".to_string()
        )
    );
}

#[test]
fn paused_flow_resumes() {
    let flow = flow(2, "1m");
    let left = |state, name: &str| FlowStatus {
        flow_name: name.to_string(),
        current_op: "review".to_string(),
        state,
        started_at: 1,
        op_started_at: 2,
        state_dir: "/s/dev-1".to_string(),
    };
    let taken = run("dev", &flow, Some(left(FlowState::Paused, "dev")), 9);
    assert_eq!((taken.current_op.as_str(), taken.state_dir.as_str()), ("review", "/s/dev-1"));
    assert!(taken.state == FlowState::Running);
    assert_eq!(taken.started_at, 9);
    let other = run("dev", &flow, Some(left(FlowState::Paused, "qa")), 9);
    assert_eq!(other.current_op, "plan");
    assert_eq!(other.state_dir, "/var/lib/cellx/state/dev-9");
    let failed = run("dev", &flow, Some(left(FlowState::Failed, "dev")), 9);
    assert_eq!(failed.current_op, "plan");
}

#[test]
fn ends_of_a_flow() {
    let f = finish(&FlowOutcome::Failure("boom".to_string()));
    assert!(f.state == FlowState::Failed && f.forget);
    assert_eq!(f.error, Some("flow failed: boom".to_string()));
    let p = finish(&FlowOutcome::Paused);
    assert!(p.state == FlowState::Paused && !p.forget && p.error.is_none());
    for outcome in [FlowOutcome::Success, FlowOutcome::Stopped] {
        let d = finish(&outcome);
        assert!(d.state == FlowState::Done && d.forget && d.error.is_none());
    }
}

#[test]
fn lifecycle_ops_by_outcome() {
    let failed = FlowOutcome::Failure("x".to_string());
    let rows = [
        (Lifecycle::Success, &FlowOutcome::Success, true),
        (Lifecycle::Failure, &FlowOutcome::Success, false),
        (Lifecycle::Finish, &FlowOutcome::Success, true),
        (Lifecycle::Success, &failed, false),
        (Lifecycle::Failure, &failed, true),
        (Lifecycle::Finish, &failed, true),
        (Lifecycle::Success, &FlowOutcome::Stopped, false),
        (Lifecycle::Failure, &FlowOutcome::Stopped, false),
        (Lifecycle::Finish, &FlowOutcome::Stopped, true),
        (Lifecycle::Finish, &FlowOutcome::Paused, false),
    ];
    for (lifecycle, outcome, runs) in rows {
        assert_eq!(should_run(lifecycle, outcome), runs);
    }
}

#[test]
fn lifecycle_ops_found_by_name() {
    let mut on = NameMap::new();
    on.insert("notify".to_string(), Lifecycle::Finish);
    on.insert("clean".to_string(), Lifecycle::Failure);
    let names = ["notify", "plan", "clean"].iter().map(|s| s.to_string()).collect();
    assert_eq!(
        discover_lifecycle_ops(names, &on),
        vec![
            ("clean".to_string(), Lifecycle::Failure),
            ("notify".to_string(), Lifecycle::Finish)
        ]
    );
}

#[test]
fn lifecycle_op_steps() {
    let flow = flow(2, "1m");
    let step = |stage, event| {
        run_lifecycle_ops(stage, "clean", "/s/dev-1", &flow, &NameMap::new(), event)
    };
    let e = || Some("no room".to_string());
    match step(LifeStage::Load, Event::Loaded(Err("gone".to_string()))) {
        LifeAction::Next { clear, warning } => assert_eq!(
            (clear, warning),
            (false, Some("warning: failed to load lifecycle op clean: gone".to_string()))
        ),
        _ => panic!("load"),
    }
    assert!(matches!(
        step(LifeStage::Load, Event::Loaded(Ok(op("clean", &[], Some(Lifecycle::Finish))))),
        LifeAction::Apply { .. }
    ));
    match step(LifeStage::Hooks, Event::Hooks { error: e(), now: 7 }) {
        LifeAction::Next { clear, warning } => assert_eq!(
            (clear, warning),
            (
                true,
                Some("warning: failed to resolve hooks for lifecycle op clean: no room".to_string())
            )
        ),
        _ => panic!("hooks"),
    }
    assert!(matches!(
        step(LifeStage::Hooks, Event::Hooks { error: None, now: 7 }),
        LifeAction::MakeWorkspace { path } if path == "/s/dev-1/clean-7"
    ));
    match step(LifeStage::Workspace, Event::Workspace { error: e(), now: 7 }) {
        LifeAction::Next { clear, warning } => assert_eq!(
            (clear, warning),
            (true, Some("warning: failed to create workspace for clean: no room".to_string()))
        ),
        _ => panic!("workspace"),
    }
    assert!(matches!(
        step(LifeStage::Workspace, Event::Workspace { error: None, now: 7 }),
        LifeAction::RunHooks
    ));
    match step(LifeStage::Onion, Event::Ran { error: e(), now: 7 }) {
        LifeAction::Next { clear, warning } => assert_eq!(
            (clear, warning),
            (true, Some("warning: lifecycle op clean failed: no room".to_string()))
        ),
        _ => panic!("onion"),
    }
    assert!(matches!(
        step(LifeStage::Onion, Event::Ran { error: None, now: 7 }),
        LifeAction::Next { clear: true, warning: None }
    ));
}

#[test]
fn rules_without_an_address() {
    let mut rules = NameMap::new();
    assert!(!unenforced(&None, &rules, &NameMap::new()));
    rules.insert("r".to_string(), Rule::default());
    assert!(unenforced(&None, &rules, &NameMap::new()));
    assert!(unenforced(&None, &NameMap::new(), &rules));
    assert!(!unenforced(&Some("192.168.83.11".to_string()), &rules, &rules));
}

#[test]
fn status_shown_and_reported() {
    let status = FlowStatus {
        flow_name: "dev".to_string(),
        current_op: "plan".to_string(),
        state: FlowState::Running,
        started_at: 100,
        op_started_at: 110,
        state_dir: "/s/dev-1".to_string(),
    };
    assert_eq!(
        print_status(Some(&status), 100 + 125),
        vec!["flow: dev", "state: Running", "op: plan", "elapsed: 2m"]
    );
    assert_eq!(
        print_status(Some(&status), 50),
        vec!["flow: dev", "state: Running", "op: plan"]
    );
    assert_eq!(print_status(None, 50), vec!["no active flow"]);
    let report = report_status("192.168.83.11", &status);
    assert_eq!(report.cell_ip, "192.168.83.11");
    assert_eq!((report.started_at, report.op_started_at), (100, 110));
    assert_eq!((report.flow_name, report.current_op), ("dev".to_string(), "plan".to_string()));
    assert!(report.state == FlowState::Running);
}
