use cella::flow::config::{default_max_retries, default_timeout, flow_dir, load_flow, FlowMeta};
use cella::flow::op::{
    load_op, op_allows, parse_op_md, Lifecycle, Op, OpError, OpFrontmatter,
};
use cella::flow::state::{
    check_signal, flow_state_dir, op_workspace, read_result_from, result_path, signal_path,
    write_result_to, write_signal, Decision, FileStep, FlowState, FlowStatus, ResultError, Signal,
};
use cella::flow::time::{
    clock, fits, now_secs, or_zero, parse_duration, resolve_timeout, seconds_at,
};
use cella::names::NameMap;

/// The op that a file describes, its frontmatter read as YAML.
fn op_from(content: &str) -> Result<Op, String> {
    let source = parse_op_md(content).map_err(|e| e.message())?;
    let yaml: serde_yaml::Value =
        serde_yaml::from_str(&source.frontmatter).map_err(|e| e.to_string())?;
    let texts = |key: &str| -> Vec<String> {
        match yaml.get(key).and_then(|v| v.as_sequence()) {
            Some(l) => l.iter().map(|v| v.as_str().unwrap().to_string()).collect(),
            None => vec![],
        }
    };
    let on = match yaml.get("on").and_then(|v| v.as_str()) {
        Some("success") => Some(Lifecycle::Success),
        Some("failure") => Some(Lifecycle::Failure),
        Some("finish") => Some(Lifecycle::Finish),
        _ => None,
    };
    Ok(Op {
        config: OpFrontmatter {
            name: yaml.get("name").and_then(|v| v.as_str()).unwrap().to_string(),
            rules: texts("rules"),
            next: texts("next"),
            on,
            params: NameMap::new(),
            timeout: None,
        },
        prompt: source.prompt,
    })
}

#[test]
fn parse_op_md_basic() {
    let content = "---\nname: implement\nrules:\n  - no-test-write\nnext:\n  - validate\n  - implement\n---\n\nImplement the feature.\n";
    let op = op_from(content).unwrap();
    assert_eq!(op.config.name, "implement");
    assert_eq!(op.config.rules, vec!["no-test-write"]);
    assert_eq!(op.config.next, vec!["validate", "implement"]);
    assert_eq!(op.prompt, "Implement the feature.");
}

#[test]
fn parse_op_md_minimal() {
    let content = "---\nname: eval\nnext:\n  - implement\n---\n\nEvaluate results.\n";
    let op = op_from(content).unwrap();
    assert_eq!(op.config.name, "eval");
    assert_eq!(op.config.next, vec!["implement"]);
    assert_eq!(op.prompt, "Evaluate results.");
}

#[test]
fn parse_op_md_no_frontmatter() {
    let content = "Just some text without frontmatter.";
    assert!(parse_op_md(content).is_err());
}

#[test]
fn op_file_errors() {
    assert!(parse_op_md("text").err() == Some(OpError::NoFrontmatter));
    assert!(parse_op_md("---\nname: a\n").err() == Some(OpError::NotClosed));
    assert_eq!(
        OpError::NoFrontmatter.message(),
        "op.md must start with --- frontmatter delimiter"
    );
    assert_eq!(OpError::NotClosed.message(), "missing closing --- in op.md frontmatter");
    let s = parse_op_md("  \n--- a ---").ok().unwrap();
    assert_eq!((s.frontmatter.as_str(), s.prompt.as_str()), ("a", ""));
}

#[test]
fn parse_duration_secs() {
    assert_eq!(parse_duration("30"), Some(30));
    assert_eq!(parse_duration("30s"), Some(30));
}

#[test]
fn parse_duration_minutes() {
    assert_eq!(parse_duration("5m"), Some(300));
    assert_eq!(parse_duration("30m"), Some(1800));
}

#[test]
fn parse_duration_hours() {
    assert_eq!(parse_duration("1h"), Some(3600));
}

#[test]
fn parse_duration_invalid() {
    assert_eq!(parse_duration("abc"), None);
    assert_eq!(parse_duration(""), None);
}

#[test]
fn durations_that_do_not_fit() {
    assert!(fits("18446744073709551615"));
    assert!(!fits("18446744073709551615h"));
    assert!(fits("18446744073709551616h"));
    assert_eq!(parse_duration("18446744073709551616h"), None);
    assert_eq!(parse_duration(" 2h "), None);
    assert_eq!(parse_duration("2d"), None);
    assert_eq!(parse_duration("+2h"), Some(7200));
    assert_eq!(parse_duration("-1"), None);
}

/// The text that a decision is written as.
fn written(d: &Decision) -> String {
    let mut steps = write_result_to("/ws", d);
    assert_eq!(steps.len(), 2);
    match steps.pop() {
        Some(FileStep::Write { path, text }) => {
            assert_eq!(path, result_path("/ws"));
            text
        }
        _ => panic!("not written"),
    }
}

#[test]
fn decision_roundtrip() {
    let cases = vec![
        Decision::To { op: "impl".to_string(), params: None },
        Decision::Retry { after: Some(60) },
        Decision::Retry { after: None },
        Decision::Pause,
        Decision::Done,
    ];
    for d in cases {
        let json = written(&d);
        let parsed = match read_result_from(Some(&json)) {
            Ok(parsed) => parsed,
            Err(e) => panic!("{}", e.message()),
        };
        match (&d, &parsed) {
            (Decision::To { op: a, .. }, Decision::To { op: b, .. }) => assert_eq!(a, b),
            (Decision::Retry { after: a }, Decision::Retry { after: b }) => assert_eq!(a, b),
            (Decision::Pause, Decision::Pause) => {}
            (Decision::Done, Decision::Done) => {}
            _ => panic!("mismatch"),
        }
    }
}

#[test]
fn decisions_as_they_are_written() {
    let params = serde_json::from_str(r#"{"b": [1, -2, "x\n"], "a": true}"#).unwrap();
    let to = Decision::To { op: "a \"b\"".to_string(), params: Some(params) };
    assert_eq!(
        written(&to),
        r#"{"action":"to","op":"a \"b\"","params":{"a":true,"b":[1,-2,"x\n"]}}"#
    );
    let bare = Decision::To { op: "x".to_string(), params: None };
    assert_eq!(written(&bare), r#"{"action":"to","op":"x"}"#);
    assert_eq!(
        written(&Decision::Retry { after: Some(u64::MAX) }),
        r#"{"action":"retry","after":18446744073709551615}"#
    );
    assert_eq!(written(&Decision::Retry { after: None }), r#"{"action":"retry","after":null}"#);
    assert_eq!(written(&Decision::Pause), r#"{"action":"pause"}"#);
    assert_eq!(written(&Decision::Done), r#"{"action":"done"}"#);
    match read_result_from(Some(&written(&to))) {
        Ok(Decision::To { op, params: Some(p) }) => {
            assert_eq!(op, "a \"b\"");
            assert_eq!(p.to_string(), r#"{"a":true,"b":[1,-2,"x\n"]}"#);
        }
        _ => panic!("not read back"),
    }
}

fn nested(depth: usize) -> Decision {
    let mut value = serde_json::Value::Null;
    for _ in 0..depth {
        value = serde_json::Value::Array(vec![value]);
    }
    Decision::To { op: "x".to_string(), params: Some(value) }
}

#[test]
fn deep_params_kept_up_to_a_limit() {
    assert!(matches!(
        read_result_from(Some(&written(&nested(126)))),
        Ok(Decision::To { params: Some(_), .. })
    ));
    assert!(matches!(
        read_result_from(Some(&written(&nested(127)))),
        Err(ResultError::Unreadable(_))
    ));
    let null = Decision::To { op: "x".to_string(), params: Some(serde_json::Value::Null) };
    assert!(matches!(
        read_result_from(Some(&written(&null))),
        Ok(Decision::To { params: None, .. })
    ));
}

#[test]
fn decisions_read() {
    let read = |text: &str| read_result_from(Some(text));
    assert!(matches!(read(r#"{"action":"retry"}"#), Ok(Decision::Retry { after: None })));
    assert!(matches!(read(r#"{"after":5,"action":"retry"}"#), Ok(Decision::Retry { after: Some(5) })));
    assert!(matches!(read(r#"{"action":"done","more":1}"#), Ok(Decision::Done)));
    assert!(matches!(read(r#"["pause"]"#), Ok(Decision::Pause)));
    assert!(matches!(read(r#"["retry",7]"#), Ok(Decision::Retry { after: Some(7) })));
    assert!(matches!(read(r#"["to","x",3]"#), Ok(Decision::To { params: Some(_), .. })));
    assert!(matches!(read(r#"["to","x"]"#), Ok(Decision::To { params: None, .. })));
    for text in [
        r#"{"action":"go"}"#,
        r#"{"action":"to"}"#,
        r#"{"action":"to","op":1}"#,
        r#"{"action":"retry","after":-1}"#,
        r#"{"action":"retry","after":1.5}"#,
        r#"{"op":"x"}"#,
        r#"["retry"]"#,
        r#"["done",1]"#,
        r#"["to","x",1,2]"#,
        "[]",
        "\"done\"",
    ] {
        assert!(matches!(read(text), Err(ResultError::Undecided)), "{text}");
    }
    assert!(matches!(read("{"), Err(ResultError::Unreadable(e)) if !e.is_empty()));
    match read_result_from(None) {
        Err(e) => assert_eq!(e.message(), "no result (missing result.json in workspace)"),
        Ok(_) => panic!("read"),
    }
    assert_eq!(ResultError::Undecided.message(), "parsing result");
}

#[test]
fn op_allows_valid() {
    let op = Op {
        config: OpFrontmatter {
            name: "implement".to_string(),
            rules: vec![],
            next: vec!["validate".to_string(), "implement".to_string()],
            on: None,
            params: NameMap::new(),
            timeout: None,
        },
        prompt: String::new(),
    };
    assert!(op_allows(&op, "validate"));
    assert!(op_allows(&op, "implement"));
    assert!(!op_allows(&op, "unknown"));
}

#[test]
fn parse_lifecycle_op() {
    let content = "---\nname: cleanup\non: finish\n---\n\nClean up resources.\n";
    let op = op_from(content).unwrap();
    assert_eq!(op.config.on, Some(Lifecycle::Finish));
    assert_eq!(op.config.name, "cleanup");
    assert!(op.config.next.is_empty());
}

#[test]
fn parse_lifecycle_variants() {
    let success = op_from("---\nname: a\non: success\n---\n\nok\n").unwrap();
    assert_eq!(success.config.on, Some(Lifecycle::Success));

    let failure = op_from("---\nname: b\non: failure\n---\n\nfail\n").unwrap();
    assert_eq!(failure.config.on, Some(Lifecycle::Failure));

    let finish = op_from("---\nname: c\non: finish\n---\n\ndone\n").unwrap();
    assert_eq!(finish.config.on, Some(Lifecycle::Finish));
}

#[test]
fn regular_op_has_no_lifecycle() {
    let content = "---\nname: implement\nnext:\n  - validate\n---\n\nDo stuff.\n";
    let op = op_from(content).unwrap();
    assert_eq!(op.config.on, None);
}

#[test]
fn op_timeout_before_flow_timeout() {
    let mut front = OpFrontmatter {
        name: "a".to_string(),
        rules: vec![],
        next: vec![],
        on: None,
        params: NameMap::new(),
        timeout: None,
    };
    let meta = FlowMeta {
        start: "a".to_string(),
        state: None,
        max_retries: default_max_retries(),
        timeout: default_timeout(),
    };
    assert_eq!(resolve_timeout(&front, &meta), Some(7200));
    front.timeout = Some("5m".to_string());
    assert_eq!(resolve_timeout(&front, &meta), Some(300));
    front.timeout = Some("soon".to_string());
    assert_eq!(resolve_timeout(&front, &meta), None);
}

#[test]
fn flow_files() {
    assert_eq!(flow_dir("/r", "dev"), "/r/.cella/flows/dev");
    assert_eq!(load_flow("/r", "dev"), "/r/.cella/flows/dev/flow.toml");
    assert_eq!(load_op("/r/.cella/flows/dev", "impl"), "/r/.cella/flows/dev/ops/impl/op.md");
    assert_eq!(flow_state_dir(None, "dev", 7), "/var/lib/cellx/state/dev-7");
    assert_eq!(flow_state_dir(Some("/s"), "dev", 7), "/s/dev-7");
    assert_eq!(op_workspace("/s/dev-7", "impl", 9), "/s/dev-7/impl-9");
}

#[test]
fn signal_arrives() {
    for (word, signal) in [("pause", Signal::Pause), ("done", Signal::Done)] {
        let steps = write_signal(word);
        match steps.last() {
            Some(FileStep::Write { path, text }) => {
                assert_eq!(*path, signal_path());
                assert!(check_signal(text) == Some(signal));
            }
            _ => panic!("not written"),
        }
    }
    assert!(check_signal("else").is_none());
}

#[test]
fn status_replaced_whole() {
    let status = FlowStatus {
        flow_name: "dev".to_string(),
        current_op: "impl".to_string(),
        state: FlowState::Running,
        started_at: 1,
        op_started_at: 2,
        state_dir: "/s/dev-1".to_string(),
    };
    let steps = status.save("{}");
    match (&steps[1], &steps[2], &steps[4]) {
        (
            FileStep::Write { path, text },
            FileStep::Rename { from, to },
            FileStep::Write { path: pointer, text: copy },
        ) => {
            assert_eq!(path, "/s/dev-1/flow.json.tmp");
            assert_eq!(text, "{}");
            assert_eq!(from, path);
            assert_eq!(*to, status.flow_json_path());
            assert_eq!(*pointer, FlowStatus::pointer_path());
            assert_eq!(copy, text);
        }
        _ => panic!("steps"),
    }
    assert_eq!(FlowStatus::load(), "/tmp/cellx/flow.json");
    assert!(matches!(FlowStatus::remove(), FileStep::Remove(p) if p == "/tmp/cellx/flow.json"));
    assert_eq!(FlowState::Paused.text(), "paused");
    assert_eq!(FlowState::Paused.label(), "Paused");
}

#[test]
fn seconds_of_points_in_time() {
    let epoch = std::time::UNIX_EPOCH;
    let millis = std::time::Duration::from_millis;
    assert_eq!(seconds_at(&epoch), Some(0));
    assert_eq!(seconds_at(&(epoch + millis(90_999))), Some(90));
    assert_eq!(seconds_at(&(epoch - millis(1))), None);
}

#[test]
fn clock_shows_the_time() {
    let a = now_secs();
    assert!(a > 1_600_000_000);
    assert!(or_zero(clock()) >= a);
    assert_eq!(or_zero(None), 0);
}
