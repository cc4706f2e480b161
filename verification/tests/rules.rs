use cella::cellx::rules::{
    apply_file_rules, apply_rules, clear_file_rules, clear_network_rules, clear_rules, denied_files,
    expand_refs, get_cell_ip, lookup_rule, merge_net_into, resolve_op_rules, Direction, Field,
    ResolvedRule,
};
use cella::flow::config::{FileRule, NetRule, Rule};
use cella::flow::op::{Op, OpFrontmatter};
use cella::names::NameMap;

fn op(name: &str, rules: &[&str]) -> Op {
    Op {
        config: OpFrontmatter {
            name: name.to_string(),
            rules: rules.iter().map(|s| s.to_string()).collect(),
            next: vec![],
            on: None,
            params: NameMap::new(),
            timeout: None,
        },
        prompt: String::new(),
    }
}

fn writes(allowed: Option<&[&str]>, denied: Option<&[&str]>) -> Option<NetRule> {
    let list = |l: &[&str]| l.iter().map(|s| s.to_string()).collect::<Vec<_>>();
    Some(NetRule { allowed: allowed.map(list), denied: denied.map(list) })
}

#[test]
fn resolve_standalone_rule() {
    let mut flow_rules = NameMap::new();
    flow_rules.insert(
        "llm-only".to_string(),
        Rule {
            extends: vec![],
            files: None,
            reads: None,
            writes: Some(NetRule {
                allowed: Some(vec!["api.anthropic.com".to_string()]),
                denied: Some(vec!["*".to_string()]),
            }),
        },
    );

    let op = op("review", &["llm-only"]);

    let resolved = resolve_op_rules(&op, &flow_rules, &NameMap::new());
    assert!(!resolved.extends_server);
    assert_eq!(resolved.writes_allowed, Some(vec!["api.anthropic.com".to_string()]));
    assert_eq!(resolved.writes_denied, Some(vec!["*".to_string()]));
}

#[test]
fn resolve_with_extends() {
    let mut flow_rules = NameMap::new();
    flow_rules.insert(
        "review".to_string(),
        Rule {
            extends: vec!["server:default".to_string()],
            files: Some(FileRule { denied: vec!["src/**".to_string()] }),
            reads: None,
            writes: Some(NetRule {
                allowed: Some(vec!["api.anthropic.com".to_string()]),
                denied: None,
            }),
        },
    );

    let op = op("review", &["review"]);

    let resolved = resolve_op_rules(&op, &flow_rules, &NameMap::new());
    assert!(resolved.extends_server);
    assert_eq!(resolved.writes_allowed, Some(vec!["api.anthropic.com".to_string()]));
    assert_eq!(resolved.files_denied, vec!["src/**"]);
}

#[test]
fn resolve_with_cell_reference() {
    let mut cell_rules = NameMap::new();
    cell_rules.insert(
        "strict".to_string(),
        Rule {
            extends: vec![],
            files: None,
            reads: None,
            writes: Some(NetRule { allowed: None, denied: Some(vec!["evil.com".to_string()]) }),
        },
    );

    let mut flow_rules = NameMap::new();
    flow_rules.insert(
        "impl".to_string(),
        Rule {
            extends: vec!["server:default".to_string()],
            files: None,
            reads: None,
            writes: Some(NetRule {
                allowed: None,
                denied: Some(vec!["cell:strict".to_string(), "*.bad.com".to_string()]),
            }),
        },
    );

    let op = op("impl", &["impl"]);

    let resolved = resolve_op_rules(&op, &flow_rules, &cell_rules);
    assert!(resolved.extends_server);
    assert_eq!(
        resolved.writes_denied,
        Some(vec!["evil.com".to_string(), "*.bad.com".to_string()])
    );
}

#[test]
fn resolve_no_rules_inherits_server() {
    let op = op("impl", &[]);

    let resolved = resolve_op_rules(&op, &NameMap::new(), &NameMap::new());
    assert!(resolved.extends_server);
    assert!(resolved.writes_allowed.is_none());
}

#[test]
fn resolve_missing_ref_ignored() {
    let op = op("impl", &["nonexistent"]);

    let resolved = resolve_op_rules(&op, &NameMap::new(), &NameMap::new());
    assert!(!resolved.extends_server);
    assert!(resolved.writes_allowed.is_none());
}

#[test]
fn later_rule_wins() {
    let mut book = NameMap::new();
    let mut first = Rule::default();
    first.writes = writes(Some(&["a.com"]), Some(&["b.com"]));
    let mut second = Rule::default();
    second.writes = writes(Some(&["c.com"]), None);
    book.insert("first".to_string(), first);
    book.insert("second".to_string(), second);
    let r = resolve_op_rules(&op("x", &["first", "second"]), &book, &NameMap::new());
    assert_eq!(r.writes_allowed, Some(vec!["c.com".to_string()]));
    assert_eq!(r.writes_denied, Some(vec!["b.com".to_string()]));
}

#[test]
fn rule_books_by_prefix() {
    let mut cell = NameMap::new();
    let mut flow = NameMap::new();
    let mut c = Rule::default();
    c.extends = vec!["from cell".to_string()];
    let mut f = Rule::default();
    f.extends = vec!["from flow".to_string()];
    cell.insert("r".to_string(), c);
    flow.insert("r".to_string(), f);
    assert_eq!(lookup_rule("r", &cell, &flow).unwrap().extends, vec!["from flow"]);
    assert_eq!(lookup_rule("flow:r", &cell, &flow).unwrap().extends, vec!["from flow"]);
    assert_eq!(lookup_rule("cell:r", &cell, &flow).unwrap().extends, vec!["from cell"]);
    assert_eq!(lookup_rule("r", &cell, &NameMap::new()).unwrap().extends, vec!["from cell"]);
    assert!(lookup_rule("flow:q", &cell, &flow).is_none());
}

#[test]
fn references_that_are_none_stay() {
    let values: Vec<String> =
        ["*.a:b", "http://x", "host:80", "plain"].iter().map(|s| s.to_string()).collect();
    let r = expand_refs(
        &values,
        Field::Denied,
        Direction::Writes,
        &NameMap::new(),
        &NameMap::new(),
    );
    assert_eq!(r, vec!["*.a:b", "http://x", "plain"]);
}

#[test]
fn merging_keeps_what_is_not_said() {
    let mut target = Some(vec!["old".to_string()]);
    merge_net_into(&mut target, &writes(None, Some(&["d"])), Field::Allowed);
    assert_eq!(target, Some(vec!["old".to_string()]));
    merge_net_into(&mut target, &writes(None, Some(&["d"])), Field::Denied);
    assert_eq!(target, Some(vec!["old".to_string(), "d".to_string()]));
    merge_net_into(&mut target, &None, Field::Denied);
    assert_eq!(target, Some(vec!["old".to_string(), "d".to_string()]));
    let mut fresh = None;
    merge_net_into(&mut fresh, &writes(Some(&["a"]), None), Field::Allowed);
    assert_eq!(fresh, Some(vec!["a".to_string()]));
}

fn resolved() -> ResolvedRule {
    ResolvedRule {
        extends_server: true,
        reads_allowed: None,
        reads_denied: None,
        writes_allowed: Some(vec!["a.com".to_string()]),
        writes_denied: None,
        files_denied: vec!["src/**".to_string(), "secret.txt".to_string()],
    }
}

#[test]
fn network_rules_posted() {
    let line = apply_rules(&resolved(), "192.168.83.11").unwrap();
    assert_eq!(line[0], "curl");
    assert!(line.contains(&"http://192.168.83.1:8082/cells".to_string()));
    let body = line.iter().find(|a| a.starts_with('{')).unwrap();
    assert_eq!(
        body,
        "{\"branchId\":\"flow\",\"cellIp\":\"192.168.83.11\",\"egress\":{\"additive\":true,\"reads\":{\"allowed\":null,\"denied\":null},\"writes\":{\"allowed\":[\"a.com\"],\"denied\":null}}}"
    );
    assert_eq!(
        clear_network_rules("192.168.83.11"),
        vec![
            "curl",
            "-sf",
            "-X",
            "POST",
            "-H",
            "Content-Type: application/json",
            "-d",
            "{\"branchId\":\"flow\",\"cellIp\":\"192.168.83.11\"}",
            "http://192.168.83.1:8082/cells",
        ]
    );
    let mut silent = resolved();
    silent.writes_allowed = None;
    assert!(apply_rules(&silent, "192.168.83.11").is_none());
}

#[test]
fn files_denied_and_freed() {
    let files = denied_files(&resolved(), "/repo");
    assert_eq!(files, vec!["/repo/src", "/repo/secret.txt"]);
    assert_eq!(apply_file_rules("/repo/src"), vec!["chmod", "-R", "a-w", "/repo/src"]);
    assert_eq!(clear_file_rules("/repo/src"), vec!["chmod", "-R", "u+w", "/repo/src"]);
    let lines = clear_rules(&Some("192.168.83.11".to_string()), &files);
    assert_eq!(lines.len(), 3);
    let alone = clear_rules(&None, &files);
    assert_eq!(alone.len(), 2);
}

#[test]
fn cell_address_from_hostname() {
    assert_eq!(
        get_cell_ip("10.0.2.15 192.168.83.42 fe80::1"),
        Some("192.168.83.42".to_string())
    );
    assert_eq!(get_cell_ip("10.0.2.15"), None);
}
