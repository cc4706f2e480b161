use cella::cellx::args::{
    detect_repo_root, params_of, restart_command, retry, service_command, workspace_from_env,
    RootSearch,
};
use cella::cellx::hooks::{
    onion_hook, onion_next, resolve_hooks, run_hook, run_onion, signed_text, HookScene, Onion,
    Present, ResolvedHooks,
};
use cella::flow::state::Decision;
use cella::names::NameMap;

fn all() -> Present {
    Present {
        op_handle: true,
        flow_handle: true,
        op_pre: true,
        flow_pre: true,
        op_post: true,
        flow_post: true,
    }
}

#[test]
fn hooks_wrap_the_op() {
    let h = resolve_hooks("/f", "plan", all()).ok().unwrap();
    assert_eq!(h.handle, "/f/ops/plan/handle.sh");
    assert_eq!(h.pre, vec!["/f/pre.sh", "/f/ops/plan/pre.sh"]);
    assert_eq!(h.post, vec!["/f/ops/plan/post.sh", "/f/post.sh"]);
}

#[test]
fn flow_handles_where_the_op_does_not() {
    let mut p = all();
    p.op_handle = false;
    p.op_pre = false;
    p.flow_post = false;
    let h = resolve_hooks("/f", "plan", p).ok().unwrap();
    assert_eq!(h.handle, "/f/handle.sh");
    assert_eq!(h.pre, vec!["/f/pre.sh"]);
    assert_eq!(h.post, vec!["/f/ops/plan/post.sh"]);
    p.flow_handle = false;
    assert_eq!(
        resolve_hooks("/f", "plan", p).err().unwrap().message(),
        "no handle.sh found (checked /f/ops/plan/handle.sh and /f/handle.sh)"
    );
}

/// Runs the hooks, each left with the code that `code` gives its script.
fn peel(hooks: &ResolvedHooks, code: impl Fn(&str) -> i32) -> (i32, Vec<(String, Option<i32>)>) {
    let mut seen = vec![];
    let mut at = run_onion(hooks);
    loop {
        match onion_hook(hooks, at) {
            Some((script, told)) => {
                let c = code(&script);
                seen.push((script, told));
                at = onion_next(hooks, at, c);
            }
            None => match at {
                Onion::Finished(c) => return (c, seen),
                _ => panic!("no hook"),
            },
        }
    }
}

#[test]
fn onion_in_order() {
    let h = resolve_hooks("/f", "plan", all()).ok().unwrap();
    let (code, seen) = peel(&h, |s| if s.ends_with("handle.sh") { 3 } else { 0 });
    assert_eq!(code, 3);
    assert_eq!(
        seen,
        vec![
            ("/f/pre.sh".to_string(), None),
            ("/f/ops/plan/pre.sh".to_string(), None),
            ("/f/ops/plan/handle.sh".to_string(), None),
            ("/f/ops/plan/post.sh".to_string(), Some(3)),
            ("/f/post.sh".to_string(), Some(3)),
        ]
    );
}

#[test]
fn onion_stops_at_failures() {
    let h = resolve_hooks("/f", "plan", all()).ok().unwrap();
    let (code, seen) = peel(&h, |s| if s == "/f/ops/plan/pre.sh" { 7 } else { 0 });
    assert_eq!((code, seen.len()), (7, 2));
    let (code, seen) = peel(&h, |s| if s == "/f/ops/plan/post.sh" { -9 } else { 0 });
    assert_eq!((code, seen.len()), (-9, 4));
}

fn scene() -> HookScene {
    HookScene {
        op_name: "plan".to_string(),
        flow_name: "dev".to_string(),
        flow_dir: "/f".to_string(),
        state_dir: "/s".to_string(),
        workspace: "/w".to_string(),
        prompt: "do it".to_string(),
        duration: 0,
    }
}

#[test]
fn hook_sees_its_variables() {
    let mut params = NameMap::new();
    params.insert("my_key".to_string(), "v".to_string());
    params.insert("straße".to_string(), "w".to_string());
    let transition: Option<serde_json::Value> = serde_json::from_str("{\"b\": 1, \"a\": [true]}").ok();
    let env = run_hook(&scene(), &params, &transition, Some(-1));
    let get = |k: &str| env.iter().find(|(n, _)| n == k).map(|(_, v)| v.as_str());
    assert_eq!(get("FLOW_NAME"), Some("dev"));
    assert_eq!(get("FLOW_DIR"), Some("/f"));
    assert_eq!(get("FLOW_STATE_DIR"), Some("/s"));
    assert_eq!(get("OP_NAME"), Some("plan"));
    assert_eq!(get("OP_WORKSPACE"), Some("/w"));
    assert_eq!(get("OP_PROMPT"), Some("do it"));
    assert_eq!(get("OP_DURATION"), Some("0"));
    assert_eq!(get("PARAM_MY_KEY"), Some("v"));
    assert_eq!(get("PARAM_STRASSE"), Some("w"));
    assert_eq!(get("OP_PARAMS"), Some("{\"a\":[true],\"b\":1}"));
    assert_eq!(get("OP_EXIT_CODE"), Some("-1"));
    assert_eq!(env.len(), 11);
    assert_eq!(run_hook(&scene(), &NameMap::new(), &None, None).len(), 7);
}

#[test]
fn signed_numerals() {
    assert_eq!(signed_text(i32::MIN), "-2147483648");
    assert_eq!(signed_text(0), "0");
    assert_eq!(signed_text(12), "12");
}

#[test]
fn params_on_the_command_line() {
    assert_eq!(params_of(None), Ok(None));
    assert_eq!(params_of(Some("[1]")), Ok(serde_json::from_str("[1]").ok()));
    let e = params_of(Some("{")).err().unwrap();
    assert!(e.starts_with("invalid --params JSON: EOF while parsing"));
}

#[test]
fn retry_after_a_delay() {
    assert!(matches!(retry(Some("5m")), Decision::Retry { after: Some(300) }));
    assert!(matches!(retry(Some("soon")), Decision::Retry { after: None }));
    assert!(matches!(retry(None), Decision::Retry { after: None }));
}

#[test]
fn workspace_of_an_op() {
    assert_eq!(workspace_from_env(Some("/w")), "/w");
    assert_eq!(workspace_from_env(None), "/tmp/cellx");
}

#[test]
fn root_found_upwards() {
    let mut dir = "/home/me/repo/src".to_string();
    let mut tried = vec![];
    loop {
        tried.push(dir.clone());
        match detect_repo_root(&dir, dir == "/home/me/repo") {
            RootSearch::Found(d) => {
                assert_eq!(d, "/home/me/repo");
                break;
            }
            RootSearch::Try(d) => dir = d,
            RootSearch::NotFound => panic!("not found"),
        }
    }
    assert_eq!(tried.len(), 2);
    assert!(matches!(detect_repo_root("/", false), RootSearch::NotFound));
}

#[test]
fn commands_from_words() {
    let words = vec!["npm".to_string(), "run".to_string(), "dev".to_string()];
    assert_eq!(service_command(&words), "npm run dev");
    assert_eq!(restart_command(&words), Some("npm run dev".to_string()));
    assert_eq!(restart_command(&vec![]), None);
}
