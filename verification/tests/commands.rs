use cella::cella::cli::{
    cell_not_found, cmd_add, cmd_create, cmd_hook, cmd_init, cmd_list, cmd_remove, cmd_resolve_cell,
    cmd_run, cmd_status, cmd_stop, connect_remote, current_repo, find_cell_server, flow_state,
    flow_to_run, format_elapsed, local_row, make_transport, no_worktree, run_server, server_row,
    vm_status, Asked, ConnectError, EndStep, ListScene, LocalCell, Row, Tone, Way,
};
use cella::cella::client::{CellStatus, Client, FlowInfo};
use cella::cella::config::{load, CellaConfig};
use cella::cella::gc::{age_text, cmd_gc, stale, summary, threshold, threshold_fits, used_at};
use cella::cella::secrets::{
    decrypt, edit, encrypt, encrypted_message, keep_secrets, recipient, resolve, ssh_key_paths,
    SecretsError, SecretsSource,
};
use cella::cella::transport::{BootStep, LocalTransport, RemoteTransport, Scene, Transport, Work};
use cella::flow::state::FileStep;
use cella::json::Json;
use cella::names::NameMap;
use cella::session::server::{ActiveServer, ServerEntry};

fn registry(servers: &[(&str, &str)]) -> NameMap<ServerEntry> {
    let mut r = NameMap::new();
    for (name, target) in servers {
        r.insert(name.to_string(), ServerEntry { target: target.to_string() });
    }
    r
}

fn remote(name: &str) -> ActiveServer {
    ActiveServer::Remote { name: name.to_string() }
}

fn status(name: &str, status: &str) -> CellStatus {
    CellStatus {
        name: name.to_string(),
        status: status.to_string(),
        ip: None,
        repo: None,
        flow: None,
    }
}

// Servers

fn found(
    local: bool,
    asked: &[(&str, &[(&str, &str)])],
    repo: Option<&str>,
    user: Option<&str>,
) -> String {
    let asked = asked
        .iter()
        .map(|(n, cells)| Asked {
            name: n.to_string(),
            cells: cells.iter().map(|(c, s)| status(c, s)).collect(),
        })
        .collect();
    let registry = registry(&[("alpha", "root@a"), ("beta", "root@b")]);
    match find_cell_server(local, &asked, "feat", repo, user, &registry) {
        Ok(ActiveServer::Localhost) => "here".to_string(),
        Ok(ActiveServer::Remote { name }) => name,
        Err(e) => e.message(),
    }
}

#[test]
fn server_of_a_cell() {
    let cells: [(&str, &[(&str, &str)]); 2] =
        [("alpha", &[("feat", "stopped")]), ("beta", &[("feat", "running")])];
    assert_eq!(found(true, &cells, Some("alpha"), None), "here");
    assert_eq!(found(false, &cells, Some("alpha"), None), "beta");
    assert_eq!(found(false, &cells[..1], Some("alpha"), Some("beta")), "alpha");
    assert_eq!(found(false, &[], None, Some("beta")), "beta");
    assert_eq!(found(false, &[], None, Some("localhost")), "here");
    assert_eq!(found(false, &[], None, None), "here");
    assert_eq!(
        found(false, &[], Some("gamma"), Some("beta")),
        "server 'gamma' not in registry. Add it with: cella server add gamma <target>"
    );
}

#[test]
fn connections() {
    let r = registry(&[("alpha", "root@a")]);
    assert_eq!(connect_remote(&remote("alpha"), &r).ok(), Some("root@a".to_string()));
    assert_eq!(
        connect_remote(&ActiveServer::Localhost, &r).err().unwrap().message(),
        "server has no target"
    );
    let e = connect_remote(&remote("beta"), &r).err().unwrap();
    assert!(matches!(e, ConnectError::Unknown(_)));
    assert_eq!(e.message(), "server 'beta' not in registry");
    assert!(matches!(make_transport(&ActiveServer::Localhost, &r), Ok(Way::Local(_))));
    match make_transport(&remote("alpha"), &r) {
        Ok(Way::Remote(t)) => assert_eq!(t.client.user_host(), "root@a"),
        _ => panic!("not remote"),
    }
    assert!(make_transport(&remote("beta"), &r).is_err());
    assert_eq!(run_server(Some("a"), Some("b"), Some("c")), Some("a".to_string()));
    assert_eq!(run_server(None, Some("b"), Some("c")), Some("b".to_string()));
    assert_eq!(run_server(None, None, Some("c")), Some("c".to_string()));
    assert_eq!(run_server(None, None, None), None);
}

// Words

#[test]
fn tones_of_words() {
    assert_eq!(vm_status("running"), Tone::Green);
    assert_eq!(vm_status("stopped"), Tone::Red);
    assert_eq!(vm_status("building"), Tone::Yellow);
    assert_eq!(flow_state("running"), Tone::Green);
    assert_eq!(flow_state("paused"), Tone::Yellow);
    assert_eq!(flow_state("done"), Tone::Dim);
    assert_eq!(flow_state("failed"), Tone::Red);
    assert_eq!(flow_state("else"), Tone::Plain);
}

#[test]
fn elapsed_time() {
    assert_eq!(format_elapsed(59), "59s");
    assert_eq!(format_elapsed(60), "1m");
    assert_eq!(format_elapsed(3599), "59m");
    assert_eq!(format_elapsed(3600), "1h");
    assert_eq!(format_elapsed(90000), "25h");
}

// Repositories

#[test]
fn init_writes_a_missing_config() {
    let steps = cmd_init("/r", false);
    assert!(matches!(&steps[0], FileStep::MakeDir(d) if d == "/r/.cella"));
    assert!(matches!(&steps[1], FileStep::Write { path, text }
        if path == "/r/.cella/config.toml" && text == "memory = \"4096M\"\nvcpu = 2\n"));
    assert_eq!(cmd_init("/r", true).len(), 1);
    assert_eq!(load("/r", true), "/r/.cella/config.toml");
    assert_eq!(load("/r", false), "/r/cella.toml");
}

#[test]
fn branches_created_and_added() {
    assert!(cmd_create("feat", false).is_ok());
    assert_eq!(
        cmd_create("feat", true).err().unwrap(),
        "branch 'feat' already exists — use 'cella add feat' instead"
    );
    assert!(cmd_add("feat", true).is_ok());
    assert_eq!(
        cmd_add("feat", false).err().unwrap(),
        "branch 'feat' does not exist — use 'cella create feat' to create it"
    );
    assert_eq!(no_worktree("feat"), "no worktree for 'feat' — use 'cella add feat' first");
    assert_eq!(cell_not_found("feat"), "cell 'feat' not found");
}

#[test]
fn cells_removed_and_stopped() {
    let here = ActiveServer::Localhost;
    let there = remote("a");
    assert_eq!(cmd_remove(Some(&here), true, false), vec![EndStep::StopFlow, EndStep::StopLocal, EndStep::RemoveTree]);
    assert_eq!(cmd_remove(Some(&here), false, false), vec![EndStep::StopFlow, EndStep::RemoveTree]);
    assert_eq!(
        cmd_remove(Some(&there), false, true),
        vec![EndStep::StopFlow, EndStep::DeleteRemote, EndStep::RemoveTree, EndStep::DeleteBranch]
    );
    assert_eq!(cmd_remove(None, false, true), vec![EndStep::RemoveTree, EndStep::DeleteBranch]);
    assert_eq!(cmd_stop(&there, false, false), vec![EndStep::StopFlow, EndStep::Down, EndStep::SayStopped]);
    assert_eq!(cmd_stop(&here, true, true), vec![EndStep::StopFlow, EndStep::StopLocal, EndStep::SayStopped, EndStep::Remove]);
    assert_eq!(cmd_stop(&here, false, false), vec![EndStep::StopFlow, EndStep::SayNotRunning]);
}

#[test]
fn shell_hooks() {
    assert!(cmd_hook("fish").unwrap().starts_with("function cella\n    if test"));
    assert_eq!(cmd_hook("bash"), cmd_hook("zsh"));
    assert!(cmd_hook("zsh").unwrap().starts_with("cella() {\n    if [ \"$1\" = \"cd\" ]; then\n"));
    assert_eq!(cmd_hook("nu"), cmd_hook("nushell"));
    assert!(cmd_hook("nu").unwrap().starts_with("def --wrapped cella [...args: string] {"));
    assert_eq!(cmd_hook("powershell"), cmd_hook("pwsh"));
    assert!(cmd_hook("pwsh").unwrap().contains("Set-Location (& cella.exe path $args[1])"));
    assert_eq!(
        cmd_hook("ksh").err().unwrap(),
        "unsupported shell 'ksh' — use fish, bash, zsh, nu, or powershell"
    );
}

#[test]
fn cell_that_a_push_goes_to() {
    let cell = |name: &str, running, repo: Option<&str>| LocalCell {
        name: name.to_string(),
        running,
        repo: repo.map(|r| r.to_string()),
    };
    let cells = vec![
        cell("a", false, Some("app")),
        cell("b", true, None),
        cell("c", true, Some("app\n")),
    ];
    assert_eq!(
        cmd_resolve_cell(&cells, Some("app")),
        Some("/var/lib/cella/cells/c/repo".to_string())
    );
    assert_eq!(
        cmd_resolve_cell(&cells, None),
        Some("/var/lib/cella/cells/b/repo".to_string())
    );
    assert_eq!(
        cmd_resolve_cell(&cells, Some("")),
        Some("/var/lib/cella/cells/b/repo".to_string())
    );
    assert_eq!(cmd_resolve_cell(&cells, Some("other")), None);
}

// Listing

fn flow(state: &str) -> FlowInfo {
    FlowInfo {
        flow_name: "dev".to_string(),
        current_op: "plan".to_string(),
        state: state.to_string(),
        started_at: 100,
        op_started_at: 100,
    }
}

fn rows() -> Vec<Row> {
    vec![
        local_row("feat", true, Some("app\n"), Some(flow("running"))),
        local_row("fix", false, None, Some(flow("done"))),
        server_row(
            "alpha",
            CellStatus {
                name: "x".to_string(),
                status: "building".to_string(),
                ip: None,
                repo: Some("lib".to_string()),
                flow: None,
            },
        ),
    ]
}

#[test]
fn cells_of_this_repository_listed() {
    let scene = ListScene {
        branch: Some("feat".to_string()),
        repo: current_repo(Some("/home/me/app")),
        all: false,
        now: 220,
    };
    let shown = cmd_list(&rows(), &scene);
    assert_eq!(shown.len(), 2);
    assert!(shown[0].current && !shown[1].current);
    assert_eq!(shown[0].label, "feat");
    assert_eq!(shown[0].flow, Some("dev".to_string()));
    assert_eq!(shown[0].elapsed, Some("2m".to_string()));
    assert_eq!((shown[0].status.as_str(), shown[0].tone), ("running", Tone::Green));
    assert_eq!(shown[0].server, "localhost");
    assert_eq!(shown[1].label, "fix");
    assert_eq!((shown[1].flow.as_deref(), shown[1].elapsed.as_deref()), (Some("dev"), None));
}

#[test]
fn all_cells_listed() {
    let mut scene = ListScene { branch: None, repo: Some("app".to_string()), all: true, now: 0 };
    let shown = cmd_list(&rows(), &scene);
    let labels: Vec<&str> = shown.iter().map(|r| r.label.as_str()).collect();
    assert_eq!(labels, vec!["app/feat", "fix", "lib/x"]);
    assert_eq!(shown[0].elapsed, Some("0s".to_string()));
    assert_eq!((shown[2].tone, shown[2].server.as_str()), (Tone::Yellow, "alpha"));
    scene.all = false;
    scene.repo = current_repo(None);
    assert_eq!(cmd_list(&rows(), &scene).len(), 3);
    assert_eq!(current_repo(Some("/")), None);
}

#[test]
fn status_of_a_cell() {
    let lines = |flow: Option<FlowInfo>, now| -> Vec<String> {
        cmd_status("feat", "running", &flow, now)
            .iter()
            .map(|l| format!("{}: {}", l.label, l.value))
            .collect()
    };
    assert_eq!(lines(None, 0), vec!["cell: feat", "vm: running", "flow: none"]);
    assert_eq!(
        lines(Some(flow("paused")), 160),
        vec!["cell: feat", "vm: running", "flow: dev", "state: paused", "op: plan", "elapsed: 1m"]
    );
    assert_eq!(lines(Some(flow("paused")), 100).len(), 5);
    let shown = cmd_status("feat", "stopped", &Some(flow("failed")), 0);
    assert_eq!((shown[1].tone, shown[3].tone), (Tone::Red, Tone::Red));
}

// Running flows

#[test]
fn flow_named_or_paused() {
    let here = ActiveServer::Localhost;
    let paused = "{\"state\":\"paused\",\"flow_name\":\"qa\"}";
    assert_eq!(flow_to_run(Some("dev"), &here, Some(paused)), Ok("dev".to_string()));
    assert_eq!(flow_to_run(None, &here, Some(paused)), Ok("qa".to_string()));
    let none = Err("specify a flow name: cella run <flow>".to_string());
    assert_eq!(flow_to_run(None, &remote("a"), Some(paused)), none);
    assert_eq!(
        flow_to_run(None, &here, Some("{\"state\":\"done\",\"flow_name\":\"qa\"}")),
        none
    );
    assert_eq!(flow_to_run(None, &here, Some("{\"state\":\"paused\"}")), none);
    assert_eq!(flow_to_run(None, &here, Some("oops")), none);
    assert_eq!(flow_to_run(None, &here, None), none);
}

#[test]
fn params_of_a_flow() {
    let run = |p: &[&str]| cmd_run(&p.iter().map(|s| s.to_string()).collect());
    assert_eq!(run(&[]), Ok(None));
    assert_eq!(
        run(&["project=my project", "a=b=c", "z="]),
        Ok(Some("{\"a\":\"b=c\",\"project\":\"my project\",\"z\":\"\"}".to_string()))
    );
    assert_eq!(run(&["a=1", "a=2"]), Ok(Some("{\"a\":\"2\"}".to_string())));
    assert_eq!(
        run(&["a=1", "oops", "bad"]),
        Err("invalid param 'oops' — expected key=value".to_string())
    );
}

// Removal of old cells

#[test]
fn ages_read() {
    assert_eq!(threshold("7d"), Ok(604800));
    assert_eq!(threshold("24h"), Ok(86400));
    assert_eq!(threshold("1h"), Ok(3600));
    assert_eq!(threshold("90"), Ok(90));
    assert_eq!(
        threshold("soon"),
        Err("invalid duration 'soon' — use e.g. 7d, 24h, 1h".to_string())
    );
    assert!(threshold("d").is_err());
    assert!(threshold_fits("213503982334601d"));
    assert!(!threshold_fits("213503982334602d"));
    assert!(!threshold_fits("18446744073709551615h"));
}

#[test]
fn stale_cells_removed() {
    let now = 10_000;
    let status = "{\"op_started_at\": 9000}";
    assert_eq!(cmd_gc(false, Some(status), Some(1), now, 1000), Some(1000));
    assert_eq!(cmd_gc(false, Some(status), Some(1), now, 1001), None);
    assert_eq!(cmd_gc(true, Some(status), Some(1), now, 1000), None);
    assert_eq!(cmd_gc(false, Some("{\"op_started_at\": 0}"), Some(5000), now, 1000), Some(5000));
    assert_eq!(cmd_gc(false, Some("oops"), Some(5000), now, 1000), Some(5000));
    assert_eq!(cmd_gc(false, None, None, now, 0), None);
    assert_eq!(stale(false, 11_000, now, 0), Some(0));
    assert_eq!(used_at(None, None), 0);
}

#[test]
fn ages_in_words() {
    assert_eq!(age_text(86400 * 9), "9d");
    assert_eq!(age_text(86399), "23h");
    assert_eq!(age_text(3599), "59m");
    assert_eq!(age_text(59), "0m");
    assert_eq!(summary(true, 3), "dry run — no cells deleted");
    assert_eq!(summary(false, 0), "no stale cells to clean up");
    assert_eq!(summary(false, 1), "cleaned up 1 cell");
    assert_eq!(summary(false, 2), "cleaned up 2 cells");
}

// Secrets

fn strings(list: &[&str]) -> Vec<String> {
    list.iter().map(|s| s.to_string()).collect()
}

#[test]
fn secrets_decrypted() {
    assert_eq!(
        ssh_key_paths(Some("/home/me")),
        vec!["/home/me/.ssh/id_ed25519", "/home/me/.ssh/id_rsa", "/var/lib/cella/ssh/id_ed25519"]
    );
    assert_eq!(ssh_key_paths(None)[0], "/root/.ssh/id_ed25519");
    let lines = decrypt("/r/.cella/secrets.age", &strings(&["k1", "k2"])).ok().unwrap();
    assert_eq!(lines[1], vec!["age", "-d", "-i", "k2", "/r/.cella/secrets.age"]);
    assert_eq!(
        decrypt("f", &vec![]).err().unwrap().message(),
        "no SSH keys found for decryption"
    );
    assert_eq!(
        SecretsError::NoKeyMatched.message(),
        "age decryption failed — no key matched any recipient"
    );
}

#[test]
fn secrets_found() {
    let mut config = CellaConfig::default();
    assert!(matches!(resolve("/r", &config, false), SecretsSource::Nowhere));
    assert!(matches!(resolve("/r", &config, true), SecretsSource::Age(f) if f == "/r/.cella/secrets.age"));
    config.secrets.command = Some("pass show x".to_string());
    match resolve("/r", &config, true) {
        SecretsSource::Command(l) => assert_eq!(l, vec!["sh", "-c", "pass show x"]),
        _ => panic!("no command"),
    }
    assert_eq!(
        SecretsError::CommandFailed("x".to_string()).message(),
        "secrets command failed: x"
    );
    assert!(matches!(keep_secrets("A=1"), FileStep::Write { path, text }
        if path == "/var/lib/cella/secrets.env" && text == "A=1"));
}

#[test]
fn secrets_encrypted_and_edited() {
    assert_eq!(
        encrypt("/r", &strings(&["k1", "k2"]), true).ok().unwrap(),
        vec![
            "age",
            "-r",
            "k1",
            "-r",
            "k2",
            "-o",
            "/r/.cella/secrets.age",
            "/r/.cella/secrets.env"
        ]
    );
    assert_eq!(
        encrypt("/r", &vec![], true).err().unwrap().message(),
        "no keys configured — add secrets.keys in .cella/config.toml"
    );
    assert_eq!(
        encrypt("/r", &strings(&["k"]), false).err().unwrap().message(),
        ".cella/secrets.env not found — create it first"
    );
    assert_eq!(
        SecretsError::EncryptionFailed("x".to_string()).message(),
        "age encryption failed: x"
    );
    assert_eq!(encrypted_message("/r"), "encrypted → /r/.cella/secrets.age");
    let plan = edit("/r", &strings(&["k"]), "A=1", None).ok().unwrap();
    assert_eq!(plan.editor, vec!["vi", "/r/.cella/secrets.env"]);
    assert!(matches!(&plan.prepare[1], FileStep::Write { text, .. } if text == "A=1"));
    assert!(matches!(&plan.remove, FileStep::Remove(p) if p == "/r/.cella/secrets.env"));
    assert_eq!(edit("/r", &strings(&["k"]), "", Some("nano")).ok().unwrap().editor[0], "nano");
    assert!(edit("/r", &vec![], "", None).is_err());
}

#[test]
fn secrets_recipient() {
    let mut config = CellaConfig::default();
    assert_eq!(
        recipient(None, &config).err().unwrap().message(),
        "no recipient — pass -r or set secrets.recipient in config"
    );
    config.secrets.recipient = Some("age1".to_string());
    assert_eq!(recipient(None, &config).ok(), Some("age1".to_string()));
    assert_eq!(recipient(Some("age2"), &config).ok(), Some("age2".to_string()));
    assert_eq!((config.memory.as_str(), config.vcpu), ("2G", 2));
}

// Ways to work with cells

fn scene(running: bool, branch_exists: bool) -> Scene {
    Scene {
        local_running: running,
        cells: if running { vec![status("feat", "running")] } else { vec![] },
        branch_exists,
        repo_root: "/home/me/app".to_string(),
        config: Json::Null,
        has_sync: true,
    }
}

#[test]
fn cells_booted_here() {
    let t = LocalTransport;
    assert!(t.is_running("feat", &scene(true, true)));
    assert_eq!(t.ensure_running("feat", &scene(true, false)).len(), 0);
    let steps = t.ensure_running("feat", &scene(false, false));
    assert!(matches!(steps[..], [
        BootStep::CreateBranch,
        BootStep::Secrets,
        BootStep::Clone,
        BootStep::Start { .. }
    ]));
    assert!(matches!(&steps[3], BootStep::Start { repo } if repo == "app"));
    assert_eq!(t.ensure_running("feat", &scene(false, true)).len(), 3);
}

#[test]
fn cells_booted_on_a_server() {
    let t = RemoteTransport { client: Client::connect("root@host") };
    assert!(t.is_running("feat", &scene(true, true)));
    assert!(!t.is_running("other", &scene(true, true)));
    let steps = t.ensure_running("feat", &scene(false, true));
    assert!(matches!(steps[..], [
        BootStep::Prepare(_),
        BootStep::Remote { .. },
        BootStep::Push(_),
        BootStep::Up(_),
        BootStep::Sync
    ]));
    assert!(matches!(&steps[1], BootStep::Remote { url } if url == "cella://root@host/feat"));
    assert!(matches!(&steps[2], BootStep::Push(l) if *l == vec!["git", "push", "cella", "feat"]));
    assert!(matches!(&steps[3], BootStep::Up(r) if r.path == "/up"));
}

#[test]
fn work_here_and_on_a_server() {
    let here = LocalTransport;
    let there = RemoteTransport { client: Client::connect("root@host") };
    let command = |w: Work| match w {
        Work::Enter { cell, command } => {
            assert_eq!(cell, "feat");
            command
        }
        _ => panic!("not entered"),
    };
    assert_eq!(command(here.shell("feat", None)), None);
    assert_eq!(command(here.flow_stop("feat")).as_deref(), Some("cellx flow done"));
    assert_eq!(command(here.flow_pause("feat")).as_deref(), Some("cellx flow pause"));
    assert_eq!(
        command(here.flow_logs("feat", false)).as_deref(),
        Some("tail -100 /tmp/cellx/flow.log 2>/dev/null || echo 'no flow log yet'")
    );
    assert!(command(here.flow_logs("feat", true)).unwrap().starts_with("tail -f "));
    assert!(command(here.flow_start("feat", "qa", None)).unwrap().contains("'cellx flow run qa'"));
    assert!(matches!(there.shell("feat", None), Work::Run(l) if l[0] == "ssh"));
    assert!(matches!(there.flow_start("feat", "qa", None), Work::Ask { request, failure }
        if request.path == "/flow/start" && failure == "flow start failed: "));
    assert!(matches!(there.flow_stop("feat"), Work::Ask { request, failure }
        if request.path == "/flow/stop" && failure == "flow stop failed: "));
    assert!(matches!(there.flow_pause("feat"), Work::Ask { request, failure }
        if request.path == "/flow/pause" && failure == "flow pause failed: "));
    assert!(matches!(there.flow_logs("feat", true), Work::Follow { cell } if cell == "feat"));
    assert!(matches!(there.flow_logs("feat", false), Work::Show(r) if r.path == "/flow/logs"));
}
