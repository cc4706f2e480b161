use cella::flow::state::FileStep;
use cella::json::parse;
use cella::names::NameMap;
use cella::session::cell::{list_cells, runtime_dir, Cell, CellState};
use cella::session::cli::{
    cmd_kill, cmd_list, cmd_logs, cmd_server_status, cmd_server_use, cmd_sweep, hosts_to_list, in_use, name_of,
    print_cell_row, remote_sessions, server_logs, sessions_command, Block, Host, KillStep,
};
use cella::session::config::{load, CellaConfig, NucleusConfig};
use cella::session::dns::{deregister_dns, drop_lines, label, register_dns, sanitize_dns};
use cella::session::flake::{
    add_host_key, flake_text, generate_flake, has_repo_config, has_server_config, json_to_nix,
    read_host_config_user, FlakeParts,
};
use cella::session::git::{
    clone_failure, data_dir, init_clone_server, install_chown_hook, install_nucleus_hook,
    server_clone_path, RemoteStep, Repo,
};
use cella::session::proxy::{
    handle_deregister, handle_list, handle_register, register_cell, serve_control_api, CellRules,
    Route,
};
use cella::session::server::{
    active, active_file, add, hash_name, home_dir, load_client_config, load_registry, registry_path,
    repo_hash, resolve, write_active, ActiveServer, ServerEntry,
};
use cella::session::vm::{SessionInfo, SweepAction};

// Cells

#[test]
fn cell_lives() {
    let mut c = Cell::new("feat", "app");
    assert!(c.state == CellState::Created && c.ip.is_none() && c.started_at.is_none());
    assert_eq!(c.autostop.timeout, 0);
    c.mark_running_at("192.168.83.11", "me", Some(50));
    assert!(c.state == CellState::Running);
    assert_eq!((c.ip.as_deref(), c.user.as_str()), (Some("192.168.83.11"), "me"));
    assert_eq!(c.started_at, Some(50));
    c.set_autostop_timeout(60);
    c.schedule_autostop_at(Some(100));
    assert_eq!(c.autostop.stop_at, Some(160));
    assert_eq!(c.autostop_remaining_at(Some(110)), Some(50));
    assert!(!c.is_autostop_expired_at(Some(159)) && c.is_autostop_expired_at(Some(160)));
    assert_eq!(c.autostop_remaining_at(None), None);
    c.mark_stopped();
    assert!(c.state == CellState::Stopped && c.autostop.stop_at.is_none());
    assert_eq!(c.ip.as_deref(), Some("192.168.83.11"));
    c.mark_deleted();
    assert!(c.ip.is_none());
}

#[test]
fn cell_by_the_clock() {
    let mut c = Cell::new("feat", "app");
    c.mark_running("192.168.83.11", "me");
    assert!(c.started_at.unwrap() > 1_600_000_000);
    c.set_autostop_timeout(1000);
    c.schedule_autostop();
    assert!(c.autostop_remaining().unwrap() > 900 && !c.is_autostop_expired());
    c.clear_autostop();
    assert_eq!(c.autostop_remaining(), None);
    assert!(!c.is_autostop_expired());
    c.schedule_autostop_at(None);
    assert_eq!(c.autostop.stop_at, None);
}

#[test]
fn cell_saved() {
    let mut c = Cell::new("feat", "app");
    c.mark_running_at("192.168.83.11", "", None);
    let steps = c.save("{}");
    assert!(matches!(&steps[0], FileStep::MakeDir(d) if d == "/var/lib/cella/cells/feat"));
    match (&steps[1], &steps[2]) {
        (FileStep::Write { path, text }, FileStep::Rename { from, to }) => {
            assert_eq!(path, "/var/lib/cella/cells/feat/cell.json.tmp");
            assert_eq!((text.as_str(), from), ("{}", path));
            assert_eq!(*to, Cell::state_path("feat"));
        }
        _ => panic!("not replaced"),
    }
    assert_eq!(Cell::load("feat"), "/var/lib/cella/cells/feat/cell.json");
    let compat = c.write_runtime_compat("/rt");
    let names: Vec<String> = compat
        .iter()
        .map(|s| match s {
            FileStep::MakeDir(d) => format!("mkdir {d}"),
            FileStep::Write { path, text } => format!("{path}={text}"),
            FileStep::Remove(p) => format!("rm {p}"),
            FileStep::Rename { .. } => "mv".to_string(),
        })
        .collect();
    assert_eq!(
        names,
        vec![
            "mkdir /rt",
            "/rt/ip=192.168.83.11",
            "/rt/repo=app",
            "/rt/autostop.timeout=0",
            "rm /rt/autostop.at",
        ]
    );
    let again = Cell::load_or_new(Some(c), "feat", "other");
    assert_eq!(again.repo, "app");
    assert_eq!(Cell::load_or_new(None, "feat", "other").repo, "other");
}

#[test]
fn runtime_directories() {
    assert_eq!(runtime_dir("f", Some("/run/user/1000"), true, true), "/run/user/1000/cella/f");
    assert_eq!(runtime_dir("f", Some("/run/user/1000"), false, true), "/tmp/cella/f");
    assert_eq!(runtime_dir("f", Some("/run/user/1000"), false, false), "/run/user/1000/cella/f");
    assert_eq!(runtime_dir("f", None, false, false), "/tmp/cella/f");
    let names = ["b", "a", "B"].iter().map(|s| s.to_string()).collect();
    assert_eq!(list_cells(names), vec!["B", "a", "b"]);
}

// Names

#[test]
fn labels_are_stable() {
    for s in ["Feature/Auth", "--", "ÄÖ", "a__b", "x"] {
        let l = sanitize_dns(s);
        assert_eq!(sanitize_dns(&l), l);
        assert!(l.chars().all(|c| c.is_ascii_lowercase() || c.is_ascii_digit() || c == '-'));
        assert!(!l.starts_with('-') && !l.ends_with('-'));
    }
    assert_eq!(label("a.b"), "a-b");
    assert_eq!(sanitize_dns("ÄÖ"), "");
}

#[test]
fn names_registered() {
    assert_eq!(register_dns("", "1", "a.b.cell"), Some("1 a.b.cell\n".to_string()));
    let hosts = register_dns("2 c.b.cell\n", "1", "a.b.cell").unwrap();
    assert_eq!(hosts, "2 c.b.cell\n1 a.b.cell\n");
    assert_eq!(register_dns(&hosts, "1", "a.b.cell"), None);
    assert_eq!(deregister_dns(&hosts, "a.b.cell"), "2 c.b.cell\n");
    assert_eq!(deregister_dns("1 a.b.cell\n", "a.b.cell"), "");
    let lines = vec!["1 x".to_string(), "2 y".to_string()];
    assert_eq!(drop_lines(&lines, "x"), vec!["2 y"]);
}

// Flakes

#[test]
fn nix_from_json() {
    let nix = |s: &str| json_to_nix(&parse(s).unwrap());
    assert_eq!(nix("null"), "null");
    assert_eq!(nix("[true, -1.5, 7]"), "[ true -1.5 7 ]");
    assert_eq!(nix("\"a\\\\b\\\"c\""), "\"a\\\\b\\\"c\"");
    assert_eq!(nix("{\"b\": {}, \"a\": []}"), "{ a = [  ]; b = {  }; }");
}

#[test]
fn host_key_added_once() {
    let config = || parse("{\"user\":{\"name\":\"me\",\"authorizedKeys\":[\"k1\"]}}").unwrap();
    let once = add_host_key(config(), "k2");
    assert_eq!(
        json_to_nix(&once),
        "{ user = { authorizedKeys = [ \"k1\" \"k2\" ]; name = \"me\"; }; }"
    );
    let text = json_to_nix(&once);
    assert_eq!(json_to_nix(&add_host_key(once, "k2")), text);
    assert_eq!(json_to_nix(&add_host_key(parse("{\"user\":1}").unwrap(), "k")), "{ user = 1; }");
    assert_eq!(
        read_host_config_user("{\"user\":{\"name\":\"me\"}}"),
        Some("me".to_string())
    );
    assert_eq!(read_host_config_user("{\"user\":{\"name\":1}}"), None);
    assert_eq!(read_host_config_user("oops"), None);
}

fn parts(has_server: bool, has_repo: bool) -> FlakeParts {
    FlakeParts {
        name: "feat".to_string(),
        ip: "192.168.83.11".to_string(),
        repo: "app".to_string(),
        has_server,
        has_repo,
    }
}

#[test]
fn flake_whole() {
    assert_eq!(
        flake_text(&parts(true, true), "{ a = 1; }"),
        r#"{
  inputs = {
    nixpkgs.url = "github:NixOS/nixpkgs/nixpkgs-unstable";
    cella.url = "github:ixxie/cella";
    microvm = {
      url = "github:microvm-nix/microvm.nix";
      inputs.nixpkgs.follows = "nixpkgs";
    };
    serverConfig.url = "path:/var/lib/cella/vm-config";
    repoConfig.url = "path:/var/lib/cella/cells/feat/repo/.cella";
  };

  outputs = { nixpkgs, cella, microvm, ... } @ inputs:
    cella.lib.mkCell { inherit cella nixpkgs microvm; } {
      name = "feat";
      ip = "192.168.83.11";
      cellDir = "/var/lib/cella/cells/feat";
      repo = "app";
      hostConfig = { a = 1; };
      modules = [ inputs.serverConfig.nixosModule inputs.repoConfig.nixosModule ];
    };
}
"#
    );
    assert_eq!(has_server_config(), "/var/lib/cella/vm-config/flake.nix");
    assert_eq!(has_repo_config("feat"), "/var/lib/cella/cells/feat/repo/.cella/flake.nix");
}

#[test]
fn flake_generated() {
    let host = "{\"user\":{\"authorizedKeys\":[]}}";
    let flake = generate_flake(&parts(false, true), Some(host), Some("k1\n")).ok().unwrap();
    assert!(flake.contains("hostConfig = { user = { authorizedKeys = [ \"k1\" ]; }; };\n"));
    assert!(flake.contains("modules = [ inputs.repoConfig.nixosModule ];"));
    assert!(!flake.contains("serverConfig"));
    let flake = generate_flake(&parts(true, false), None, Some("k1")).ok().unwrap();
    assert!(flake.contains("hostConfig = {};\n      modules = [ inputs.serverConfig.nixosModule ];"));
    let flake = generate_flake(&parts(false, false), None, None).ok().unwrap();
    assert!(flake.contains("hostConfig = {};\n\n    };\n}\n"));
    let e = generate_flake(&parts(false, false), Some("{"), None).err().unwrap();
    assert_eq!(e.message(), "parsing host-config.json");
    assert!(e.cause.starts_with("EOF"));
}

// Repositories

#[test]
fn repository_commands() {
    let repo = Repo::open("/home/me/app\n");
    assert_eq!(repo.root(), "/home/me/app");
    assert_eq!(Repo::current_branch("feat\n"), "feat");
    assert_eq!(
        Repo::branch_exists("feat"),
        vec!["git", "show-ref", "--verify", "--quiet", "refs/heads/feat"]
    );
    assert_eq!(Repo::create_branch("feat"), vec!["git", "branch", "feat"]);
    assert_eq!(Repo::delete_branch("feat"), vec!["git", "branch", "-D", "feat"]);
    assert_eq!(Repo::remote_line("u"), vec!["git", "remote", "add", "cella", "u"]);
    assert!(matches!(Repo::add_cella_remote("u", true, ""), RemoteStep::Done));
    match Repo::add_cella_remote("u", false, "error: remote cella already exists.") {
        RemoteStep::Change(l) => assert_eq!(l, vec!["git", "remote", "set-url", "cella", "u"]),
        _ => panic!("not changed"),
    }
    assert!(matches!(Repo::add_cella_remote("u", false, "boom"), RemoteStep::Fail(m)
        if m == "failed to add cella remote: boom"));
}

#[test]
fn clones_of_a_repository() {
    assert_eq!(data_dir(Some("/data"), "/home/me", "00ff"), "/data/cella/00ff");
    assert_eq!(data_dir(None, "/home/me", "00ff"), "/home/me/.local/share/cella/00ff");
    assert_eq!(Repo::clone_path("/d", "feat"), "/d/feat");
    let repo = Repo::open("/home/me/app");
    let lines = repo.init_clone("/d/feat", false, "feat").unwrap();
    assert_eq!(
        lines,
        vec![
            vec!["git", "init", "/d/feat"],
            vec!["git", "-C", "/d/feat", "remote", "add", "origin", "/home/me/app"],
            vec!["git", "-C", "/d/feat", "fetch", "origin", "feat"],
            vec!["git", "-C", "/d/feat", "checkout", "-b", "feat", "origin/feat"],
            vec!["git", "-C", "/d/feat", "config", "receive.denyCurrentBranch", "updateInstead"],
        ]
    );
    assert!(repo.init_clone("/d/feat", true, "feat").is_none());
    assert_eq!(Repo::remove_clone("/d/feat", true).unwrap(), vec!["sudo", "rm", "-rf", "/d/feat"]);
    assert!(Repo::remove_clone("/d/feat", false).is_none());
    let names = ["b", "meta", "a"].iter().map(|s| s.to_string()).collect();
    assert_eq!(Repo::list_clones(&names), vec!["a", "b"]);
}

#[test]
fn active_cell_of_a_repository() {
    let clones = vec![("a".to_string(), false), ("b".to_string(), true)];
    assert_eq!(
        Repo::resolve_cell_path("main", true, &clones).ok().unwrap(),
        "/var/lib/cella/cells/main/repo"
    );
    assert_eq!(
        Repo::resolve_cell_path("main", false, &clones).ok().unwrap(),
        "/var/lib/cella/cells/b/repo"
    );
    assert_eq!(
        Repo::resolve_cell_path("main", false, &vec![]).err().unwrap().message(),
        "no active cell — use 'cella up' first"
    );
}

#[test]
fn hooks_of_a_clone() {
    let mut nucleus = NucleusConfig::default();
    assert!(install_nucleus_hook("/c", &nucleus).is_none());
    nucleus.command = Some("review".to_string());
    let hook = install_nucleus_hook("/c", &nucleus).unwrap();
    assert_eq!(hook.dir, "/c/.git/hooks");
    assert_eq!(hook.path, "/c/.git/hooks/pre-commit");
    assert_eq!(
        hook.script,
        r#"#!/bin/sh
diff=$(git diff --cached)
if [ -z "$diff" ]; then exit 0; fi
echo "$diff" | sudo su -s /bin/sh nucleus -c '
  export HTTP_PROXY="http://${CELLA_BRIDGE:-192.168.83.1}:8083"
  export HTTPS_PROXY="$HTTP_PROXY"
  export http_proxy="$HTTP_PROXY"
  export https_proxy="$HTTP_PROXY"
  review
'
"#
    );
    nucleus.proxy_port = Some(9000);
    assert!(install_nucleus_hook("/c", &nucleus).unwrap().script.contains(":9000\"\n"));
    let hook = install_chown_hook("/c");
    assert_eq!(hook.path, "/c/.git/hooks/post-receive");
    assert_eq!(hook.script, "#!/bin/sh\nchown -R 1000:users \"/c\"\n");
}

#[test]
fn clones_on_a_server() {
    assert_eq!(server_clone_path("feat"), "/var/lib/cella/cells/feat/repo");
    assert!(init_clone_server("feat", true, true).is_none());
    let plan = init_clone_server("feat", false, true).unwrap();
    assert!(plan.clean);
    assert_eq!(
        plan.dirs,
        vec!["/var/lib/cella/cells/feat", "/var/lib/cella/cells/feat/repo"]
    );
    assert_eq!(
        plan.commands[1],
        vec!["git", "-C", "/var/lib/cella/cells/feat/repo", "checkout", "-b", "feat"]
    );
    assert_eq!(plan.commands.len(), 3);
    assert_eq!(plan.own, vec!["chown", "-R", "1000:users", "/var/lib/cella/cells/feat"]);
    assert!(!init_clone_server("feat", false, false).unwrap().clean);
    assert_eq!(clone_failure(false, "feat"), "failed to init clone for 'feat': git ");
    assert_eq!(clone_failure(true, "feat"), "failed to init server clone for 'feat': git ");
}

// Servers

fn registry() -> NameMap<ServerEntry> {
    let mut r = NameMap::new();
    cella::session::server::add(&mut r, "beta", "root@b");
    cella::session::server::add(&mut r, "alpha", "root@a");
    r
}

#[test]
fn servers_registered() {
    let mut r = registry();
    assert_eq!(
        cella::session::server::list(&r),
        vec![
            ("alpha".to_string(), "root@a".to_string()),
            ("beta".to_string(), "root@b".to_string()),
        ]
    );
    assert!(cella::session::server::remove(&mut r, "beta").is_ok());
    assert_eq!(
        cella::session::server::remove(&mut r, "beta").err().unwrap().message(),
        "server 'beta' not in registry"
    );
    assert_eq!(cella::session::server::list(&r).len(), 1);
    assert_eq!(home_dir(None), "/root");
    assert_eq!(registry_path("/home/me"), "/home/me/.config/cella/servers.toml");
    assert_eq!(load_registry("/home/me"), registry_path("/home/me"));
    assert_eq!(load_client_config("/home/me"), "/home/me/.config/cella/config.toml");
}

#[test]
fn server_in_use_reads_back() {
    for server in
        [ActiveServer::Localhost, ActiveServer::Remote { name: "alpha".to_string() }]
    {
        assert_eq!(name_of(&active(Some(&write_active(&server)))), name_of(&server));
    }
    assert_eq!(write_active(&ActiveServer::Localhost), "localhost\n");
    assert_eq!(name_of(&active(Some("system:old\n"))), "old");
    assert_eq!(name_of(&active(Some("repo:old"))), "old");
    assert!(!active(Some("  \n")).is_server() && !active(None).is_server());
    assert_eq!(
        active_file("/home/me", "00ff"),
        "/home/me/.config/cella/active/00ff"
    );
}

#[test]
fn hashes_of_repositories() {
    assert_eq!(hash_name(255), "00000000000000ff");
    assert_eq!(hash_name(u64::MAX), "ffffffffffffffff");
    let a = repo_hash("/home/me/app");
    assert_eq!(a.len(), 16);
    assert!(a.chars().all(|c| c.is_ascii_hexdigit()));
    assert_eq!(a, repo_hash("/home/me/app"));
    assert_ne!(a, repo_hash("/home/me/lib"));
}

#[test]
fn server_resolved() {
    let r = registry();
    assert!(!resolve(&r, "localhost").ok().unwrap().is_server());
    let s = resolve(&r, "alpha").ok().unwrap();
    assert_eq!(s.target(&r).ok().unwrap(), Some("root@a".to_string()));
    assert_eq!(s.remote_url(&r).ok(), Some("cella://root@a".to_string()));
    assert_eq!(
        ActiveServer::Localhost.remote_url(&r).ok(),
        Some("cella://localhost".to_string())
    );
    assert_eq!(
        resolve(&r, "gamma").err().unwrap().message(),
        "server 'gamma' not in registry. Add it with: cella server add gamma <target>"
    );
}

#[test]
fn server_switched() {
    let r = registry();
    let w = cmd_server_use("alpha", &r).ok().unwrap();
    assert_eq!((w.active.as_str(), w.url.as_str()), ("alpha\n", "cella://root@a"));
    assert_eq!(w.target, Some("root@a".to_string()));
    let w = cmd_server_use("localhost", &r).ok().unwrap();
    assert_eq!((w.active.as_str(), w.url.as_str()), ("localhost\n", "cella://localhost"));
    assert!(w.target.is_none() && !w.server.is_server());
    assert!(cmd_server_use("gamma", &r).is_err());
    let there = |n: &str| ActiveServer::Remote { name: n.to_string() };
    assert_eq!(
        cmd_server_status(&there("beta"), &r),
        ("beta".to_string(), Some("root@b".to_string()))
    );
    assert_eq!(cmd_server_status(&there("gone"), &r), ("gone".to_string(), None));
    assert!(in_use("beta", Some(&there("beta"))) && !in_use("alpha", Some(&there("beta"))));
    assert!(!in_use("localhost", None));
}

// Commands

#[test]
fn cells_killed() {
    let here = ActiveServer::Localhost;
    let there = ActiveServer::Remote { name: "a".to_string() };
    assert_eq!(
        cmd_kill(&there, false, true),
        vec![KillStep::Delete, KillStep::DeleteBranch, KillStep::SayDeleted]
    );
    assert_eq!(cmd_kill(&there, false, false), vec![KillStep::Down, KillStep::SayKilled]);
    assert_eq!(
        cmd_kill(&here, true, true),
        vec![
            KillStep::Stop,
            KillStep::ClearAutostop,
            KillStep::RemoveClone,
            KillStep::DeleteBranch,
            KillStep::SayDeleted
        ]
    );
    assert_eq!(cmd_kill(&here, false, true).len(), 4);
    assert_eq!(
        cmd_kill(&here, true, false),
        vec![KillStep::ClearAutostop, KillStep::Stop, KillStep::SayKilled]
    );
    assert_eq!(cmd_kill(&here, false, false), vec![KillStep::SayNotRunning]);
}

#[test]
fn sessions_shown() {
    assert_eq!(
        sessions_command("feat"),
        "cella shell --server feat -c \"tmux list-sessions -F '#{session_name}|#{session_attached}|#{session_windows}' 2>/dev/null\""
    );
    let s = remote_sessions("main|1|3\n\nodd\nside|0|1\n");
    assert!(!s.none);
    assert_eq!(s.rows.len(), 2);
    assert_eq!((s.rows[0].name.as_str(), s.rows[0].attached), ("main", true));
    assert_eq!((s.rows[0].windows.as_str(), s.rows[1].windows.as_str()), (" 3w", ""));
    assert!(remote_sessions("\n").none);
    assert!(!remote_sessions("odd").none);
    let list = vec![SessionInfo {
        name: "main".to_string(),
        attached: false,
        windows: 2,
        created: String::new(),
    }];
    let row = print_cell_row(true, Some(9), Some(&list));
    assert_eq!((row.status, row.stopping.as_deref()), ("running", Some("stopping in 9s")));
    assert_eq!(row.sessions.unwrap().rows[0].windows, " 2w");
    assert!(print_cell_row(true, None, Some(&vec![])).sessions.unwrap().none);
    assert!(print_cell_row(true, None, None).sessions.is_none());
    let row = print_cell_row(false, Some(9), Some(&list));
    assert!(row.status == "stopped" && row.stopping.is_none() && row.sessions.is_none());
}

#[test]
fn this_host_listed_first() {
    let mut registry: NameMap<ServerEntry> = NameMap::new();
    add(&mut registry, "beta", "root@b");
    add(&mut registry, "alpha", "root@a");
    assert_eq!(
        hosts_to_list(&registry),
        vec![
            ("localhost".to_string(), None),
            ("alpha".to_string(), Some("root@a".to_string())),
            ("beta".to_string(), Some("root@b".to_string())),
        ]
    );
}

#[test]
fn hosts_listed() {
    let host = |name: &str, cells| Host { name: name.to_string(), cells };
    let hosts = vec![
        host("localhost", Some(0)),
        host("alpha", None),
        host("beta", Some(2)),
        host("gamma", Some(1)),
    ];
    let there = ActiveServer::Remote { name: "gamma".to_string() };
    let l = cmd_list(&hosts, Some(&there));
    assert!(!l.none);
    assert_eq!(l.blocks.len(), 3);
    assert!(matches!(&l.blocks[0], Block::Unreachable(n) if n == "alpha"));
    assert!(matches!(&l.blocks[1], Block::Cells { name, active: false } if name == "beta"));
    assert!(matches!(&l.blocks[2], Block::Cells { name, active: true } if name == "gamma"));
    let l = cmd_list(&vec![host("localhost", Some(0)), host("alpha", None)], None);
    assert!(l.none && l.blocks.len() == 1);
}

#[test]
fn logs_shown() {
    let r = registry();
    let there = ActiveServer::Remote { name: "alpha".to_string() };
    assert_eq!(
        server_logs(&there, &r, true).ok().unwrap(),
        vec!["ssh", "root@a", "tail -f", "/var/log/cella/cella.log"]
    );
    assert_eq!(server_logs(&there, &r, false).ok().unwrap()[2], "tail -100");
    assert_eq!(
        server_logs(&ActiveServer::Localhost, &r, false).err().unwrap().message(),
        "logs --server requires a remote server"
    );
    let gone = ActiveServer::Remote { name: "gone".to_string() };
    assert_eq!(
        server_logs(&gone, &r, false).err().unwrap().message(),
        "server 'gone' not in registry"
    );
    assert_eq!(cmd_logs("/l", true), vec!["tail", "-100", "-f", "/l"]);
    assert_eq!(cmd_logs("/l", false), vec!["tail", "-100", "/l"]);
}

#[test]
fn sweep_in_words() {
    assert_eq!(cmd_sweep(SweepAction::Scheduled(300)), "idle — stopping in 300s");
    assert_eq!(cmd_sweep(SweepAction::Waiting(5)), "stopping in 5s");
    assert_eq!(cmd_sweep(SweepAction::Stopped), "stopped (idle)");
    assert_eq!(cmd_sweep(SweepAction::Cancelled), "autostop cancelled (sessions active)");
}

// Services

fn rules(ip: &str) -> CellRules {
    CellRules {
        cell_ip: ip.to_string(),
        branch_id: "feat".to_string(),
        nucleus_allowed_domains: vec![],
    }
}

#[test]
fn services_of_a_host() {
    assert_eq!(serve_control_api("GET /list HTTP/1.1"), Route::List);
    assert_eq!(serve_control_api("POST /flow/start"), Route::Unknown);
    assert_eq!(serve_control_api("DELETE /cells/1"), Route::DeregisterCell);
    let cells = register_cell(vec![rules("1"), rules("2")], rules("1"));
    assert_eq!(cells.iter().map(|c| c.cell_ip.as_str()).collect::<Vec<_>>(), vec!["2", "1"]);
    let r = handle_deregister(cells, "DELETE /cells/2 HTTP/1.1");
    assert_eq!(r.cells.unwrap().len(), 1);
    assert_eq!(handle_register(vec![], None).reply.body, "missing body");
    let c = handle_list("f", true, Some("1\n"));
    assert_eq!((c.status.as_str(), c.ip.as_deref()), ("running", Some("1")));
    assert_eq!(handle_list("f", false, Some("1\n")).ip, None);
}

#[test]
fn config_of_a_repository() {
    let mut c = CellaConfig::default();
    assert_eq!((c.memory.as_str(), c.vcpu, c.shell_timeout), ("2G", 2, 300));
    assert_eq!(c.post_push(), None);
    c.hooks.post_push = Some("old".to_string());
    assert_eq!(c.post_push(), Some("old"));
    c.post_push = Some("new".to_string());
    assert_eq!(c.post_push(), Some("new"));
    assert_eq!(load("/r", true), "/r/.cella/config.toml");
    assert_eq!(load("/r", false), "/r/cella.toml");
}

#[test]
fn labels_ignore_case() {
    for name in ["Größe/X", "ΟΔΟΣ-aΣ", "MyBranch", "İstanbul", "a//B"] {
        let label = sanitize_dns(name);
        assert_eq!(sanitize_dns(&name.to_ascii_uppercase()), label);
        assert_eq!(sanitize_dns(&name.to_ascii_lowercase()), label);
        assert_eq!(sanitize_dns(&label), label);
    }
    assert_eq!(sanitize_dns("Größe/X"), "gr-e-x");
}
