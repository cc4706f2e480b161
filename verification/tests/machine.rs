use cella::flow::state::FileStep;
use cella::session::config::SessionConfig;
use cella::session::shell::{
    settles, shell, shell_step, upload, upload_hooks, RuntimeFiles, ShellAt, ShellPlan, UNREACHABLE,
};
use cella::session::vm::{
    active_line, autostop_remaining, build_line, clear_autostop, count_sessions, delete,
    deregister_proxy_rules, guest_user, is_root, is_running, list_sessions, mark_autostop,
    read_autostop_timeout, register_proxy_rules, reload_dns, run_privileged, save_started,
    session_count, sessions_line, ssh_target, start, start_plan, stop, sweep, sweep_cell, windows_of,
    write_autostop_timeout, StartAction, StartEvent, StartScene, SweepAction, SweptCell,
};

fn quiet() -> Vec<&'static str> {
    vec![
        "ssh",
        "-o",
        "StrictHostKeyChecking=no",
        "-o",
        "UserKnownHostsFile=/dev/null",
        "-o",
        "LogLevel=ERROR",
    ]
}

fn line(tail: &[&'static str]) -> Vec<&'static str> {
    let mut l = quiet();
    l.extend(tail);
    l
}

// Sessions

#[test]
fn machine_reached() {
    assert_eq!(
        ssh_target(Some("192.168.83.11\n"), Some(" me \n")).ok(),
        Some(("192.168.83.11".to_string(), "me@192.168.83.11".to_string()))
    );
    assert_eq!(
        ssh_target(Some("192.168.83.11"), None).ok().unwrap().1,
        "192.168.83.11"
    );
    assert_eq!(
        ssh_target(None, Some("me")).err().unwrap().message(),
        "VM not running (no ip file)"
    );
}

#[test]
fn sessions_counted() {
    assert_eq!(
        count_sessions("me@1"),
        line(&["-o", "ConnectTimeout=3", "me@1", "tmux list-sessions 2>/dev/null | wc -l"])
    );
    assert_eq!(session_count(" 3\n"), 3);
    assert_eq!(session_count("oops"), 0);
    assert_eq!(windows_of("x"), 1);
}

#[test]
fn sessions_of_a_machine() {
    assert_eq!(
        sessions_line("me@1"),
        line(&[
            "-o",
            "ConnectTimeout=3",
            "me@1",
            "tmux list-sessions -F '#{session_name}|#{session_attached}|#{session_windows}|#{session_created}' 2>/dev/null",
        ])
    );
    let list = list_sessions("main|1|2|1700\n\nbad|0|1\nside|0|x|1800|more\n");
    assert_eq!(list.len(), 2);
    assert_eq!((list[0].name.as_str(), list[0].attached, list[0].windows), ("main", true, 2));
    assert_eq!(list[0].created, "1700");
    assert_eq!((list[1].name.as_str(), list[1].attached, list[1].windows), ("side", false, 1));
}

// Autostop

#[test]
fn autostop_files() {
    assert!(matches!(write_autostop_timeout("/rt", 60), FileStep::Write { path, text }
        if path == "/rt/autostop.timeout" && text == "60"));
    assert_eq!(read_autostop_timeout(Some(" 60\n")), 60);
    assert_eq!(read_autostop_timeout(Some("soon")), 300);
    assert_eq!(read_autostop_timeout(None), 300);
    assert!(matches!(clear_autostop("/rt"), FileStep::Remove(p) if p == "/rt/autostop.at"));
}

#[test]
fn marked_stop_counts_down() {
    let at = match mark_autostop("/rt", Some(1000), 60) {
        FileStep::Write { path, text } => {
            assert_eq!(path, "/rt/autostop.at");
            text
        }
        _ => panic!("not written"),
    };
    assert_eq!(at, "1060");
    assert_eq!(autostop_remaining(Some(&at), Some(1010)), Some(50));
    assert_eq!(autostop_remaining(Some(&at), Some(2000)), Some(0));
    assert_eq!(autostop_remaining(Some("x"), Some(1)), None);
    assert_eq!(autostop_remaining(Some(&at), None), None);
    assert_eq!(autostop_remaining(None, Some(1)), None);
    assert!(matches!(mark_autostop("/rt", None, 60), FileStep::Write { text, .. } if text == "0"));
}

fn swept(sessions: Option<usize>, stop_at: Option<&str>) -> SweptCell {
    SweptCell {
        name: "feat".to_string(),
        running: true,
        sessions,
        timeout: Some("120".to_string()),
        stop_at: stop_at.map(|s| s.to_string()),
        now: Some(1000),
    }
}

#[test]
fn sweep_decides() {
    assert_eq!(sweep_cell(&swept(Some(0), None)), Some(SweepAction::Scheduled(120)));
    assert_eq!(sweep_cell(&swept(Some(0), Some("1050"))), Some(SweepAction::Waiting(50)));
    assert_eq!(sweep_cell(&swept(Some(0), Some("1000"))), Some(SweepAction::Stopped));
    assert_eq!(sweep_cell(&swept(Some(2), Some("1000"))), Some(SweepAction::Cancelled));
    assert_eq!(sweep_cell(&swept(Some(2), None)), None);
    assert_eq!(sweep_cell(&swept(None, Some("1"))), Some(SweepAction::Cancelled));
    let mut still = swept(Some(0), None);
    still.running = false;
    assert_eq!(sweep_cell(&still), None);
    assert_eq!(
        sweep(&vec![still, swept(Some(0), None)]),
        vec![("feat".to_string(), SweepAction::Scheduled(120))]
    );
}

// Machines

#[test]
fn machine_runs() {
    assert_eq!(active_line("feat"), vec!["systemctl", "is-active", "microvm@feat"]);
    assert!(is_running(true, true));
    assert!(!is_running(false, true) && !is_running(true, false));
    assert!(is_root(Some("root")) && !is_root(Some("me")) && !is_root(None));
    let l = || vec!["rm".to_string(), "x".to_string()];
    assert_eq!(run_privileged(true, l()), vec!["rm", "x"]);
    assert_eq!(run_privileged(false, l()), vec!["sudo", "rm", "x"]);
}

fn start_scene() -> StartScene {
    StartScene {
        name: "feat".to_string(),
        rt: "/rt".to_string(),
        repo: "app".to_string(),
        timeout: 60,
        domains: vec!["x.io".to_string()],
        host_config: Some("{\"user\":{\"name\":\"ann\"}}".to_string()),
        user: Some("me".to_string()),
    }
}

#[test]
fn machine_registered_after_boot() {
    let scene = start_scene();
    let plan = start_plan(&scene);
    assert!(matches!(plan.make_dir, FileStep::MakeDir(d) if d == "/rt"));
    assert!(matches!(plan.timeout, FileStep::Write { path, text }
        if path == "/rt/autostop.timeout" && text == "60"));
    assert_eq!(plan.build, build_line("feat"));
    match start(&scene, "192.168.83.11", StartEvent::Booted { success: true }) {
        StartAction::Register { proxy, hostname, save } => {
            let domains = vec!["x.io".to_string()];
            assert_eq!(proxy, register_proxy_rules("192.168.83.11", "feat", &domains));
            assert_eq!(hostname, "feat.app.cell");
            assert_eq!(save.len(), 3);
            assert!(matches!(&save[0], FileStep::Write { path, text }
                if path == "/rt/ip" && text == "192.168.83.11"));
            assert!(matches!(&save[2], FileStep::Write { path, text }
                if path == "/rt/user" && text == "ann"));
        }
        _ => panic!("not registered"),
    }
}

#[test]
fn machine_built_and_booted() {
    let scene = start_scene();
    let ip = "192.168.83.11";
    assert_eq!(
        build_line("feat"),
        vec![
            "nix",
            "--extra-experimental-features",
            "nix-command flakes",
            "build",
            "path:/var/lib/cella/cells/feat/flake#nixosConfigurations.feat.config.microvm.declaredRunner",
            "--no-link",
            "--print-out-paths",
        ]
    );
    let built = StartEvent::Built {
        success: true,
        stdout: "/nix/store/x\n".to_string(),
        stderr: String::new(),
    };
    match start(&scene, ip, built) {
        StartAction::Boot { links, boot } => {
            let needed: Vec<bool> = links.iter().map(|l| l.1).collect();
            assert_eq!(needed, vec![true, true, false, true, true]);
            let lines: Vec<Vec<String>> = links.into_iter().map(|l| l.0).collect();
            assert_eq!(
                lines,
                vec![
                    vec!["mkdir", "-p", "/var/lib/microvms/feat"],
                    vec!["chown", "microvm:kvm", "/var/lib/microvms/feat"],
                    vec!["rm", "-f", "/var/lib/microvms/feat/current"],
                    vec!["ln", "-sf", "/nix/store/x", "/var/lib/microvms/feat/current"],
                    vec!["chown", "-h", "microvm:kvm", "/var/lib/microvms/feat/current"],
                ]
            );
            assert_eq!(boot, vec!["systemctl", "start", "microvm@feat"]);
        }
        _ => panic!("not booted"),
    }
    let failed = StartEvent::Built {
        success: false,
        stdout: String::new(),
        stderr: "boom".to_string(),
    };
    assert!(matches!(start(&scene, ip, failed), StartAction::Fail { message }
        if message == "failed to build cell VM 'feat': boom"));
    let unbooted = start(&scene, ip, StartEvent::Booted { success: false });
    assert!(matches!(unbooted, StartAction::Fail { message }
        if message == "failed to start VM for cell 'feat'"));
}

#[test]
fn machine_state_saved() {
    assert_eq!(guest_user(Some("{\"user\":{\"name\":\"ann\"}}"), Some("me")), "ann");
    assert_eq!(guest_user(Some("{}"), Some("me")), "me");
    assert_eq!(guest_user(None, None), "");
    let texts = |guest: &str| -> Vec<(String, String)> {
        save_started("/rt", "192.168.83.11", "app", guest)
            .into_iter()
            .map(|s| match s {
                FileStep::Write { path, text } => (path, text),
                _ => panic!("not written"),
            })
            .collect()
    };
    assert_eq!(
        texts("ann"),
        vec![
            ("/rt/ip".to_string(), "192.168.83.11".to_string()),
            ("/rt/repo".to_string(), "app".to_string()),
            ("/rt/user".to_string(), "ann".to_string()),
        ]
    );
    assert_eq!(texts("").len(), 2);
}

#[test]
fn machine_stopped() {
    let plan = stop("Feat", "/rt", true, Some("192.168.83.11\n"), Some("app")).unwrap();
    assert_eq!(
        plan.deregister.unwrap(),
        vec!["curl", "-sf", "-X", "DELETE", "http://127.0.0.1:8082/cells/192.168.83.11"]
    );
    assert_eq!(plan.hostname, Some("feat.app.cell".to_string()));
    assert_eq!(plan.stop, vec!["systemctl", "stop", "microvm@Feat"]);
    assert!(matches!(plan.forget, FileStep::Remove(p) if p == "/rt/ip"));
    let plan = stop("f", "/rt", true, None, Some(" ")).unwrap();
    assert!(plan.deregister.is_none() && plan.hostname.is_none());
    assert!(stop("f", "/rt", false, None, None).is_none());
}

#[test]
fn machine_deleted() {
    let plan = delete("feat", true, true);
    assert!(plan.stop_first);
    assert_eq!(plan.remove.unwrap(), vec!["sudo", "rm", "-rf", "/var/lib/cella/cells/feat"]);
    assert_eq!(plan.failure, "failed to remove cell dir at /var/lib/cella/cells/feat");
    let plan = delete("feat", false, false);
    assert!(!plan.stop_first && plan.remove.is_none());
}

#[test]
fn proxy_told_of_machines() {
    let domains = vec!["a.com".to_string()];
    assert_eq!(
        register_proxy_rules("192.168.83.11", "feat", &domains),
        vec![
            "curl",
            "-sf",
            "-X",
            "POST",
            "-H",
            "Content-Type: application/json",
            "-d",
            "{\"branchId\":\"feat\",\"cellIp\":\"192.168.83.11\",\"nucleusAllowedDomains\":[\"a.com\"]}",
            "http://127.0.0.1:8082/cells",
        ]
    );
    assert_eq!(
        deregister_proxy_rules("1")[4],
        "http://127.0.0.1:8082/cells/1"
    );
    assert_eq!(reload_dns(), vec!["sudo", "systemctl", "reload", "dnsmasq"]);
}

// Entering

fn files() -> RuntimeFiles {
    RuntimeFiles {
        ip: Some("192.168.83.11\n".to_string()),
        user: Some("me\n".to_string()),
        repo: Some("app\n".to_string()),
    }
}

fn plan(session: Option<&str>, command: Option<&str>, config: Option<&SessionConfig>) -> ShellPlan {
    shell("feat", session, command, config, &files(), 1700).ok().unwrap()
}

#[test]
fn shell_planned() {
    let p = plan(None, None, None);
    assert_eq!(p.target, "me@192.168.83.11");
    assert_eq!(p.probe, line(&["-o", "ConnectTimeout=1", "me@192.168.83.11", "test -d /app"]));
    assert_eq!(p.sync_dir, "/var/lib/cella/cells/feat/sync");
    assert_eq!(
        p.sync,
        vec![
            "scp",
            "-r",
            "-o",
            "StrictHostKeyChecking=no",
            "-o",
            "UserKnownHostsFile=/dev/null",
            "-o",
            "LogLevel=ERROR",
            "/var/lib/cella/cells/feat/sync/.",
            "me@192.168.83.11:~/",
        ]
    );
    assert!(p.hooks.is_none() && p.on_exit.is_none() && p.settle);
    assert_eq!(
        p.enter,
        vec![
            "ssh",
            "-A",
            "-o",
            "StrictHostKeyChecking=no",
            "-o",
            "UserKnownHostsFile=/dev/null",
            "-o",
            "LogLevel=ERROR",
            "-o",
            "ServerAliveInterval=30",
            "-o",
            "ServerAliveCountMax=3",
            "-t",
            "me@192.168.83.11",
            "cd /app && tmux new-session -A -s s-1700 'exec $SHELL -l'",
        ]
    );
    let p = plan(Some("main"), Some("make"), None);
    assert_eq!(p.enter.last().unwrap(), "cd /app && make");
    assert!(!p.settle);
    let mut bare = files();
    bare.repo = None;
    let p = shell("feat", None, Some("ls"), None, &bare, 0).ok().unwrap();
    assert_eq!(p.enter.last().unwrap(), "cd /cell && ls");
    bare.ip = None;
    assert!(shell("feat", None, None, None, &bare, 0).is_err());
}

#[test]
fn shell_with_a_session_config() {
    let config = SessionConfig {
        command: Some("nvim".to_string()),
        on_exit: Some("git stash".to_string()),
        hooks: vec!["bin/watch".to_string()],
    };
    let p = plan(Some("main"), None, Some(&config));
    assert_eq!(p.enter.last().unwrap(), "cd /app && tmux new-session -A -s main 'nvim'");
    let on_exit = p.on_exit.as_ref().unwrap();
    assert_eq!(on_exit[12], "me@192.168.83.11");
    assert_eq!(on_exit[13], "cd /app && git stash");
    let hooks = p.hooks.as_ref().unwrap();
    assert_eq!(hooks.helper.path, "/tmp/cella-session-main");
    assert!(plan(Some("main"), Some("ls"), Some(&config)).hooks.is_none());
    assert!(plan(Some("main"), Some("ls"), Some(&config)).on_exit.is_none());
}

#[test]
fn hooks_uploaded() {
    let h = upload_hooks("me@1", "/app", "main", &vec!["bin/watch".to_string()]);
    assert_eq!(
        h.helper.content,
        "#!/bin/sh\ncase \"$1\" in\n  read) tmux capture-pane -p -t 'main' 2>/dev/null ;;\n  send) shift; tmux send-keys -t 'main' \"$*\" Enter ;;\n  *) echo \"usage: session read|send <text>\" >&2; exit 1 ;;\nesac"
    );
    assert_eq!(h.starter.path, "/tmp/cella-start-hooks-main.sh");
    assert_eq!(
        h.starter.content,
        "#!/bin/sh\n# wait for tmux session to exist\nfor i in $(seq 1 30); do\n  tmux has-session -t 'main' 2>/dev/null && break\n  sleep 0.2\ndone\ncd /app && PATH=\"/tmp:$PATH\" nohup bin/watch >'/tmp/cella-hook-bin-watch.log' 2>&1 &\n"
    );
    assert_eq!(h.link, line(&["me@1", "ln -sf '/tmp/cella-session-main' /tmp/session"]));
    assert_eq!(
        h.start,
        line(&["me@1", "sh -c 'nohup sh /tmp/cella-start-hooks-main.sh >/dev/null 2>&1 &'"])
    );
    assert_eq!(upload("me@1", "/tmp/x"), line(&["me@1", "sh -c 'cat > /tmp/x && chmod +x /tmp/x'"]));
}

#[test]
fn shell_gives_up_in_the_end() {
    let p = plan(None, None, None);
    let mut at = ShellAt::Probe(0);
    let mut probes = 0;
    while matches!(at, ShellAt::Probe(_)) {
        probes += 1;
        at = shell_step(&p, at, false);
    }
    assert_eq!(probes, 60);
    assert!(matches!(at, ShellAt::Unreachable));
    assert_eq!(UNREACHABLE, "VM did not become reachable within 60s");
}

#[test]
fn shell_step_by_step() {
    let p = plan(None, None, None);
    let at = shell_step(&p, ShellAt::Probe(3), true);
    assert!(matches!(at, ShellAt::Sync));
    let mut at = shell_step(&p, at, true);
    let mut entered = false;
    for _ in 0..6 {
        match at {
            ShellAt::Over(success) => {
                assert!(entered && !success);
                return;
            }
            ShellAt::Enter => {
                entered = true;
                at = shell_step(&p, at, false);
            }
            _ => at = shell_step(&p, at, true),
        }
    }
    panic!("not over");
}

#[test]
fn stop_settled_after_the_last_session() {
    assert!(settles(true, Some(0)) && settles(true, None));
    assert!(!settles(true, Some(1)) && !settles(false, Some(0)));
}
