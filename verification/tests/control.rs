use cella::cella::client::{
    check_ok, find_status, runs, CellStatus, Client, FlowInfo, FollowNext, UpResponse,
};
use cella::cella::proxy::{
    chunk_head, default_lines, default_sweep_interval, default_sweep_timeout, deregister_cell,
    find_cell, flow_detached, flow_status_path, handle_deregister, handle_flow_logs,
    handle_flow_logs_follow, handle_flow_pause, handle_flow_start, handle_flow_status,
    handle_flow_stop, handle_list, handle_register, handle_up, logs_reply, register_cell,
    repo_or_unknown, serve_control_api, socket, sweep_stale_cells, CellRules, Follow, Route,
    FOLLOW_SCRIPT,
};
use cella::flow::state::{FlowReport, FlowState};
use cella::session::request::{after_step, first_step, Ask, LifeStep, Progress};
use cella::http::{
    body_of, credential_reply, deregistered_ip, handled, listed, not_found, path_of, response,
    serve_git_credentials, CredentialStep, Handled, Reply, Status,
};
use cella::json::{object, text, Json};

// Requests and responses

#[test]
fn parts_of_a_request() {
    let req = "DELETE /cells/192.168.83.11 HTTP/1.1\r\nhost: x\r\n\r\nbody\r\n\r\nmore";
    assert_eq!(body_of(req), Some("body\r\n\r\nmore".to_string()));
    assert_eq!(body_of("GET / HTTP/1.1\r\n"), None);
    assert_eq!(path_of(req), "/cells/192.168.83.11");
    assert_eq!(deregistered_ip(req), "192.168.83.11");
    assert_eq!(deregistered_ip("DELETE /cells/ HTTP/1.1"), "");
    assert_eq!(path_of(""), "");
}

#[test]
fn responses_carry_their_body() {
    let reply = Reply { status: Status::Fine, body: "é\r\n\r\n!".to_string() };
    let r = response(&reply);
    assert_eq!(r, "HTTP/1.1 200 OK\r\ncontent-length: 7\r\n\r\né\r\n\r\n!");
    assert_eq!(body_of(&r), Some(reply.body));
    assert_eq!(
        response(&not_found()),
        "HTTP/1.1 404 Not Found\r\ncontent-length: 9\r\n\r\nnot found"
    );
}

#[test]
fn answers_by_how_far_it_came() {
    let told = |h: Handled| {
        let r = handled(&h);
        (r.status, r.body)
    };
    assert_eq!(told(Handled::NoBody), (Status::BadRequest, "missing body".to_string()));
    assert_eq!(
        told(Handled::Unreadable("EOF".to_string())),
        (Status::BadRequest, "bad request: EOF".to_string())
    );
    assert_eq!(told(Handled::Tried(None)), (Status::Fine, "{\"ok\":true}".to_string()));
    assert_eq!(
        told(Handled::Tried(Some("no".to_string()))),
        (Status::ServerError, "{\"ok\":false,\"error\":\"no\"}".to_string())
    );
    let l = listed(Err("no".to_string()));
    assert_eq!((l.status, l.body), (Status::ServerError, "{\"error\":\"no\"}".to_string()));
    let l = listed(Ok("[]".to_string()));
    assert_eq!((l.status, l.body), (Status::Fine, "[]".to_string()));
}

#[test]
fn git_credentials() {
    let ask = |body: &str| {
        serve_git_credentials(&format!("POST /git-credential HTTP/1.1\r\n\r\n{body}"))
    };
    for (host, user, var) in [
        ("github.com", "x-access-token", "GITHUB_TOKEN"),
        ("gitlab.com", "oauth2", "GITLAB_TOKEN"),
        ("bitbucket.org", "x-token-auth", "BITBUCKET_TOKEN"),
    ] {
        match ask(&format!("protocol=https\n host = {host} \n")) {
            CredentialStep::Look { username, env_var } => {
                assert_eq!((username.as_str(), env_var.as_str()), (user, var))
            }
            _ => panic!("refused"),
        }
    }
    assert!(matches!(
        ask("host=github.com\nhost=example.com"),
        CredentialStep::Refuse(r) if r == "HTTP/1.1 403 Forbidden\r\n\r\n"
    ));
    assert!(matches!(
        serve_git_credentials("GET /git-credential"),
        CredentialStep::Refuse(r) if r == "HTTP/1.1 404 Not Found\r\n\r\n"
    ));
    assert_eq!(
        credential_reply("oauth2", Some("tok")),
        "HTTP/1.1 200 OK\r\ncontent-type: text/plain\r\ncontent-length: 29\r\n\r\nusername=oauth2\npassword=tok\n"
    );
    assert_eq!(credential_reply("oauth2", None), "HTTP/1.1 500 Error\r\n\r\n");
}

// The cells

fn rules(ip: &str, branch: &str) -> CellRules {
    CellRules { cell_ip: ip.to_string(), branch_id: branch.to_string(), egress: None }
}

fn branches(cells: &[CellRules]) -> Vec<(&str, &str)> {
    cells.iter().map(|c| (c.cell_ip.as_str(), c.branch_id.as_str())).collect()
}

#[test]
fn cells_come_and_go() {
    let cells = register_cell(vec![rules("1", "a"), rules("2", "b")], rules("1", "c"));
    assert_eq!(branches(&cells), vec![("2", "b"), ("1", "c")]);
    assert_eq!(find_cell(&cells, "1"), Some("c".to_string()));
    assert_eq!(find_cell(&cells, "2"), Some("b".to_string()));
    let cells = deregister_cell(cells, "1");
    assert_eq!(branches(&cells), vec![("2", "b")]);
    assert_eq!(find_cell(&cells, "1"), None);
}

#[test]
fn cells_by_request() {
    let r = handle_register(vec![rules("1", "a")], Some(Ok(rules("1", "b"))));
    assert_eq!((r.reply.status, r.reply.body.as_str()), (Status::Fine, "ok"));
    assert_eq!(branches(&r.cells.unwrap()), vec![("1", "b")]);
    let r = handle_register(vec![rules("1", "a")], None);
    assert!(r.reply.status == Status::BadRequest && r.cells.is_none());
    let r = handle_register(vec![], Some(Err("EOF".to_string())));
    assert_eq!(r.reply.body, "bad request: EOF");
    let r = handle_deregister(vec![rules("1", "a")], "DELETE /cells/1 HTTP/1.1");
    assert_eq!(r.reply.body, "ok");
    assert_eq!(r.cells.unwrap().len(), 0);
    let r = handle_deregister(vec![rules("1", "a")], "DELETE /cells/ HTTP/1.1");
    assert_eq!((r.reply.status, r.reply.body.as_str()), (Status::BadRequest, "missing ip"));
    assert!(r.cells.is_none());
}

#[test]
fn routes_of_the_control_interface() {
    let rows = [
        ("POST /flow/logs HTTP/1.1\r\n\r\n{\"follow\":true}", Route::FlowLogsFollow),
        ("POST /flow/logs HTTP/1.1\r\n\r\n{\"follow\": true}", Route::FlowLogsFollow),
        ("POST /flow/logs HTTP/1.1\r\n\r\n{\"follow\":false}", Route::FlowLogs),
        ("POST /flow/start", Route::FlowStart),
        ("POST /flow/stop", Route::FlowStop),
        ("POST /flow/pause", Route::FlowPause),
        ("POST /flow-status", Route::FlowStatus),
        ("POST /cells", Route::RegisterCell),
        ("DELETE /cells/1", Route::DeregisterCell),
        ("DELETE /cells", Route::Unknown),
        ("GET /cells", Route::ListCells),
        ("POST /prepare", Route::Prepare),
        ("POST /up", Route::Up),
        ("POST /down", Route::Down),
        ("POST /delete", Route::Delete),
        ("GET /list", Route::List),
        ("PUT /list", Route::Unknown),
    ];
    for (req, route) in rows {
        assert_eq!(serve_control_api(req), route);
    }
}

#[test]
fn answers_about_started_cells() {
    let (status, up) = handle_up(Ok(Some(" 192.168.83.11\n".to_string())));
    assert!(status == Status::Fine && up.ok);
    assert_eq!(up.ip, Some("192.168.83.11".to_string()));
    let (_, up) = handle_up(Ok(None));
    assert_eq!(up.ip, Some(String::new()));
    let (status, up) = handle_up(Err("boom".to_string()));
    assert!(status == Status::ServerError && !up.ok && up.ip.is_none());
    assert_eq!(up.error, Some("boom".to_string()));
    assert_eq!(repo_or_unknown(None), "unknown");
    assert_eq!(repo_or_unknown(Some("app")), "app");
}

#[test]
fn cells_listed_by_a_server() {
    let c = handle_list("feat", false, Some("1\n"), Some("app\n"), None);
    assert_eq!(c.status, "stopped");
    assert_eq!((c.ip, c.repo), (None, Some("app".to_string())));
    let c = handle_list("feat", true, Some("1\n"), None, None);
    assert_eq!(c.status, "running");
    assert_eq!((c.ip, c.repo), (Some("1".to_string()), None));
}

#[test]
fn flow_commands_of_a_server() {
    assert_eq!(
        flow_detached("qa", Some("{\"a\":\"it's\"}")),
        "mkdir -p $(dirname '/tmp/cellx/flow.log') && setsid sh -c 'cellx flow run qa --params '\\''{\"a\":\"it'\\''\\'\\'''\\''s\"}'\\''' > '/tmp/cellx/flow.log' 2>&1 < /dev/null &"
    );
    let quiet = [
        "ssh",
        "-o",
        "StrictHostKeyChecking=no",
        "-o",
        "UserKnownHostsFile=/dev/null",
        "-o",
        "LogLevel=ERROR",
    ];
    let line = handle_flow_start("me@1", Some("app\n"), "qa", None);
    assert_eq!(line[..7], quiet);
    assert_eq!(line[7], "me@1");
    assert!(line[8].starts_with("cd '/app' && mkdir -p "));
    assert!(handle_flow_start("me@1", None, "qa", None)[8].starts_with("cd '/cell' && "));
    let stop = handle_flow_stop("me@1");
    assert_eq!(stop[..7], quiet);
    assert_eq!(stop[7..], ["-o", "ConnectTimeout=5", "me@1", "cellx flow done"]);
    assert_eq!(handle_flow_pause("me@1")[10], "cellx flow pause");
    assert_eq!(
        handle_flow_logs("me@1", default_lines())[8],
        "tail -100 /tmp/cellx/flow.log 2>/dev/null"
    );
}

#[test]
fn flow_output_sent() {
    let r = logs_reply(Ok("a\"b\n".to_string()));
    assert_eq!(r.body, "{\"content\":\"a\\\"b\\n\",\"ok\":true}");
    let r = logs_reply(Err("no".to_string()));
    assert_eq!(r.body, "{\"ok\":false,\"error\":\"no\"}");
    assert_eq!(chunk_head(4096), "1000\r\n");
    assert_eq!(chunk_head(11), "b\r\n");
    let plan = handle_flow_logs_follow(&Follow::Reached("me@1".to_string()));
    assert_eq!(plan.head, "HTTP/1.1 200 OK\r\ntransfer-encoding: chunked\r\n\r\n");
    assert_eq!(plan.command.unwrap()[8], FOLLOW_SCRIPT);
    assert!(handle_flow_logs_follow(&Follow::NoBody).head.ends_with("\r\n\r\nmissing body"));
    assert!(handle_flow_logs_follow(&Follow::Unreadable).head.ends_with("\r\n\r\nbad request"));
    let plan = handle_flow_logs_follow(&Follow::Unreachable);
    assert!(plan.head.starts_with("HTTP/1.1 500") && plan.command.is_none());
}

fn report(ip: &str) -> FlowReport {
    FlowReport {
        cell_ip: ip.to_string(),
        flow_name: "dev".to_string(),
        current_op: "plan".to_string(),
        state: FlowState::Paused,
        started_at: 1,
        op_started_at: 2,
    }
}

#[test]
fn flow_reports_kept() {
    let cells = vec![rules("1", "feat")];
    let (path, info) = handle_flow_status(&cells, &report("1")).unwrap();
    assert_eq!(path, "/var/lib/cella/cells/feat/flow-status.json");
    assert_eq!(path, flow_status_path("feat"));
    assert_eq!(info.state, "paused");
    assert_eq!((info.started_at, info.op_started_at), (1, 2));
    assert!(handle_flow_status(&cells, &report("2")).is_none());
}

fn info(state: &str, op_started_at: u64) -> FlowInfo {
    FlowInfo {
        flow_name: "dev".to_string(),
        current_op: "plan".to_string(),
        state: state.to_string(),
        started_at: 1,
        op_started_at,
    }
}

#[test]
fn sweep_stops_stale_cells_only() {
    let t = default_sweep_timeout();
    assert_eq!((t, default_sweep_interval()), (21600, 300));
    let sweep = |running, info, now| sweep_stale_cells("feat", running, &info, now, t);
    assert_eq!(
        sweep(true, Some(info("running", 1000)), 1000 + t + 1),
        Some(
            "sweep: stopping stale cell 'feat' (op 'plan' running for 21601s, timeout 21600s)"
                .to_string()
        )
    );
    assert_eq!(sweep(true, Some(info("running", 1000)), 1000 + t), None);
    assert_eq!(sweep(true, Some(info("running", 0)), 1000 + t), None);
    assert_eq!(sweep(true, Some(info("paused", 1000)), 9000 + t), None);
    assert_eq!(sweep(true, Some(info("running", 9000)), 1000), None);
    assert_eq!(sweep(false, Some(info("running", 1000)), 9000 + t), None);
    assert_eq!(sweep(true, None, 9000 + t), None);
}

#[test]
fn sockets() {
    assert_eq!(socket("127.0.0.1", 8082), "127.0.0.1:8082");
}

// The client

fn status(name: &str, status: &str, flow: Option<FlowInfo>) -> CellStatus {
    CellStatus {
        name: name.to_string(),
        status: status.to_string(),
        ip: None,
        repo: None,
        flow,
    }
}

#[test]
fn requests_of_a_client() {
    let config = || object(vec![("vcpu".to_string(), Json::Bool(true)), ("a".to_string(), text("b"))]);
    let r = Client::prepare("feat", "app", config());
    assert_eq!((r.method.as_str(), r.path.as_str()), ("POST", "/prepare"));
    assert_eq!(
        r.body.as_deref(),
        Some("{\"config\":{\"a\":\"b\",\"vcpu\":true},\"name\":\"feat\",\"repo\":\"app\"}")
    );
    let r = Client::up("feat", "app", false, Json::Null);
    assert_eq!(
        r.body.as_deref(),
        Some("{\"config\":null,\"create\":false,\"name\":\"feat\",\"repo\":\"app\"}")
    );
    for (r, path) in [
        (Client::down("f"), "/down"),
        (Client::delete("f"), "/delete"),
        (Client::flow_stop("f"), "/flow/stop"),
        (Client::flow_pause("f"), "/flow/pause"),
    ] {
        assert_eq!(r.path, path);
        assert_eq!(r.body.as_deref(), Some("{\"name\":\"f\"}"));
    }
    let r = Client::list();
    assert_eq!((r.method.as_str(), r.path.as_str(), r.body), ("GET", "/list", None));
    assert_eq!(
        Client::flow_start("f", "qa", Some("{\"x\":1}")).body.as_deref(),
        Some("{\"flow\":\"qa\",\"name\":\"f\",\"params\":\"{\\\"x\\\":1}\"}")
    );
    assert_eq!(
        Client::flow_start("f", "qa", None).body.as_deref(),
        Some("{\"flow\":\"qa\",\"name\":\"f\"}")
    );
    assert_eq!(
        Client::flow_logs("f", 500).body.as_deref(),
        Some("{\"follow\":false,\"lines\":500,\"name\":\"f\"}")
    );
}

#[test]
fn answers_of_a_server() {
    assert!(check_ok("{\"ok\":true}", "server error: ").is_ok());
    assert_eq!(
        check_ok("{\"ok\":false}", "flow stop failed: ").err(),
        Some("flow stop failed: {\"ok\":false}".to_string())
    );
    let up = |ok, error: Option<&str>| UpResponse { ok, ip: None, error: error.map(|s| s.to_string()) };
    assert!(Client::check_up(up(true, None)).is_ok());
    assert_eq!(
        Client::check_up(up(false, Some("boom"))).err(),
        Some("server error: boom".to_string())
    );
    assert_eq!(Client::check_up(up(false, None)).err(), Some("server error: ".to_string()));
    assert_eq!(
        Client::read_logs("{\"content\":\"a\\nb\"}"),
        Ok("a\nb".to_string())
    );
    assert_eq!(Client::read_logs("{\"content\":1}"), Ok(String::new()));
    assert_eq!(Client::read_logs("oops"), Err("bad flow logs response".to_string()));
}

#[test]
fn output_followed_once() {
    let (shown, seen) = Client::flow_logs_follow("a\nb\n", 0);
    assert_eq!((shown, seen), (vec!["a".to_string(), "b".to_string()], 2));
    let (shown, seen) = Client::flow_logs_follow("a\nb\nc", seen);
    assert_eq!((shown, seen), (vec!["c".to_string()], 3));
    let (shown, seen) = Client::flow_logs_follow("a", seen);
    assert_eq!((shown.len(), seen), (0, 3));
    assert_eq!(Client::last_lines("a\nb\nc\nd", seen), vec!["d"]);
}

#[test]
fn following_ends_with_the_flow() {
    let cells = |state| vec![status("f", "running", Some(info(state, 1)))];
    assert_eq!(Client::follow_next(&cells("running"), "f"), FollowNext::Again);
    assert_eq!(Client::follow_next(&cells("paused"), "f"), FollowNext::Again);
    assert_eq!(Client::follow_next(&cells("done"), "f"), FollowNext::Last);
    assert_eq!(Client::follow_next(&cells("running"), "g"), FollowNext::Stop);
    assert_eq!(Client::follow_next(&vec![status("f", "running", None)], "f"), FollowNext::Stop);
}

#[test]
fn cells_looked_up() {
    let cells = vec![status("f", "stopped", None), status("f", "running", None)];
    assert_eq!(find_status(&cells, "f").unwrap().status, "stopped");
    assert!(find_status(&cells, "g").is_none());
    assert!(runs(&cells, "f"));
    assert!(!runs(&cells, "g"));
}

#[test]
fn client_enters_by_another_hop() {
    let c = Client::connect("root@host");
    assert_eq!(c.user_host(), "root@host");
    let line = c.shell("feat", Some("it's"));
    assert_eq!(
        line,
        vec![
            "ssh",
            "-t",
            "-A",
            "-o",
            "StrictHostKeyChecking=no",
            "-o",
            "UserKnownHostsFile=/dev/null",
            "-o",
            "ServerAliveInterval=30",
            "-o",
            "ServerAliveCountMax=3",
            "root@host",
            "cella shell --server feat -c 'it'\\''s'",
        ]
    );
    assert_eq!(c.shell("feat", None).last().unwrap(), "cella shell --server feat");
}

#[test]
fn files_synced_from_home() {
    let plan = Client::sync_files("feat", "~/.gitconfig", "/home/me");
    assert_eq!(plan.local, "/home/me/.gitconfig");
    let remote = plan.remote.unwrap();
    assert_eq!(
        remote.make_dir,
        Some("mkdir -p '/var/lib/cella/cells/feat/sync'".to_string())
    );
    assert_eq!(remote.write, "cat > '/var/lib/cella/cells/feat/sync/.gitconfig'");
    let plan = Client::sync_files("feat", "/home/me/a/b", "/home/me");
    assert_eq!(plan.remote.unwrap().write, "cat > '/var/lib/cella/cells/feat/sync/a/b'");
    let plan = Client::sync_files("feat", "/etc/hosts", "/home/me");
    assert_eq!(plan.local, "/etc/hosts");
    assert!(plan.remote.is_none());
    assert_eq!(
        Client::own_synced("feat"),
        "chown -R 1000:users /var/lib/cella/cells/feat/sync/ 2>/dev/null"
    );
}

#[test]
fn requests_carried_out_in_steps() {
    let walk = |ask: Ask, running: bool| {
        let mut steps = vec![first_step(ask)];
        loop {
            let last = steps[steps.len() - 1];
            match after_step(ask, last, Ok(running)) {
                Progress::Next(s) => steps.push(s),
                Progress::Done => return steps,
                Progress::Failed(e) => panic!("{e}"),
            }
        }
    };
    assert_eq!(walk(Ask::Prepare, false), vec![LifeStep::Clone]);
    assert_eq!(walk(Ask::Up, false), vec![LifeStep::Clone, LifeStep::Look, LifeStep::Start]);
    assert_eq!(walk(Ask::Up, true), vec![LifeStep::Clone, LifeStep::Look]);
    assert_eq!(walk(Ask::Down, true), vec![LifeStep::Look, LifeStep::Stop]);
    assert_eq!(walk(Ask::Down, false), vec![LifeStep::Look]);
    assert_eq!(walk(Ask::Delete, true), vec![LifeStep::Delete]);
    let failed = after_step(Ask::Up, LifeStep::Clone, Err("no disk".to_string()));
    assert!(matches!(failed, Progress::Failed(m) if m == "no disk"));
}
