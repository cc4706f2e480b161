use cella::cellx::service::{
    cmd_path, list, log_path, logs, pid_path, read_pid, restart, service_of, start, started, stop,
    stop_message, tail, ServiceRow, StopAction, Stopping,
};
use cella::flow::state::FileStep;

#[test]
fn paths() {
    assert_eq!(pid_path("dev"), "/tmp/cellx/services/dev.pid");
    assert_eq!(cmd_path("dev"), "/tmp/cellx/services/dev.cmd");
    assert_eq!(log_path("dev"), "/tmp/cellx/services/dev.log");
}

#[test]
fn pid_reads_back() {
    let steps = started("dev", "npm run dev", 4321);
    let text = steps
        .iter()
        .find_map(|s| match s {
            FileStep::Write { path, text } if path.ends_with("dev.pid") => Some(text.clone()),
            _ => None,
        })
        .unwrap();
    assert_eq!(read_pid("dev", Some(&text)).ok(), Some(4321));
}

#[test]
fn pid_errors() {
    assert_eq!(
        read_pid("dev", None).err().unwrap().message(),
        "service 'dev' not found"
    );
    assert_eq!(read_pid("dev", Some("abc")).err().unwrap().message(), "invalid PID");
}

#[test]
fn start_refused() {
    assert_eq!(start("dev", "", false).err().unwrap().message(), "no command specified");
    assert_eq!(
        start("dev", "sleep 1", true).err().unwrap().message(),
        "service 'dev' already running (use restart)"
    );
    let line = start("dev", "sleep 1", false).ok().unwrap();
    assert_eq!(line, vec!["sh", "-c", "sleep 1"]);
}

#[test]
fn stop_ends_within_its_tries() {
    let mut at = Stopping::Asked;
    let mut looks = 0;
    loop {
        let (next, action) = stop(at, true);
        looks += 1;
        assert!(looks < 50);
        match action {
            StopAction::Finish { kill, was_running } => {
                assert!(kill && was_running);
                break;
            }
            _ => at = next,
        }
    }
}

#[test]
fn stop_of_a_dead_service() {
    let (_, action) = stop(Stopping::Asked, false);
    assert!(matches!(action, StopAction::Finish { kill: false, was_running: false }));
    assert_eq!(stop_message("dev", true), "stopped dev");
    assert_eq!(stop_message("dev", false), "dev not running");
}

#[test]
fn restart_takes_the_previous_command() {
    assert_eq!(restart("dev", None, Some("npm start")).ok(), Some("npm start".to_string()));
    assert_eq!(restart("dev", Some("other"), Some("npm start")).ok(), Some("other".to_string()));
    assert_eq!(restart("dev", Some(""), Some("npm start")).ok(), Some("npm start".to_string()));
    assert_eq!(
        restart("dev", None, None).err().unwrap().message(),
        "no previous command for service 'dev'"
    );
}

#[test]
fn service_logs() {
    assert_eq!(logs("dev", false, false).err().unwrap().message(), "no logs for service 'dev'");
    assert_eq!(
        logs("dev", true, true).ok().unwrap(),
        vec!["tail", "-100", "-f", "/tmp/cellx/services/dev.log"]
    );
    assert_eq!(tail(false, "x"), vec!["tail", "-100", "x"]);
}

#[test]
fn service_rows() {
    assert_eq!(service_of("dev.pid"), Some("dev".to_string()));
    assert_eq!(service_of("dev.log"), None);
    let rows = vec![
        ServiceRow { name: "dev".to_string(), running: true, cmd: "npm run dev".to_string() },
        ServiceRow { name: "db".to_string(), running: false, cmd: "postgres".to_string() },
    ];
    assert_eq!(list(&rows), vec!["  dev [running] npm run dev", "  db [stopped] postgres"]);
    assert_eq!(list(&vec![]), vec!["no services"]);
}
