use cella::cella::client::CellStatus;
use cella::cella::tunnel::{
    add_loopback, check_tunnel, cleanup_tunnel_dns, cmd_tunnel, derive_loopback, hosts_add,
    hosts_remove, open_line, parse_ports, ports_text, remove_loopback, reopen_line,
    setup_tunnel_dns, tunnel_named, tunnel_over, tunnel_url, Tunnel,
};

fn ports(specs: &[&str]) -> Result<Vec<u16>, String> {
    parse_ports(&specs.iter().map(|s| s.to_string()).collect()).map_err(|e| e.message())
}

#[test]
fn ports_and_ranges() {
    assert_eq!(ports(&["5173", "8001-8004"]), Ok(vec![5173, 8001, 8002, 8003, 8004]));
    assert_eq!(ports(&["65534-65535"]), Ok(vec![65534, 65535]));
    assert_eq!(ports(&["7-7"]), Ok(vec![7]));
    assert_eq!(ports(&[]), Ok(vec![]));
    assert_eq!(ports(&["65536"]), Err("invalid port: 65536".to_string()));
    assert_eq!(ports(&["x-2"]), Err("invalid port: x".to_string()));
    assert_eq!(ports(&["1-y"]), Err("invalid port: y".to_string()));
    assert_eq!(ports(&["3-2"]), Err("invalid range: 3-2".to_string()));
}

#[test]
fn loopback_of_a_cell() {
    assert_eq!(derive_loopback("192.168.83.11"), Some("127.0.83.11".to_string()));
    assert_eq!(derive_loopback("192.168.83"), None);
    assert_eq!(add_loopback("127.0.83.11"), vec!["sudo", "ip", "addr", "add", "127.0.83.11/8", "dev", "lo"]);
    assert_eq!(
        remove_loopback("127.0.83.11"),
        vec!["sudo", "ip", "addr", "del", "127.0.83.11/8", "dev", "lo"]
    );
    assert_eq!(
        setup_tunnel_dns("/bin/cella", true, "127.0.83.11", "f.app.cell"),
        vec!["sudo", "/bin/cella", "util", "hosts", "add", "127.0.83.11", "f.app.cell"]
    );
    assert_eq!(
        setup_tunnel_dns("/bin/cella", false, "127.0.83.11", "f.app.cell")[2..4],
        ["hosts", "add"]
    );
    assert_eq!(
        cleanup_tunnel_dns("/bin/cella", true, "f.app.cell"),
        vec!["sudo", "/bin/cella", "util", "hosts", "remove", "f.app.cell"]
    );
}

fn status(name: &str, ip: Option<&str>) -> CellStatus {
    CellStatus {
        name: name.to_string(),
        status: "running".to_string(),
        ip: ip.map(|s| s.to_string()),
        repo: None,
        flow: None,
    }
}

fn tunnel() -> Tunnel {
    cmd_tunnel(
        "Feat/x",
        "/home/me/app",
        &vec![status("Feat/x", Some("192.168.83.11"))],
        vec![5173, 80],
        "root@host".to_string(),
    )
    .ok()
    .unwrap()
}

#[test]
fn tunnel_refused() {
    let target = || Some("root@host".to_string());
    assert_eq!(check_tunnel(vec![1], vec![2], target()).ok().unwrap().0, vec![1]);
    assert_eq!(check_tunnel(vec![], vec![2], target()).ok().unwrap().0, vec![2]);
    assert_eq!(
        check_tunnel(vec![], vec![], target()).err().unwrap().message(),
        "no ports specified — use -p 5173 or add ports = [5173] to .cella/config.toml"
    );
    assert_eq!(
        check_tunnel(vec![1], vec![], None).err().unwrap().message(),
        "tunnel is for remote hosts — ports are already accessible locally"
    );
    let open = |ip| {
        let cells = vec![status("f", ip)];
        cmd_tunnel("f", "/r", &cells, vec![1], "t".to_string()).err().map(|e| e.message())
    };
    assert_eq!(open(None), Some("cell 'f' has no IP (not running?)".to_string()));
    assert_eq!(open(Some("x")), Some("cannot derive loopback from IP 'x'".to_string()));
    assert_eq!(
        cmd_tunnel("g", "/r", &vec![], vec![1], "t".to_string()).err().unwrap().message(),
        "cell 'g' not found on server"
    );
}

#[test]
fn tunnel_opened() {
    let t = tunnel();
    assert_eq!(t.dns, "feat-x.app.cell");
    assert_eq!(
        open_line(&t, true),
        vec![
            "ssh",
            "-N",
            "-o",
            "LogLevel=ERROR",
            "-L",
            "127.0.83.11:5173:feat-x.app.cell:5173",
            "-L",
            "127.0.83.11:80:feat-x.app.cell:80",
            "root@host",
        ]
    );
    assert_eq!(open_line(&t, false)[5], "127.0.0.1:5173:feat-x.app.cell:5173");
    assert_eq!(reopen_line(&t), open_line(&t, true));
    assert_eq!(tunnel_url(&t, true), "http://feat-x.app.cell:5173");
    assert_eq!(tunnel_url(&t, false), "http://127.0.0.1:5173");
    assert_eq!(ports_text(&t.ports), "5173, 80");
    assert!(tunnel_over(true, false) && tunnel_over(false, true) && !tunnel_over(false, false));
}

#[test]
fn hosts_kept() {
    let hosts = "127.0.0.1 localhost\n";
    let line = hosts_add(hosts, "127.0.83.11", "f.app.cell").unwrap();
    assert_eq!(line, "127.0.83.11 f.app.cell # cella-tunnel\n");
    let with = format!("{hosts}{line}");
    assert_eq!(hosts_add(&with, "127.0.83.12", "f.app.cell"), None);
    assert_eq!(hosts_remove(&with, "f.app.cell"), hosts);
    assert_eq!(hosts_remove(&with, "g.app.cell"), with);
    assert_eq!(hosts_remove("1 f.app.cell", "f.app.cell"), "1 f.app.cell\n");
}

#[test]
fn tunnel_named_by_both() {
    assert!(tunnel_named(true, true));
    assert!(!tunnel_named(true, false));
    assert!(!tunnel_named(false, true));
    assert!(!tunnel_named(false, false));
}
