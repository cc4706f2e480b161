//! Tunnels to the ports of a cell.

use crate::cella::client::{find_status, status_of, CellStatus};
use crate::command::{arg, command, option};
use crate::path::{repo_name, repo_name_of};
use crate::session::dns::{dns_hostname, hostname_of};
use crate::text::basic::{contains, occurs, occurs_at};
use crate::text::number::{decimal, decimal_text, number_of, parse_number};
use crate::text::split::{
    cut_once, join, joined, lines, lines_of, parts_of, split, split_once, Sep,
};
use vstd::prelude::*;

verus! {

// Ports

/// What is wrong with a port.
pub enum PortError {
    InvalidPort(String),
    InvalidRange(String),
}

/// What is wrong with a port.
pub enum PortErrorView {
    InvalidPort(Seq<char>),
    InvalidRange(Seq<char>),
}

impl View for PortError {
    type V = PortErrorView;

    open spec fn view(&self) -> PortErrorView {
        match self {
            PortError::InvalidPort(p) => PortErrorView::InvalidPort(p@),
            PortError::InvalidRange(r) => PortErrorView::InvalidRange(r@),
        }
    }
}

impl PortError {
    /// The error in words.
    pub fn message(&self) -> (r: String)
        ensures
            r@ == (match self@ {
                PortErrorView::InvalidPort(p) => "invalid port: "@ + p,
                PortErrorView::InvalidRange(s) => "invalid range: "@ + s,
            }),
    {
        match self {
            PortError::InvalidPort(p) => {
                let mut r = "invalid port: ".to_string();
                r.append(p);
                r
            },
            PortError::InvalidRange(s) => {
                let mut r = "invalid range: ".to_string();
                r.append(s);
                r
            },
        }
    }
}

/// The port that a text writes.
pub open spec fn port_of(s: Seq<char>) -> Option<u16> {
    match number_of(s, u16::MAX as nat) {
        Some(n) => Some(n as u16),
        None => None,
    }
}

/// The ports from `first` to `last`.
pub open spec fn port_range(first: u16, last: u16) -> Seq<u16> {
    Seq::new((last - first + 1) as nat, |i: int| (first + i) as u16)
}

/// The ports that one text names: one, or a range with a hyphen.
pub open spec fn ports_in(spec: Seq<char>) -> Result<Seq<u16>, PortErrorView> {
    match cut_once(spec, '-') {
        Some((start, end)) => match port_of(start) {
            None => Err(PortErrorView::InvalidPort(start)),
            Some(s) => match port_of(end) {
                None => Err(PortErrorView::InvalidPort(end)),
                Some(e) => if s > e {
                    Err(PortErrorView::InvalidRange(spec))
                } else {
                    Ok(port_range(s, e))
                },
            },
        },
        None => match port_of(spec) {
            None => Err(PortErrorView::InvalidPort(spec)),
            Some(p) => Ok(seq![p]),
        },
    }
}

/// The ports that the texts name, in their order, or what is wrong with the
/// first that is wrong.
pub open spec fn all_ports(specs: Seq<Seq<char>>) -> Result<Seq<u16>, PortErrorView>
    decreases specs.len(),
{
    if specs.len() == 0 {
        Ok(Seq::<u16>::empty())
    } else {
        match all_ports(specs.drop_last()) {
            Err(e) => Err(e),
            Ok(front) => match ports_in(specs.last()) {
                Err(e) => Err(e),
                Ok(more) => Ok(front + more),
            },
        }
    }
}

fn port(text: &str) -> (r: Result<u16, PortError>)
    ensures
        match port_of(text@) {
            Some(p) => r == Ok::<u16, PortError>(p),
            None => r matches Err(e) && e@ == PortErrorView::InvalidPort(text@),
        },
{
    match parse_number(text, u16::MAX as u64) {
        Some(n) => Ok(n as u16),
        None => Err(PortError::InvalidPort(text.to_string())),
    }
}

fn one_spec(spec: &str) -> (r: Result<Vec<u16>, PortError>)
    ensures
        match ports_in(spec@) {
            Ok(p) => r matches Ok(v) && v@ == p,
            Err(e) => r matches Err(x) && x@ == e,
        },
{
    match split_once(spec, '-') {
        Some((start, end)) => {
            let s: u16 = match port(&start) {
                Ok(p) => p,
                Err(e) => return Err(e),
            };
            let e: u16 = match port(&end) {
                Ok(p) => p,
                Err(e) => return Err(e),
            };
            if s > e {
                return Err(PortError::InvalidRange(spec.to_string()));
            }
            let mut v: Vec<u16> = Vec::new();
            let mut p: u16 = s;
            v.push(s);
            while p < e
                invariant
                    s <= p <= e,
                    v@ == port_range(s, p),
                decreases e - p,
            {
                p += 1;
                v.push(p);
                assert(v@ =~= port_range(s, p));
            }
            Ok(v)
        },
        None => match port(spec) {
            Ok(p) => {
                let mut v: Vec<u16> = Vec::new();
                v.push(p);
                assert(v@ =~= seq![p]);
                Ok(v)
            },
            Err(e) => Err(e),
        },
    }
}

/// The ports that the texts name, or what is wrong with the first that is
/// wrong.
pub fn parse_ports(specs: &Vec<String>) -> (r: Result<Vec<u16>, PortError>)
    ensures
        match all_ports(specs.deep_view()) {
            Ok(p) => r matches Ok(v) && v@ == p,
            Err(e) => r matches Err(x) && x@ == e,
        },
{
    let ghost all = specs.deep_view();
    let mut r: Vec<u16> = Vec::new();
    let mut i: usize = 0;
    while i < specs.len()
        invariant
            i <= specs.len(),
            all == specs.deep_view(),
            all_ports(all.take(i as int)) == Ok::<Seq<u16>, PortErrorView>(r@),
        decreases specs.len() - i,
    {
        assert(all.take(i + 1).drop_last() == all.take(i as int));
        assert(all.take(i + 1).last() == specs[i as int]@);
        match one_spec(&specs[i]) {
            Ok(more) => {
                let ghost before = r@;
                let mut more = more;
                let ghost m = more@;
                r.append(&mut more);
                assert(r@ == before + m);
            },
            Err(e) => {
                proof {
                    lemma_first_error(all, i + 1);
                }
                return Err(e);
            },
        }
        i += 1;
    }
    assert(all.take(all.len() as int) == all);
    Ok(r)
}

proof fn lemma_first_error(specs: Seq<Seq<char>>, k: int)
    requires
        0 <= k <= specs.len(),
        all_ports(specs.take(k)) is Err,
    ensures
        all_ports(specs) == all_ports(specs.take(k)),
    decreases specs.len() - k,
{
    if k < specs.len() {
        assert(specs.take(k + 1).drop_last() == specs.take(k));
        lemma_first_error(specs, k + 1);
    } else {
        assert(specs.take(k) == specs);
    }
}

// Addresses

/// The address on this host for the cell at `vm_ip`: `127.0` and its last two
/// numbers.
pub open spec fn loopback_of(vm_ip: Seq<char>) -> Option<Seq<char>> {
    let parts = parts_of(vm_ip, Sep::Char('.'));
    if parts.len() == 4 {
        Some("127.0."@ + parts[2] + "."@ + parts[3])
    } else {
        None
    }
}

/// The address on this host for the cell at `vm_ip`.
pub fn derive_loopback(vm_ip: &str) -> (r: Option<String>)
    ensures
        r.deep_view() == loopback_of(vm_ip@),
{
    let parts = split(vm_ip, Sep::Char('.'));
    assert(parts.deep_view().len() == parts.len());
    if parts.len() == 4 {
        assert(parts.deep_view()[2] == parts[2]@);
        assert(parts.deep_view()[3] == parts[3]@);
        let mut r = "127.0.".to_string();
        r.append(&parts[2]);
        r.append(".");
        r.append(&parts[3]);
        Some(r)
    } else {
        None
    }
}

/// Each command below is that of a program that calls itself with these words
/// before its own.
pub open spec fn own_words(util: bool) -> Seq<Seq<char>> {
    if util {
        seq!["util"@, "hosts"@]
    } else {
        seq!["hosts"@]
    }
}

/// The command that gives this host one more address.
pub fn add_loopback(loopback: &str) -> (r: Vec<String>)
    ensures
        r.deep_view() == seq!["sudo"@, "ip"@, "addr"@, "add"@, loopback@ + "/8"@, "dev"@, "lo"@],
{
    let mut net = loopback.to_string();
    net.append("/8");
    let mut r = command("sudo");
    arg(&mut r, "ip");
    arg(&mut r, "addr");
    arg(&mut r, "add");
    arg(&mut r, &net);
    arg(&mut r, "dev");
    arg(&mut r, "lo");
    r
}

/// The command that takes the address from this host.
pub fn remove_loopback(loopback: &str) -> (r: Vec<String>)
    ensures
        r.deep_view() == seq!["sudo"@, "ip"@, "addr"@, "del"@, loopback@ + "/8"@, "dev"@, "lo"@],
{
    let mut net = loopback.to_string();
    net.append("/8");
    let mut r = command("sudo");
    arg(&mut r, "ip");
    arg(&mut r, "addr");
    arg(&mut r, "del");
    arg(&mut r, &net);
    arg(&mut r, "dev");
    arg(&mut r, "lo");
    r
}

/// The command with which the program `exe` has itself enter a host.
pub fn setup_tunnel_dns(exe: &str, util: bool, loopback: &str, dns: &str) -> (r: Vec<String>)
    ensures
        r.deep_view() == seq!["sudo"@, exe@] + own_words(util) + seq!["add"@, loopback@, dns@],
{
    let mut r = command("sudo");
    arg(&mut r, exe);
    if util {
        arg(&mut r, "util");
    }
    arg(&mut r, "hosts");
    arg(&mut r, "add");
    arg(&mut r, loopback);
    arg(&mut r, dns);
    assert(r.deep_view() =~= seq!["sudo"@, exe@] + own_words(util) + seq![
        "add"@,
        loopback@,
        dns@,
    ]);
    r
}

/// Whether a tunnel has a name and an address of its own on this host: both
/// the address was added and the host was entered.
pub fn tunnel_named(alias_added: bool, host_entered: bool) -> (r: bool)
    ensures
        r == (alias_added && host_entered),
{
    alias_added && host_entered
}

/// The command with which the program `exe` has itself take a host out.
pub fn cleanup_tunnel_dns(exe: &str, util: bool, dns: &str) -> (r: Vec<String>)
    ensures
        r.deep_view() == seq!["sudo"@, exe@] + own_words(util) + seq!["remove"@, dns@],
{
    let mut r = command("sudo");
    arg(&mut r, exe);
    if util {
        arg(&mut r, "util");
    }
    arg(&mut r, "hosts");
    arg(&mut r, "remove");
    arg(&mut r, dns);
    assert(r.deep_view() =~= seq!["sudo"@, exe@] + own_words(util) + seq!["remove"@, dns@]);
    r
}

// Tunnels

/// A tunnel.
pub struct Tunnel {
    pub ports: Vec<u16>,
    /// Whom to connect to.
    pub target: String,
    /// The address on this host.
    pub loopback: String,
    /// The name of the cell.
    pub dns: String,
}

/// Why there is no tunnel.
pub enum TunnelError {
    NoPorts,
    Local,
    CellNotFound(String),
    NoIp(String),
    NoLoopback(String),
}

impl TunnelError {
    /// The error in words.
    pub open spec fn words(self) -> Seq<char> {
        match self {
            TunnelError::NoPorts =>
                "no ports specified — use -p 5173 or add ports = [5173] to .cella/config.toml"@,
            TunnelError::Local =>
                "tunnel is for remote hosts — ports are already accessible locally"@,
            TunnelError::CellNotFound(c) => "cell '"@ + c@ + "' not found on server"@,
            TunnelError::NoIp(c) => "cell '"@ + c@ + "' has no IP (not running?)"@,
            TunnelError::NoLoopback(ip) => "cannot derive loopback from IP '"@ + ip@ + "'"@,
        }
    }

    /// The error in words.
    pub fn message(&self) -> (r: String)
        ensures
            r@ == self.words(),
    {
        match self {
            TunnelError::NoPorts =>
                "no ports specified — use -p 5173 or add ports = [5173] to .cella/config.toml".to_string(),
            TunnelError::Local =>
                "tunnel is for remote hosts — ports are already accessible locally".to_string(),
            TunnelError::CellNotFound(c) => {
                let mut r = "cell '".to_string();
                r.append(c);
                r.append("' not found on server");
                r
            },
            TunnelError::NoIp(c) => {
                let mut r = "cell '".to_string();
                r.append(c);
                r.append("' has no IP (not running?)");
                r
            },
            TunnelError::NoLoopback(ip) => {
                let mut r = "cannot derive loopback from IP '".to_string();
                r.append(ip);
                r.append("'");
                r
            },
        }
    }
}

/// The ports of a tunnel: those of the command line, or else those of the
/// repository.
pub open spec fn chosen_ports(given: Seq<u16>, configured: Seq<u16>) -> Seq<u16> {
    if given.len() == 0 {
        configured
    } else {
        given
    }
}

/// The ports of a tunnel, which must be some, and whom to connect to, which
/// must be another host.
pub fn check_tunnel(
    given: Vec<u16>,
    configured: Vec<u16>,
    target: Option<String>,
) -> (r: Result<(Vec<u16>, String), TunnelError>)
    ensures
        ({
            let ports = chosen_ports(given@, configured@);
            if ports.len() == 0 {
                r matches Err(TunnelError::NoPorts)
            } else {
                match target {
                    None => r matches Err(TunnelError::Local),
                    Some(t) => r matches Ok(x) && x.0@ == ports && x.1@ == t@,
                }
            }
        }),
{
    let ports = if given.len() == 0 {
        configured
    } else {
        given
    };
    if ports.len() == 0 {
        return Err(TunnelError::NoPorts);
    }
    match target {
        None => Err(TunnelError::Local),
        Some(t) => Ok((ports, t)),
    }
}

/// The tunnel to the cell, which must be among `cells` and have an address.
pub fn cmd_tunnel(
    cell: &str,
    repo_root: &str,
    cells: &Vec<CellStatus>,
    ports: Vec<u16>,
    target: String,
) -> (r: Result<Tunnel, TunnelError>)
    ensures
        match status_of(cells@, cell@) {
            None => r matches Err(TunnelError::CellNotFound(c)) && c@ == cell@,
            Some(found) => match found.ip {
                None => r matches Err(TunnelError::NoIp(c)) && c@ == cell@,
                Some(ip) => match loopback_of(ip@) {
                    None => r matches Err(TunnelError::NoLoopback(i)) && i@ == ip@,
                    Some(l) => r matches Ok(t) && t.loopback@ == l && t.dns@ == hostname_of(
                        cell@,
                        repo_name_of(repo_root@),
                    ) && t.ports == ports && t.target == target,
                },
            },
        },
{
    let found = match find_status(cells, cell) {
        None => return Err(TunnelError::CellNotFound(cell.to_string())),
        Some(f) => f,
    };
    let ip = match &found.ip {
        None => return Err(TunnelError::NoIp(cell.to_string())),
        Some(i) => i,
    };
    match derive_loopback(ip) {
        None => Err(TunnelError::NoLoopback(ip.clone())),
        Some(loopback) => {
            let dns = dns_hostname(cell, &repo_name(repo_root));
            Ok(Tunnel { ports, target, loopback, dns })
        },
    }
}

/// The arguments that forward the ports from the address `bind`.
pub open spec fn forwards(bind: Seq<char>, dns: Seq<char>, ports: Seq<u16>) -> Seq<Seq<char>>
    decreases ports.len(),
{
    if ports.len() == 0 {
        Seq::<Seq<char>>::empty()
    } else {
        let p = decimal(ports.last() as nat);
        forwards(bind, dns, ports.drop_last()).push("-L"@).push(
            bind + ":"@ + p + ":"@ + dns + ":"@ + p,
        )
    }
}

/// The command of a tunnel from the address `bind`.
pub open spec fn tunnel_line(tunnel: Tunnel, bind: Seq<char>) -> Seq<Seq<char>> {
    seq!["ssh"@, "-N"@, "-o"@, "LogLevel=ERROR"@] + forwards(bind, tunnel.dns@, tunnel.ports@)
        + seq![tunnel.target@]
}

fn line_from(tunnel: &Tunnel, bind: &str) -> (r: Vec<String>)
    ensures
        r.deep_view() == tunnel_line(*tunnel, bind@),
{
    let mut r = command("ssh");
    arg(&mut r, "-N");
    option(&mut r, "LogLevel=ERROR");
    let ghost start = r.deep_view();
    let mut i: usize = 0;
    assert(r.deep_view() == start + forwards(bind@, tunnel.dns@, tunnel.ports@.take(0)));
    while i < tunnel.ports.len()
        invariant
            i <= tunnel.ports.len(),
            r.deep_view() == start + forwards(
                bind@,
                tunnel.dns@,
                tunnel.ports@.take(i as int),
            ),
        decreases tunnel.ports.len() - i,
    {
        assert(tunnel.ports@.take(i + 1).drop_last() == tunnel.ports@.take(i as int));
        let p = decimal_text(tunnel.ports[i] as u64);
        let mut f = bind.to_string();
        f.append(":");
        f.append(&p);
        f.append(":");
        f.append(&tunnel.dns);
        f.append(":");
        f.append(&p);
        arg(&mut r, "-L");
        arg(&mut r, &f);
        i += 1;
        assert(r.deep_view() == start + forwards(
            bind@,
            tunnel.dns@,
            tunnel.ports@.take(i as int),
        ));
    }
    assert(tunnel.ports@.take(tunnel.ports@.len() as int) == tunnel.ports@);
    arg(&mut r, &tunnel.target);
    assert(r.deep_view() =~= tunnel_line(*tunnel, bind@));
    r
}

/// The address that a tunnel is first opened from.
pub open spec fn bind_of(tunnel: Tunnel, has_dns: bool) -> Seq<char> {
    if has_dns {
        tunnel.loopback@
    } else {
        "127.0.0.1"@
    }
}

/// The command that opens a tunnel; `has_dns` says whether this host has the
/// address and the name of the cell.
pub fn open_line(tunnel: &Tunnel, has_dns: bool) -> (r: Vec<String>)
    ensures
        r.deep_view() == tunnel_line(*tunnel, bind_of(*tunnel, has_dns)),
{
    if has_dns {
        line_from(tunnel, &tunnel.loopback)
    } else {
        line_from(tunnel, "127.0.0.1")
    }
}

/// The command that opens a tunnel again, after it broke: always from the
/// address of the cell.
pub fn reopen_line(tunnel: &Tunnel) -> (r: Vec<String>)
    ensures
        r.deep_view() == tunnel_line(*tunnel, tunnel.loopback@),
{
    line_from(tunnel, &tunnel.loopback)
}

/// Where the first port of a tunnel is reached.
pub fn tunnel_url(tunnel: &Tunnel, has_dns: bool) -> (r: String)
    requires
        tunnel.ports@.len() > 0,
    ensures
        r@ == "http://"@ + (if has_dns {
            tunnel.dns@
        } else {
            "127.0.0.1"@
        }) + ":"@ + decimal(tunnel.ports@[0] as nat),
{
    let mut r = "http://".to_string();
    if has_dns {
        r.append(&tunnel.dns);
    } else {
        r.append("127.0.0.1");
    }
    r.append(":");
    r.append(&decimal_text(tunnel.ports[0] as u64));
    r
}

/// The numerals of the ports.
pub open spec fn port_numerals(ports: Seq<u16>) -> Seq<Seq<char>> {
    ports.map_values(|p: u16| decimal(p as nat))
}

/// The ports in words.
pub fn ports_text(ports: &Vec<u16>) -> (r: String)
    ensures
        r@ == joined(port_numerals(ports@), ", "@),
{
    let mut list: Vec<String> = Vec::new();
    let mut i: usize = 0;
    while i < ports.len()
        invariant
            i <= ports.len(),
            list.len() == i,
            forall|j: int| 0 <= j < i ==> #[trigger] list[j]@ == decimal(ports[j] as nat),
        decreases ports.len() - i,
    {
        list.push(decimal_text(ports[i] as u64));
        i += 1;
    }
    assert(list.deep_view() =~= port_numerals(ports@));
    join(&list, ", ")
}

/// Whether a tunnel that ended is not opened again: it was closed, or the
/// program was told to end.
pub fn tunnel_over(success: bool, signalled: bool) -> (r: bool)
    ensures
        r == (success || signalled),
{
    success || signalled
}

// The hosts of this host

/// What marks the lines for tunnels.
pub const HOSTS_MARKER: &'static str = "# cella-tunnel";

/// The line that is added for a host: none where its name stands in the file.
pub open spec fn hosts_line(hosts: Seq<char>, ip: Seq<char>, hostname: Seq<char>) -> Option<
    Seq<char>,
> {
    if occurs(hosts, hostname) {
        None
    } else {
        Some(ip + " "@ + hostname + " "@ + HOSTS_MARKER@ + "\n"@)
    }
}

/// What is added to the file for a host.
pub fn hosts_add(hosts: &str, ip: &str, hostname: &str) -> (r: Option<String>)
    ensures
        r.deep_view() == hosts_line(hosts@, ip@, hostname@),
{
    if contains(hosts, hostname) {
        None
    } else {
        let mut r = ip.to_string();
        r.append(" ");
        r.append(hostname);
        r.append(" ");
        r.append(HOSTS_MARKER);
        r.append("\n");
        Some(r)
    }
}

/// A line that is not one for a tunnel to the host.
pub open spec fn stays(hostname: Seq<char>) -> spec_fn(Seq<char>) -> bool {
    |line: Seq<char>| !(occurs(line, hostname) && occurs(line, HOSTS_MARKER@))
}

/// The file without the lines for tunnels to the host.
pub open spec fn hosts_without(hosts: Seq<char>, hostname: Seq<char>) -> Seq<char> {
    joined(lines_of(hosts).filter(stays(hostname)), "\n"@) + "\n"@
}

/// The file without the lines for tunnels to the host.
pub fn hosts_remove(hosts: &str, hostname: &str) -> (r: String)
    ensures
        r@ == hosts_without(hosts@, hostname@),
{
    let list = lines(hosts);
    let ghost all = list.deep_view();
    let ghost keep = stays(hostname@);
    let mut kept: Vec<String> = Vec::new();
    let mut i: usize = 0;
    assert(kept.deep_view() == all.take(0).filter(keep)) by {
        reveal(Seq::filter);
    }
    while i < list.len()
        invariant
            i <= list.len(),
            all == list.deep_view(),
            keep == stays(hostname@),
            kept.deep_view() == all.take(i as int).filter(keep),
        decreases list.len() - i,
    {
        let ghost before = kept.deep_view();
        assert(all.take(i + 1).drop_last() == all.take(i as int));
        assert(all.take(i + 1).last() == list[i as int]@);
        if !(contains(&list[i], hostname) && contains(&list[i], HOSTS_MARKER)) {
            kept.push(list[i].clone());
            assert(kept.deep_view() == before.push(list[i as int]@));
        }
        assert(kept.deep_view() == all.take(i + 1).filter(keep)) by {
            reveal(Seq::filter);
        }
        i += 1;
    }
    assert(all.take(all.len() as int) == all);
    let mut r = join(&kept, "\n");
    r.append("\n");
    r
}

/// A host that was added is not added again.
pub proof fn law_host_added_once(hosts: Seq<char>, ip: Seq<char>, hostname: Seq<char>)
    requires
        hosts_line(hosts, ip, hostname) is Some,
    ensures
        hosts_line(hosts + hosts_line(hosts, ip, hostname)->0, ip, hostname) is None,
{
    let text = hosts + hosts_line(hosts, ip, hostname)->0;
    let at = (hosts.len() + ip.len() + " "@.len()) as int;
    assert(text.subrange(at, at + hostname.len()) == hostname);
    assert(occurs_at(text, hostname, at));
}

/// Only lines for tunnels are taken out: every line without the mark stays,
/// and no line that stays is one for a tunnel to the host.
pub proof fn law_other_hosts_stay(hosts: Seq<char>, hostname: Seq<char>, i: int)
    requires
        0 <= i < lines_of(hosts).len(),
    ensures
        !occurs(lines_of(hosts)[i], HOSTS_MARKER@) ==> lines_of(hosts).filter(
            stays(hostname),
        ).contains(lines_of(hosts)[i]),
        forall|j: int|
            0 <= j < lines_of(hosts).filter(stays(hostname)).len() ==> !(occurs(
                #[trigger] lines_of(hosts).filter(stays(hostname))[j],
                hostname,
            ) && occurs(lines_of(hosts).filter(stays(hostname))[j], HOSTS_MARKER@)),
{
    let keep = stays(hostname);
    if !occurs(lines_of(hosts)[i], HOSTS_MARKER@) {
        assert(keep(lines_of(hosts)[i]));
        lines_of(hosts).lemma_filter_contains(keep, i);
    }
    assert forall|j: int| 0 <= j < lines_of(hosts).filter(keep).len() implies !(occurs(
        #[trigger] lines_of(hosts).filter(keep)[j],
        hostname,
    ) && occurs(lines_of(hosts).filter(keep)[j], HOSTS_MARKER@)) by {
        lines_of(hosts).lemma_filter_pred(keep, j);
        assert(keep(lines_of(hosts).filter(keep)[j]));
    }
}

proof fn lemma_no_hyphen(n: nat)
    ensures
        !decimal(n).contains('-'),
        !decimal(n).contains('.'),
{
    crate::text::number::lemma_decimal_value(n);
    assert forall|i: int| 0 <= i < decimal(n).len() implies decimal(n)[i] != '-' && decimal(n)[i]
        != '.' by {
        assert(crate::text::number::is_digit(decimal(n)[i]));
    }
}

/// A numeral names its port; two numerals with a hyphen between them name
/// every port from the first to the second and no other, in rising order, and
/// are wrong where the first is the larger.
pub proof fn law_ports_of_a_text(first: u16, last: u16)
    ensures
        ports_in(decimal(first as nat)) == Ok::<Seq<u16>, PortErrorView>(seq![first]),
        first <= last ==> {
            let named = ports_in(decimal(first as nat) + seq!['-'] + decimal(last as nat));
            &&& named is Ok
            &&& forall|p: u16| #[trigger] named->Ok_0.contains(p) <==> first <= p <= last
            &&& forall|i: int, j: int|
                0 <= i < j < named->Ok_0.len() ==> named->Ok_0[i] < named->Ok_0[j]
        },
        first > last ==> {
            let text = decimal(first as nat) + seq!['-'] + decimal(last as nat);
            ports_in(text) == Err::<Seq<u16>, PortErrorView>(PortErrorView::InvalidRange(text))
        },
{
    let a = decimal(first as nat);
    let b = decimal(last as nat);
    lemma_no_hyphen(first as nat);
    crate::text::number::law_decimal_reads_back(first as nat, u16::MAX as nat);
    crate::text::number::law_decimal_reads_back(last as nat, u16::MAX as nat);
    crate::text::split::law_cut_at_first(a, '-');
    crate::text::split::law_cut_gives_back(a, '-', b);
    if first <= last {
        let named = ports_in(a + seq!['-'] + b)->Ok_0;
        assert forall|p: u16| #[trigger] named.contains(p) <==> first <= p <= last by {
            if first <= p <= last {
                assert(named[p - first] == p);
            }
        }
    }
}

/// A text that is no port is refused under its own name, alone or on either
/// side of a hyphen.
pub proof fn law_wrong_port_named(bad: Seq<char>, good: u16)
    requires
        number_of(bad, u16::MAX as nat) is None,
        !bad.contains('-'),
    ensures
        ports_in(bad) == Err::<Seq<u16>, PortErrorView>(PortErrorView::InvalidPort(bad)),
        ports_in(bad + seq!['-'] + decimal(good as nat)) == Err::<Seq<u16>, PortErrorView>(
            PortErrorView::InvalidPort(bad),
        ),
        ports_in(decimal(good as nat) + seq!['-'] + bad) == Err::<Seq<u16>, PortErrorView>(
            PortErrorView::InvalidPort(bad),
        ),
{
    let g = decimal(good as nat);
    lemma_no_hyphen(good as nat);
    crate::text::number::law_decimal_reads_back(good as nat, u16::MAX as nat);
    crate::text::split::law_cut_at_first(bad, '-');
    crate::text::split::law_cut_gives_back(bad, '-', g);
    crate::text::split::law_cut_gives_back(g, '-', bad);
}

/// The ports of several texts are the ports of each, none left out and none
/// added; they are wrong where, and only where, one of the texts is wrong, and
/// the first such text says how.
pub proof fn law_ports_of_all_texts(specs: Seq<Seq<char>>)
    ensures
        all_ports(specs) is Err <==> exists|i: int|
            0 <= i < specs.len() && (#[trigger] ports_in(specs[i])) is Err,
        all_ports(specs) matches Ok(all) ==> forall|p: u16| #[trigger]
            all.contains(p) <==> exists|i: int|
                0 <= i < specs.len() && (#[trigger] ports_in(specs[i]))->Ok_0.contains(p),
        forall|i: int|
            0 <= i < specs.len() && (#[trigger] ports_in(specs[i])) is Err && (forall|j: int|
                0 <= j < i ==> (#[trigger] ports_in(specs[j])) is Ok) ==> all_ports(specs)
                == ports_in(specs[i]),
    decreases specs.len(),
{
    if specs.len() > 0 {
        let short = specs.drop_last();
        law_ports_of_all_texts(short);
        assert forall|i: int| 0 <= i < short.len() implies #[trigger] short[i] == specs[i] by {}
        if all_ports(short) is Err {
            let i = choose|i: int| 0 <= i < short.len() && (#[trigger] ports_in(short[i])) is Err;
            assert(ports_in(specs[i]) is Err);
        }
        if all_ports(specs) is Err && all_ports(short) is Ok {
            assert(ports_in(specs[specs.len() - 1]) is Err);
        }
        if exists|i: int| 0 <= i < specs.len() && (#[trigger] ports_in(specs[i])) is Err {
            let i = choose|i: int| 0 <= i < specs.len() && (#[trigger] ports_in(specs[i])) is Err;
            if i < short.len() {
                assert(ports_in(short[i]) is Err);
            }
        }
        if all_ports(specs) is Ok {
            let all = all_ports(specs)->Ok_0;
            let front = all_ports(short)->Ok_0;
            let more = ports_in(specs.last())->Ok_0;
            assert forall|p: u16| #[trigger] all.contains(p) <==> exists|i: int|
                0 <= i < specs.len() && (#[trigger] ports_in(specs[i]))->Ok_0.contains(p) by {
                if all.contains(p) {
                    let k = all.index_of(p);
                    if k < front.len() {
                        assert(front[k] == p);
                        assert(front.contains(p));
                        let i = choose|i: int|
                            0 <= i < short.len() && (#[trigger] ports_in(short[i]))->Ok_0.contains(
                                p,
                            );
                        assert(ports_in(specs[i])->Ok_0.contains(p));
                    } else {
                        assert(more[k - front.len()] == p);
                        assert(ports_in(specs[specs.len() - 1])->Ok_0.contains(p));
                    }
                }
                if exists|i: int|
                    0 <= i < specs.len() && (#[trigger] ports_in(specs[i]))->Ok_0.contains(p) {
                    let i = choose|i: int|
                        0 <= i < specs.len() && (#[trigger] ports_in(specs[i]))->Ok_0.contains(p);
                    if i < short.len() {
                        assert(ports_in(short[i])->Ok_0.contains(p));
                        assert(front.contains(p));
                        let k = front.index_of(p);
                        assert(all[k] == p);
                    } else {
                        let k = more.index_of(p);
                        assert(all[front.len() + k] == p);
                    }
                }
            }
        }
        assert forall|i: int|
            0 <= i < specs.len() && (#[trigger] ports_in(specs[i])) is Err && (forall|j: int|
                0 <= j < i ==> (#[trigger] ports_in(specs[j])) is Ok) implies all_ports(specs)
            == ports_in(specs[i]) by {
            if i < short.len() {
                assert(ports_in(short[i]) is Err);
                assert forall|j: int| 0 <= j < i implies (#[trigger] ports_in(short[j])) is Ok by {
                    assert(ports_in(specs[j]) is Ok);
                }
            } else {
                if all_ports(short) is Err {
                    let j = choose|j: int|
                        0 <= j < short.len() && (#[trigger] ports_in(short[j])) is Err;
                    assert(ports_in(specs[j]) is Ok);
                }
            }
        }
    }
}

/// The address on this host keeps the last two numbers of the cell's address
/// behind 127.0, so that cells whose addresses differ there do not share one.
pub proof fn law_loopback_keeps_last_numbers(
    a: Seq<char>,
    b: Seq<char>,
    c: Seq<char>,
    d: Seq<char>,
)
    requires
        !a.contains('.') && !b.contains('.') && !c.contains('.') && !d.contains('.'),
    ensures
        loopback_of(a + seq!['.'] + b + seq!['.'] + c + seq!['.'] + d) == Some(
            seq!['1', '2', '7', '.', '0', '.'] + c + seq!['.'] + d,
        ),
        loopback_of(a + seq!['.'] + b + seq!['.'] + c) is None,
{
    reveal_strlit("127.0.");
    reveal_strlit(".");
    let four = seq![a, b, c, d];
    let three = seq![a, b, c];
    assert forall|i: int, j: int|
        0 <= i < four.len() && 0 <= j < four[i].len() implies #[trigger] four[i][j] != '.' by {
        assert(four[i].contains(four[i][j]));
    }
    assert forall|i: int, j: int|
        0 <= i < three.len() && 0 <= j < three[i].len() implies #[trigger] three[i][j] != '.' by {
        assert(three[i].contains(three[i][j]));
    }
    crate::text::split::law_joined_texts_part(four, Sep::Char('.'), '.');
    crate::text::split::law_joined_texts_part(three, Sep::Char('.'), '.');
    assert(four.drop_last() == three);
    assert(three.drop_last() == seq![a, b]);
    assert(seq![a, b].drop_last() == seq![a]);
    assert(joined(seq![a], seq!['.']) == a);
    assert(joined(seq![a, b], seq!['.']) == a + seq!['.'] + b);
    assert(joined(three, seq!['.']) == a + seq!['.'] + b + seq!['.'] + c);
    assert("127.0."@ == seq!['1', '2', '7', '.', '0', '.']);
    assert("."@ == seq!['.']);
}

/// Every port of a tunnel is forwarded, from this host to the same port of the
/// cell under its name, and nothing else is; the tunnel goes to the target.
pub proof fn law_every_port_forwarded(tunnel: Tunnel, bind: Seq<char>, i: int)
    requires
        0 <= i < tunnel.ports@.len(),
    ensures
        ({
            let line = tunnel_line(tunnel, bind);
            let port = decimal(tunnel.ports@[i] as nat);
            &&& line.len() == 5 + 2 * tunnel.ports@.len()
            &&& line[0] == "ssh"@ && line[1] == "-N"@
            &&& line[4 + 2 * i] == "-L"@
            &&& line[5 + 2 * i] == bind + ":"@ + port + ":"@ + tunnel.dns@ + ":"@ + port
            &&& line.last() == tunnel.target@
        }),
{
    lemma_forwards(bind, tunnel.dns@, tunnel.ports@, i);
}

proof fn lemma_forwards(bind: Seq<char>, dns: Seq<char>, ports: Seq<u16>, i: int)
    requires
        0 <= i < ports.len(),
    ensures
        forwards(bind, dns, ports).len() == 2 * ports.len(),
        forwards(bind, dns, ports)[2 * i] == "-L"@,
        forwards(bind, dns, ports)[2 * i + 1] == bind + ":"@ + decimal(ports[i] as nat) + ":"@ + dns
            + ":"@ + decimal(ports[i] as nat),
    decreases ports.len(),
{
    let short = ports.drop_last();
    reveal_with_fuel(forwards, 2);
    if short.len() > 0 {
        lemma_forwards(
            bind,
            dns,
            short,
            if i < short.len() {
                i
            } else {
                0
            },
        );
    }
}

/// A tunnel is opened from the cell's own address where this host has it, and
/// else from 127.0.0.1; the ports of the command line go before those of the
/// repository.
pub proof fn law_tunnel_choices(tunnel: Tunnel, given: Seq<u16>, configured: Seq<u16>)
    ensures
        bind_of(tunnel, true) == tunnel.loopback@,
        bind_of(tunnel, false) == "127.0.0.1"@,
        given.len() > 0 ==> chosen_ports(given, configured) == given,
        chosen_ports(Seq::<u16>::empty(), configured) == configured,
{
}

/// Each reason why there is no tunnel is said in words of its own, with the
/// cell or the address that it is about.
pub proof fn law_tunnel_errors_said(c: String)
    ensures
        TunnelError::NoPorts.words()
            == "no ports specified — use -p 5173 or add ports = [5173] to .cella/config.toml"@,
        TunnelError::Local.words()
            == "tunnel is for remote hosts — ports are already accessible locally"@,
        TunnelError::CellNotFound(c).words() == "cell '"@ + c@ + "' not found on server"@,
        TunnelError::NoIp(c).words() == "cell '"@ + c@ + "' has no IP (not running?)"@,
        TunnelError::NoLoopback(c).words() == "cannot derive loopback from IP '"@ + c@ + "'"@,
{
}

/// The program calls itself by the words that it was called with, and the
/// ports are said as numerals in their order.
pub proof fn law_called_by_own_words(ports: Seq<u16>, i: int)
    requires
        0 <= i < ports.len(),
    ensures
        own_words(true) == seq!["util"@, "hosts"@],
        own_words(false) == seq!["hosts"@],
        port_numerals(ports).len() == ports.len(),
        port_numerals(ports)[i] == decimal(ports[i] as nat),
{
}

/// A host that the file does not name gets a line with its address, its name
/// and the mark; taking it out leaves every other line in its order.
pub proof fn law_hosts_marked(
    hosts: Seq<char>,
    ip: Seq<char>,
    hostname: Seq<char>,
    list: Seq<Seq<char>>,
)
    requires
        forall|i: int| 0 <= i < list.len() ==> !(#[trigger] list[i]).contains('\n'),
        forall|i: int|
            0 <= i < list.len() && (#[trigger] list[i]).len() > 0 ==> list[i].last() != '\r',
    ensures
        !occurs(hosts, hostname) ==> hosts_line(hosts, ip, hostname) == Some(
            ip + " "@ + hostname + " "@ + "# cella-tunnel"@ + "\n"@,
        ),
        occurs(hosts, hostname) ==> hosts_line(hosts, ip, hostname) is None,
        list.len() > 0 && list.filter(stays(hostname)).len() > 0 ==> lines_of(
            hosts_without(joined(list, seq!['\n']) + seq!['\n'], hostname),
        ) == list.filter(stays(hostname)),
{
    reveal_strlit("\n");
    assert("\n"@ == seq!['\n']);
    let keep = stays(hostname);
    let kept = list.filter(keep);
    if list.len() > 0 && kept.len() > 0 {
        crate::text::split::law_lines_read_back(list);
        assert forall|i: int| 0 <= i < kept.len() implies !(#[trigger] kept[i]).contains('\n') by {
            assert(kept.contains(kept[i]));
            list.lemma_filter_contains_rev(keep, kept[i]);
            let j = list.index_of(kept[i]);
            assert(list[j] == kept[i]);
        }
        assert forall|i: int|
            0 <= i < kept.len() && (#[trigger] kept[i]).len() > 0 implies kept[i].last() != '\r' by {
            assert(kept.contains(kept[i]));
            list.lemma_filter_contains_rev(keep, kept[i]);
            let j = list.index_of(kept[i]);
            assert(list[j] == kept[i]);
        }
        crate::text::split::law_lines_read_back(kept);
    }
}

} // verus!
