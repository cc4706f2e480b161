//! The virtual machines of cells: their sessions, their start and their end.

use crate::command::{arg, command, post, post_line, ssh_within, ssh_within_line};
use crate::flow::state::{FileStep, FileStepView};
use crate::json::{
    add_member, json_read, lemma_member_found, members_of, object, printed, render, text, texts,
    texts_tree, under, Json, Tree,
};
use crate::path::{join, joined_path};
use crate::session::cell::{cell_dir, cell_flake_dir, dir_of};
use crate::session::dns::{dns_hostname, hostname_of};
use crate::session::flake::{host_user, read_host_config_user};
use crate::text::basic::{same, trim, trimmed};
use crate::text::number::{decimal, decimal_text, number_of, parse_number};
use crate::text::split::{joined, lines, lines_of, parts_of, split, Sep};
use vstd::prelude::*;

verus! {

// Sessions

/// The machine does not run: there is no file with its address.
pub struct NotRunning;

impl NotRunning {
    /// The error in words.
    pub fn message(&self) -> (r: String)
        ensures
            r@ == "VM not running (no ip file)"@,
    {
        "VM not running (no ip file)".to_string()
    }
}

/// Whom to connect to: the user at the address, or the address alone where no
/// user is known.
pub open spec fn target_of(ip: Seq<char>, user: Option<Seq<char>>) -> Seq<char> {
    match user {
        Some(u) if trimmed(u).len() > 0 => trimmed(u) + "@"@ + trimmed(ip),
        _ => trimmed(ip),
    }
}

/// The address of a machine and whom to connect to, from its files `ip` and
/// `user` where they are there.
pub fn ssh_target(ip: Option<&str>, user: Option<&str>) -> (r: Result<(String, String), NotRunning>)
    ensures
        match ip {
            Some(i) => r matches Ok(t) && t.0@ == trimmed(i@) && t.1@ == target_of(
                i@,
                user.deep_view(),
            ),
            None => r is Err,
        },
{
    match ip {
        None => Err(NotRunning),
        Some(i) => {
            let ip = trim(i);
            let user = match user {
                Some(u) => trim(u),
                None => String::new(),
            };
            if user.as_str().is_empty() {
                let target = ip.clone();
                Ok((ip, target))
            } else {
                let mut target = user;
                target.append("@");
                target.append(&ip);
                Ok((ip, target))
            }
        },
    }
}

/// The script that counts the sessions of a machine.
pub const COUNT_SCRIPT: &'static str = "tmux list-sessions 2>/dev/null | wc -l";

/// The command that counts the sessions of the machine at `target`.
pub fn count_sessions(target: &str) -> (r: Vec<String>)
    ensures
        r.deep_view() == ssh_within_line("ConnectTimeout=3"@, target@, COUNT_SCRIPT@),
{
    ssh_within("ConnectTimeout=3", target, COUNT_SCRIPT)
}

/// The number that a text writes, or else `default`.
pub open spec fn number_or(s: Seq<char>, max: nat, default: nat) -> nat {
    match number_of(s, max) {
        Some(n) => n,
        None => default,
    }
}

/// The number of sessions, from what the script prints.
pub fn session_count(output: &str) -> (r: usize)
    ensures
        r == number_or(trimmed(output@), usize::MAX as nat, 0),
{
    match parse_number(&trim(output), usize::MAX as u64) {
        Some(n) => n as usize,
        None => 0,
    }
}

/// One session of a machine.
pub struct SessionInfo {
    pub name: String,
    /// Somebody is in it.
    pub attached: bool,
    pub windows: usize,
    pub created: String,
}

/// One session of a machine.
pub struct SessionView {
    pub name: Seq<char>,
    pub attached: bool,
    pub windows: usize,
    pub created: Seq<char>,
}

impl DeepView for SessionInfo {
    type V = SessionView;

    open spec fn deep_view(&self) -> SessionView {
        SessionView {
            name: self.name@,
            attached: self.attached,
            windows: self.windows,
            created: self.created@,
        }
    }
}

/// The script that lists the sessions of a machine.
pub const SESSIONS_SCRIPT: &'static str =
    "tmux list-sessions -F '#{session_name}|#{session_attached}|#{session_windows}|#{session_created}' 2>/dev/null";

/// The command that lists the sessions of the machine at `target`.
pub fn sessions_line(target: &str) -> (r: Vec<String>)
    ensures
        r.deep_view() == ssh_within_line("ConnectTimeout=3"@, target@, SESSIONS_SCRIPT@),
{
    ssh_within("ConnectTimeout=3", target, SESSIONS_SCRIPT)
}

/// The session that a line describes: a name, whether somebody is in it, the
/// number of windows and a time, with bars between them.
pub open spec fn session_in(line: Seq<char>) -> Option<SessionView> {
    let parts = parts_of(line, Sep::Char('|'));
    if parts.len() >= 4 {
        Some(
            SessionView {
                name: parts[0],
                attached: parts[1] == "1"@,
                windows: number_or(parts[2], usize::MAX as nat, 1) as usize,
                created: parts[3],
            },
        )
    } else {
        None
    }
}

/// The sessions that the lines describe.
pub open spec fn sessions_in(list: Seq<Seq<char>>) -> Seq<SessionView>
    decreases list.len(),
{
    if list.len() == 0 {
        Seq::<SessionView>::empty()
    } else {
        let front = sessions_in(list.drop_last());
        match session_in(list.last()) {
            Some(s) if list.last().len() > 0 => front.push(s),
            _ => front,
        }
    }
}

/// The number that a text writes, or else one.
pub fn windows_of(text: &str) -> (r: usize)
    ensures
        r == number_or(text@, usize::MAX as nat, 1),
{
    match parse_number(text, usize::MAX as u64) {
        Some(n) => n as usize,
        None => 1,
    }
}

/// The sessions of a machine, from what the script prints.
pub fn list_sessions(output: &str) -> (r: Vec<SessionInfo>)
    ensures
        r.deep_view() == sessions_in(lines_of(output@)),
{
    let list = lines(output);
    let ghost all = list.deep_view();
    let mut r: Vec<SessionInfo> = Vec::new();
    let mut i: usize = 0;
    assert(r.deep_view() == sessions_in(all.take(0)));
    while i < list.len()
        invariant
            i <= list.len(),
            all == list.deep_view(),
            r.deep_view() == sessions_in(all.take(i as int)),
        decreases list.len() - i,
    {
        assert(all.take(i + 1).drop_last() == all.take(i as int));
        assert(all.take(i + 1).last() == list[i as int]@);
        let ghost before = r.deep_view();
        if !list[i].as_str().is_empty() {
            let parts = split(&list[i], Sep::Char('|'));
            let ghost pv = parts.deep_view();
            if parts.len() >= 4 {
                assert(pv[0] == parts[0]@ && pv[1] == parts[1]@ && pv[2] == parts[2]@ && pv[3]
                    == parts[3]@);
                let s = SessionInfo {
                    name: parts[0].clone(),
                    attached: same(&parts[1], "1"),
                    windows: windows_of(&parts[2]),
                    created: parts[3].clone(),
                };
                r.push(s);
                assert(r.deep_view() == before.push(s.deep_view()));
                assert(Some(s.deep_view()) == session_in(list[i as int]@));
            }
        }
        i += 1;
    }
    assert(all.take(all.len() as int) == all);
    r
}

// Autostop
//
// autostop.at      - when the cell is to be stopped
// autostop.timeout - the seconds from the last session to that time
//
// The sweep decides: it sets the time when it first sees no session, and stops
// the cell when the time has come. A shell that ends may set the time early.

/// The file with the time of the stop, in the runtime directory `rt`.
pub fn autostop_at_file(rt: &str) -> (r: String)
    ensures
        r@ == joined_path(rt@, "autostop.at"@),
{
    join(rt, "autostop.at")
}

/// The file with the timeout, in the runtime directory `rt`.
pub fn autostop_timeout_file(rt: &str) -> (r: String)
    ensures
        r@ == joined_path(rt@, "autostop.timeout"@),
{
    join(rt, "autostop.timeout")
}

/// Write the configured timeout so that the sweep can read it.
pub fn write_autostop_timeout(rt: &str, timeout: u64) -> (r: FileStep)
    ensures
        r.deep_view() == (FileStepView::Write {
            path: joined_path(rt@, "autostop.timeout"@),
            text: decimal(timeout as nat),
        }),
{
    FileStep::Write { path: autostop_timeout_file(rt), text: decimal_text(timeout) }
}

/// The timeout that a file gives: five minutes where it gives none.
pub open spec fn timeout_in(content: Option<Seq<char>>) -> nat {
    match content {
        Some(c) => number_or(trimmed(c), u64::MAX as nat, 300),
        None => 300,
    }
}

/// Read the configured timeout from the content of its file.
pub fn read_autostop_timeout(content: Option<&str>) -> (r: u64)
    ensures
        r == timeout_in(content.deep_view()),
{
    match content {
        Some(c) => match parse_number(&trim(c), u64::MAX) {
            Some(n) => n,
            None => 300,
        },
        None => 300,
    }
}

/// The time of a stop `timeout` seconds from `now`.
pub open spec fn stop_time(now: Option<u64>, timeout: u64) -> nat {
    match now {
        Some(n) => (n + timeout) as nat,
        None => 0,
    }
}

/// Mark that the cell is to stop `timeout` seconds from now.
pub fn mark_autostop(rt: &str, now: Option<u64>, timeout: u64) -> (r: FileStep)
    requires
        now matches Some(n) ==> n + timeout <= u64::MAX,
    ensures
        r.deep_view() == (FileStepView::Write {
            path: joined_path(rt@, "autostop.at"@),
            text: decimal(stop_time(now, timeout)),
        }),
{
    let at: u64 = match now {
        Some(n) => n + timeout,
        None => 0,
    };
    FileStep::Write { path: autostop_at_file(rt), text: decimal_text(at) }
}

/// Clear a pending stop.
pub fn clear_autostop(rt: &str) -> (r: FileStep)
    ensures
        r.deep_view() == FileStepView::Remove(joined_path(rt@, "autostop.at"@)),
{
    FileStep::Remove(autostop_at_file(rt))
}

/// The seconds from `now` to the stop, where a file gives its time.
pub open spec fn remaining_in(content: Option<Seq<char>>, now: Option<u64>) -> Option<u64> {
    match content {
        None => None,
        Some(c) => match (number_of(trimmed(c), u64::MAX as nat), now) {
            (Some(at), Some(n)) => if at > n {
                Some((at - n) as u64)
            } else {
                Some(0)
            },
            _ => None,
        },
    }
}

/// Returns seconds remaining until the stop, from the content of the file with
/// its time.
pub fn autostop_remaining(content: Option<&str>, now: Option<u64>) -> (r: Option<u64>)
    ensures
        r == remaining_in(content.deep_view(), now),
{
    match content {
        None => None,
        Some(c) => match (parse_number(&trim(c), u64::MAX), now) {
            (Some(at), Some(n)) => if at > n {
                Some(at - n)
            } else {
                Some(0)
            },
            _ => None,
        },
    }
}

/// A stop that was marked is found with the seconds that are left of it.
pub proof fn law_marked_stop_counts_down(now: u64, timeout: u64, later: u64)
    requires
        now + timeout <= u64::MAX,
        now <= later,
    ensures
        remaining_in(Some(decimal(stop_time(Some(now), timeout))), Some(later)) == (if later - now
            < timeout {
            Some((timeout - (later - now)) as u64)
        } else {
            Some(0u64)
        }),
{
    let at = stop_time(Some(now), timeout);
    let s = decimal(at);
    crate::text::number::lemma_decimal_value(at);
    crate::text::number::law_decimal_reads_back(at, u64::MAX as nat);
    assert(crate::text::number::is_digit(s[0]));
    assert(crate::text::number::is_digit(s[s.len() - 1]));
    assert(crate::text::basic::trimmed_start(s) == s);
    assert(trimmed(s) == s);
}

/// What a sweep does to a cell.
#[derive(Clone, Copy, Debug, PartialEq, Eq, Structural)]
pub enum SweepAction {
    /// Its stop is set, so many seconds from now.
    Scheduled(u64),
    /// Its stop comes in so many seconds.
    Waiting(u64),
    /// It is stopped.
    Stopped,
    /// Its stop is taken back.
    Cancelled,
}

/// What a sweep sees of a cell.
pub struct SweptCell {
    pub name: String,
    pub running: bool,
    /// How many sessions it has, where they could be counted.
    pub sessions: Option<usize>,
    /// The content of the file with its timeout.
    pub timeout: Option<String>,
    /// The content of the file with the time of its stop.
    pub stop_at: Option<String>,
    pub now: Option<u64>,
}

/// What a sweep does to a cell. A cell whose sessions cannot be counted is
/// taken to have one.
pub open spec fn swept(c: SweptCell) -> Option<SweepAction> {
    let left = remaining_in(c.stop_at.deep_view(), c.now);
    if !c.running {
        None
    } else if c.sessions != Some(0usize) {
        if left is Some {
            Some(SweepAction::Cancelled)
        } else {
            None
        }
    } else {
        match left {
            None => Some(SweepAction::Scheduled(timeout_in(c.timeout.deep_view()) as u64)),
            Some(0) => Some(SweepAction::Stopped),
            Some(n) => Some(SweepAction::Waiting(n)),
        }
    }
}

/// What a sweep does to the cells it does something to.
pub open spec fn sweep_of(cells: Seq<SweptCell>) -> Seq<(Seq<char>, SweepAction)>
    decreases cells.len(),
{
    if cells.len() == 0 {
        Seq::<(Seq<char>, SweepAction)>::empty()
    } else {
        let front = sweep_of(cells.drop_last());
        match swept(cells.last()) {
            Some(a) => front.push((cells.last().name@, a)),
            None => front,
        }
    }
}

fn as_text(content: &Option<String>) -> (r: Option<&str>)
    ensures
        r.deep_view() == content.deep_view(),
{
    match content {
        Some(c) => Some(c.as_str()),
        None => None,
    }
}

/// What a sweep does to one cell.
pub fn sweep_cell(c: &SweptCell) -> (r: Option<SweepAction>)
    ensures
        r == swept(*c),
{
    if !c.running {
        return None;
    }
    let left = autostop_remaining(as_text(&c.stop_at), c.now);
    let idle = match c.sessions {
        Some(n) => n == 0,
        None => false,
    };
    if !idle {
        if left.is_some() {
            return Some(SweepAction::Cancelled);
        }
        return None;
    }
    match left {
        None => Some(SweepAction::Scheduled(read_autostop_timeout(as_text(&c.timeout)))),
        Some(n) => if n == 0 {
            Some(SweepAction::Stopped)
        } else {
            Some(SweepAction::Waiting(n))
        },
    }
}

impl DeepView for SweepAction {
    type V = SweepAction;

    open spec fn deep_view(&self) -> SweepAction {
        *self
    }
}

/// Sweep all cells: schedule or execute their stop as needed.
pub fn sweep(cells: &Vec<SweptCell>) -> (r: Vec<(String, SweepAction)>)
    ensures
        r.deep_view() == sweep_of(cells@),
{
    let mut r: Vec<(String, SweepAction)> = Vec::new();
    let mut i: usize = 0;
    assert(r.deep_view() == sweep_of(cells@.take(0)));
    while i < cells.len()
        invariant
            i <= cells.len(),
            r.deep_view() == sweep_of(cells@.take(i as int)),
        decreases cells.len() - i,
    {
        assert(cells@.take(i + 1).drop_last() == cells@.take(i as int));
        let ghost before = r.deep_view();
        if let Some(a) = sweep_cell(&cells[i]) {
            r.push((cells[i].name.clone(), a));
            assert(r.deep_view() == before.push((cells[i as int].name@, a)));
        }
        i += 1;
    }
    assert(cells@.take(cells@.len() as int) == cells@);
    r
}

/// A cell is stopped only if it runs, has no session and its time has come;
/// one with a session, or whose sessions cannot be counted, is never stopped,
/// and loses the stop that was set.
pub proof fn law_sweep_spares_sessions(c: SweptCell)
    ensures
        swept(c) == Some(SweepAction::Stopped) <==> c.running && c.sessions == Some(0usize)
            && remaining_in(c.stop_at.deep_view(), c.now) == Some(0u64),
        c.sessions != Some(0usize) ==> swept(c) is None || swept(c) == Some(SweepAction::Cancelled),
        swept(c) matches Some(SweepAction::Scheduled(_)) ==> remaining_in(
            c.stop_at.deep_view(),
            c.now,
        ) is None,
{
}

// Lifecycle

/// The unit of the machine of a cell.
pub open spec fn unit_of(name: Seq<char>) -> Seq<char> {
    "microvm@"@ + name
}

fn unit(name: &str) -> (r: String)
    ensures
        r@ == unit_of(name@),
{
    let mut r = "microvm@".to_string();
    r.append(name);
    r
}

/// The command that says whether the machine of a cell is active.
pub fn active_line(name: &str) -> (r: Vec<String>)
    ensures
        r.deep_view() == seq!["systemctl"@, "is-active"@, unit_of(name@)],
{
    let mut r = command("systemctl");
    arg(&mut r, "is-active");
    arg(&mut r, &unit(name));
    r
}

/// Whether a cell runs: it has an address on file and its machine is active.
pub fn is_running(has_ip: bool, active: bool) -> (r: bool)
    ensures
        r == (has_ip && active),
{
    has_ip && active
}

/// A command line that is run as root: as it is by root, and else by `sudo`.
pub open spec fn privileged(root: bool, line: Seq<Seq<char>>) -> Seq<Seq<char>> {
    if root {
        line
    } else {
        seq!["sudo"@] + line
    }
}

/// Whether a user is root.
pub fn is_root(user: Option<&str>) -> (r: bool)
    ensures
        r == (user matches Some(u) && u@ == "root"@),
{
    match user {
        Some(u) => same(u, "root"),
        None => false,
    }
}

/// The command line `line`, run as root.
pub fn run_privileged(root: bool, line: Vec<String>) -> (r: Vec<String>)
    ensures
        r.deep_view() == privileged(root, line.deep_view()),
{
    if root {
        line
    } else {
        let mut r = command("sudo");
        let ghost all = line.deep_view();
        let mut i: usize = 0;
        assert(r.deep_view() == seq!["sudo"@] + all.take(0));
        while i < line.len()
            invariant
                i <= line.len(),
                all == line.deep_view(),
                r.deep_view() == seq!["sudo"@] + all.take(i as int),
            decreases line.len() - i,
        {
            arg(&mut r, &line[i]);
            i += 1;
            assert(r.deep_view() == seq!["sudo"@] + all.take(i as int));
        }
        assert(all.take(all.len() as int) == all);
        r
    }
}

/// What `nix` is asked to build for a cell.
pub open spec fn runner_attr(name: Seq<char>) -> Seq<char> {
    "path:"@ + joined_path(dir_of(name), "flake"@) + "#nixosConfigurations."@ + name
        + ".config.microvm.declaredRunner"@
}

/// The command that builds the machine of a cell.
pub open spec fn build_words(name: Seq<char>) -> Seq<Seq<char>> {
    seq![
        "nix"@,
        "--extra-experimental-features"@,
        "nix-command flakes"@,
        "build"@,
        runner_attr(name),
        "--no-link"@,
        "--print-out-paths"@,
    ]
}

/// The command that builds the machine of a cell.
pub fn build_line(name: &str) -> (r: Vec<String>)
    ensures
        r.deep_view() == build_words(name@),
{
    let mut attr = "path:".to_string();
    attr.append(&cell_flake_dir(name));
    attr.append("#nixosConfigurations.");
    attr.append(name);
    attr.append(".config.microvm.declaredRunner");
    let mut r = command("nix");
    arg(&mut r, "--extra-experimental-features");
    arg(&mut r, "nix-command flakes");
    arg(&mut r, "build");
    arg(&mut r, &attr);
    arg(&mut r, "--no-link");
    arg(&mut r, "--print-out-paths");
    r
}

/// The directory that the machine of a cell is started from.
pub open spec fn machine_dir(name: Seq<char>) -> Seq<char> {
    "/var/lib/microvms/"@ + name
}

/// The commands that make the machine at `runner` the one of the cell, and
/// whether the start ends where one cannot be run.
pub open spec fn link_lines(name: Seq<char>, runner: Seq<char>) -> Seq<(Seq<Seq<char>>, bool)> {
    let dir = machine_dir(name);
    let link = dir + "/current"@;
    seq![
        (seq!["mkdir"@, "-p"@, dir], true),
        (seq!["chown"@, "microvm:kvm"@, dir], true),
        (seq!["rm"@, "-f"@, link], false),
        (seq!["ln"@, "-sf"@, runner, link], true),
        (seq!["chown"@, "-h"@, "microvm:kvm"@, link], true),
    ]
}

fn line3(a: &str, b: &str, c: &str) -> (r: Vec<String>)
    ensures
        r.deep_view() == seq![a@, b@, c@],
{
    let mut r = command(a);
    arg(&mut r, b);
    arg(&mut r, c);
    r
}

fn line4(a: &str, b: &str, c: &str, d: &str) -> (r: Vec<String>)
    ensures
        r.deep_view() == seq![a@, b@, c@, d@],
{
    let mut r = command(a);
    arg(&mut r, b);
    arg(&mut r, c);
    arg(&mut r, d);
    r
}

/// The commands that make the machine at `runner` the one of the cell, in
/// their order, and whether the start ends where one cannot be run.
fn links(name: &str, runner: &str) -> (r: Vec<(Vec<String>, bool)>)
    ensures
        r.deep_view() == link_lines(name@, runner@),
{
    let mut dir = "/var/lib/microvms/".to_string();
    dir.append(name);
    let mut link = dir.clone();
    link.append("/current");
    let r = vec![
        (line3("mkdir", "-p", &dir), true),
        (line3("chown", "microvm:kvm", &dir), true),
        (line3("rm", "-f", &link), false),
        (line4("ln", "-sf", runner, &link), true),
        (line4("chown", "-h", "microvm:kvm", &link), true),
    ];
    assert(r.deep_view() =~= link_lines(name@, runner@));
    r
}

/// The user inside a cell: the one that the configuration of the host names,
/// or else the one that started it.
pub open spec fn guest_of(config: Option<Tree>, user: Option<Seq<char>>) -> Seq<char> {
    let named = match config {
        Some(c) => host_user(c),
        None => None,
    };
    match named {
        Some(n) => n,
        None => match user {
            Some(u) => u,
            None => Seq::<char>::empty(),
        },
    }
}

/// What can be read of the configuration of the host.
pub open spec fn readable(host_config: Option<Seq<char>>) -> Option<Tree> {
    match host_config {
        Some(t) => match json_read(t) {
            Ok(c) => Some(c),
            Err(_) => None,
        },
        None => None,
    }
}

/// The user inside a cell, from the text of the configuration of the host and
/// the user that started it.
pub fn guest_user(host_config: Option<&str>, user: Option<&str>) -> (r: String)
    ensures
        r@ == guest_of(readable(host_config.deep_view()), user.deep_view()),
{
    let named = match host_config {
        Some(t) => read_host_config_user(t),
        None => None,
    };
    match named {
        Some(n) => n,
        None => match user {
            Some(u) => u.to_string(),
            None => String::new(),
        },
    }
}

/// What is kept of a cell that was started.
pub open spec fn state_steps(
    rt: Seq<char>,
    ip: Seq<char>,
    repo: Seq<char>,
    guest: Seq<char>,
) -> Seq<FileStepView> {
    let always = seq![
        FileStepView::Write { path: joined_path(rt, "ip"@), text: ip },
        FileStepView::Write { path: joined_path(rt, "repo"@), text: repo },
    ];
    if guest.len() > 0 {
        always.push(FileStepView::Write { path: joined_path(rt, "user"@), text: guest })
    } else {
        always
    }
}

/// What is kept in the runtime directory `rt` of a cell that was started.
pub fn save_started(rt: &str, ip: &str, repo: &str, guest: &str) -> (r: Vec<FileStep>)
    ensures
        r.deep_view() == state_steps(rt@, ip@, repo@, guest@),
{
    let mut r = vec![
        FileStep::Write { path: join(rt, "ip"), text: ip.to_string() },
        FileStep::Write { path: join(rt, "repo"), text: repo.to_string() },
    ];
    assert(r.deep_view() =~= seq![
        FileStepView::Write { path: joined_path(rt@, "ip"@), text: ip@ },
        FileStepView::Write { path: joined_path(rt@, "repo"@), text: repo@ },
    ]);
    if !guest.is_empty() {
        let ghost before = r.deep_view();
        let step = FileStep::Write { path: join(rt, "user"), text: guest.to_string() };
        r.push(step);
        assert(r.deep_view() == before.push(step.deep_view()));
    }
    r
}

// The start

/// What a start is about.
pub struct StartScene {
    /// The cell.
    pub name: String,
    /// Its runtime directory.
    pub rt: String,
    /// Its repository.
    pub repo: String,
    /// The seconds from its last session to its stop.
    pub timeout: u64,
    /// The hosts that the proxy is told of.
    pub domains: Vec<String>,
    /// The text of the configuration of the host, where there is one.
    pub host_config: Option<String>,
    /// The user that starts the cell.
    pub user: Option<String>,
}

/// What is done first, in this order. The cell gets its address after the
/// first step, and its flake is written before the machine is built.
pub struct StartPlan {
    /// Make the runtime directory.
    pub make_dir: FileStep,
    /// Keep the timeout for the sweep; it is no error where that fails.
    pub timeout: FileStep,
    /// Build the machine.
    pub build: Vec<String>,
}

/// What is done first to start a cell.
pub fn start_plan(scene: &StartScene) -> (r: StartPlan)
    ensures
        r.make_dir.deep_view() == FileStepView::MakeDir(scene.rt@),
        r.timeout.deep_view() == (FileStepView::Write {
            path: joined_path(scene.rt@, "autostop.timeout"@),
            text: decimal(scene.timeout as nat),
        }),
        r.build.deep_view() == build_words(scene.name@),
{
    StartPlan {
        make_dir: FileStep::MakeDir(scene.rt.clone()),
        timeout: write_autostop_timeout(&scene.rt, scene.timeout),
        build: build_line(&scene.name),
    }
}

/// What has come to pass during a start.
pub enum StartEvent {
    /// The machine was built.
    Built { success: bool, stdout: String, stderr: String },
    /// The machine was booted.
    Booted { success: bool },
}

/// What is to be done next during a start.
pub enum StartAction {
    /// Run the commands as root, then boot the machine. With each command
    /// stands whether the start ends where it cannot be run.
    Boot { links: Vec<(Vec<String>, bool)>, boot: Vec<String> },
    /// Tell the proxy of the cell, enter its host name for its address, and
    /// keep what is known of it. Nothing follows.
    Register { proxy: Vec<String>, hostname: String, save: Vec<FileStep> },
    /// Give the address back and fail. Nothing follows.
    Fail { message: String },
}

/// What is to be done next during a start.
pub enum StartActionView {
    Boot { links: Seq<(Seq<Seq<char>>, bool)>, boot: Seq<Seq<char>> },
    Register { proxy: Seq<Seq<char>>, hostname: Seq<char>, save: Seq<FileStepView> },
    Fail { message: Seq<char> },
}

impl View for StartAction {
    type V = StartActionView;

    open spec fn view(&self) -> StartActionView {
        match self {
            StartAction::Boot { links, boot } => StartActionView::Boot {
                links: links.deep_view(),
                boot: boot.deep_view(),
            },
            StartAction::Register { proxy, hostname, save } => StartActionView::Register {
                proxy: proxy.deep_view(),
                hostname: hostname@,
                save: save.deep_view(),
            },
            StartAction::Fail { message } => StartActionView::Fail { message: message@ },
        }
    }
}

/// What is to be done during the start of a cell at the address `ip` after the
/// event.
pub open spec fn start_next(scene: StartScene, ip: Seq<char>, e: StartEvent) -> StartActionView {
    let name = scene.name@;
    match e {
        StartEvent::Built { success, stdout, stderr } => if success {
            StartActionView::Boot {
                links: link_lines(name, trimmed(stdout@)),
                boot: seq!["systemctl"@, "start"@, unit_of(name)],
            }
        } else {
            StartActionView::Fail {
                message: "failed to build cell VM '"@ + name + "': "@ + stderr@,
            }
        },
        StartEvent::Booted { success } => if success {
            StartActionView::Register {
                proxy: post_line(
                    printed(proxy_tree(ip, name, scene.domains.deep_view())),
                    "http://127.0.0.1:8082/cells"@,
                ),
                hostname: hostname_of(name, scene.repo@),
                save: state_steps(
                    scene.rt@,
                    ip,
                    scene.repo@,
                    guest_of(readable(scene.host_config.deep_view()), scene.user.deep_view()),
                ),
            }
        } else {
            StartActionView::Fail { message: "failed to start VM for cell '"@ + name + "'"@ }
        },
    }
}

/// What is to be done during the start of a cell at the address `ip` after the
/// event. The start begins with `start_plan`.
pub fn start(scene: &StartScene, ip: &str, event: StartEvent) -> (r: StartAction)
    ensures
        r@ == start_next(*scene, ip@, event),
{
    match event {
        StartEvent::Built { success, stdout, stderr } => if success {
            StartAction::Boot {
                links: links(&scene.name, &trim(&stdout)),
                boot: line3("systemctl", "start", &unit(&scene.name)),
            }
        } else {
            let mut message = "failed to build cell VM '".to_string();
            message.append(&scene.name);
            message.append("': ");
            message.append(&stderr);
            StartAction::Fail { message }
        },
        StartEvent::Booted { success } => if success {
            let guest = guest_user(as_text(&scene.host_config), as_text(&scene.user));
            StartAction::Register {
                proxy: register_proxy_rules(ip, &scene.name, &scene.domains),
                hostname: dns_hostname(&scene.name, &scene.repo),
                save: save_started(&scene.rt, ip, &scene.repo, &guest),
            }
        } else {
            let mut message = "failed to start VM for cell '".to_string();
            message.append(&scene.name);
            message.append("'");
            StartAction::Fail { message }
        },
    }
}

/// A cell is registered and its address is put on file only when its machine
/// has been booted; a machine that cannot be built or booted costs the cell
/// its address.
pub proof fn law_registered_after_boot(scene: StartScene, ip: Seq<char>, e: StartEvent)
    ensures
        start_next(scene, ip, e) is Register <==> e matches StartEvent::Booted { success: true },
        start_next(scene, ip, e) is Boot <==> (e matches StartEvent::Built { success: true, .. }),
        start_next(scene, ip, e) matches StartActionView::Register { save, .. } ==> save[0] == (
        FileStepView::Write { path: joined_path(scene.rt@, "ip"@), text: ip }),
{
}

/// What is done to stop a cell, in this order.
pub struct StopPlan {
    /// Take its rules from the proxy.
    pub deregister: Option<Vec<String>>,
    /// Take this name from the file of host names.
    pub hostname: Option<String>,
    /// Stop its machine, as root.
    pub stop: Vec<String>,
    /// Remove the file with its address.
    pub forget: FileStep,
}

/// The command that takes the rules of the cell at `ip` from the proxy.
pub open spec fn deregister_line(ip: Seq<char>) -> Seq<Seq<char>> {
    seq!["curl"@, "-sf"@, "-X"@, "DELETE"@, "http://127.0.0.1:8082/cells/"@ + ip]
}

/// The command that takes the rules of the cell at `ip` from the proxy.
pub fn deregister_proxy_rules(ip: &str) -> (r: Vec<String>)
    ensures
        r.deep_view() == deregister_line(ip@),
{
    let mut url = "http://127.0.0.1:8082/cells/".to_string();
    url.append(ip);
    let mut r = command("curl");
    arg(&mut r, "-sf");
    arg(&mut r, "-X");
    arg(&mut r, "DELETE");
    arg(&mut r, &url);
    r
}

/// What is trimmed of a file, which is empty where the file is missing.
pub open spec fn content_of(content: Option<Seq<char>>) -> Seq<char> {
    match content {
        Some(c) => trimmed(c),
        None => Seq::<char>::empty(),
    }
}

fn trimmed_content(content: Option<&str>) -> (r: String)
    ensures
        r@ == content_of(content.deep_view()),
{
    match content {
        Some(c) => trim(c),
        None => String::new(),
    }
}

/// What is done to stop the cell `name`, from its runtime directory `rt` and
/// the contents of its files. Nothing is done where it has no address on file.
pub fn stop(
    name: &str,
    rt: &str,
    has_ip: bool,
    ip: Option<&str>,
    repo: Option<&str>,
) -> (r: Option<StopPlan>)
    ensures
        r is Some <==> has_ip,
        r matches Some(p) ==> {
            let address = content_of(ip.deep_view());
            let repository = content_of(repo.deep_view());
            &&& p.deregister.deep_view() == (if address.len() > 0 {
                Some(deregister_line(address))
            } else {
                None
            })
            &&& p.hostname.deep_view() == (if repository.len() > 0 {
                Some(hostname_of(name@, repository))
            } else {
                None
            })
            &&& p.stop.deep_view() == seq!["systemctl"@, "stop"@, unit_of(name@)]
            &&& p.forget.deep_view() == FileStepView::Remove(joined_path(rt@, "ip"@))
        },
{
    if !has_ip {
        return None;
    }
    let address = trimmed_content(ip);
    let repository = trimmed_content(repo);
    Some(
        StopPlan {
            deregister: if address.as_str().is_empty() {
                None
            } else {
                Some(deregister_proxy_rules(&address))
            },
            hostname: if repository.as_str().is_empty() {
                None
            } else {
                Some(dns_hostname(name, &repository))
            },
            stop: line3("systemctl", "stop", &unit(name)),
            forget: FileStep::Remove(join(rt, "ip")),
        },
    )
}

/// What is done to delete a cell, in this order; its address is given back
/// before the runtime directory goes.
pub struct DeletePlan {
    /// Stop it.
    pub stop_first: bool,
    /// Remove its directory; where that fails nothing more is done.
    pub remove: Option<Vec<String>>,
    /// The error where it cannot be removed.
    pub failure: String,
}

/// What is done to delete the cell `name`; `running` and `exists` say whether
/// it runs and whether its directory is there.
pub fn delete(name: &str, running: bool, exists: bool) -> (r: DeletePlan)
    ensures
        r.stop_first == running,
        r.remove.deep_view() == (if exists {
            Some(seq!["sudo"@, "rm"@, "-rf"@, dir_of(name@)])
        } else {
            None
        }),
        r.failure@ == "failed to remove cell dir at "@ + dir_of(name@),
{
    let dir = cell_dir(name);
    let mut failure = "failed to remove cell dir at ".to_string();
    failure.append(&dir);
    DeletePlan {
        stop_first: running,
        remove: if exists {
            Some(line4("sudo", "rm", "-rf", &dir))
        } else {
            None
        },
        failure,
    }
}

// The proxy

/// What the proxy is told of a cell.
pub open spec fn proxy_tree(ip: Seq<char>, branch: Seq<char>, domains: Seq<Seq<char>>) -> Tree {
    Tree::Object(
        seq![
            ("cellIp"@, Tree::Text(ip)),
            ("branchId"@, Tree::Text(branch)),
            ("nucleusAllowedDomains"@, texts_tree(domains)),
        ],
    )
}

/// The command that tells the proxy of the cell `branch` at `ip`.
pub fn register_proxy_rules(ip: &str, branch: &str, domains: &Vec<String>) -> (r: Vec<String>)
    ensures
        r.deep_view() == post_line(
            printed(proxy_tree(ip@, branch@, domains.deep_view())),
            "http://127.0.0.1:8082/cells"@,
        ),
{
    let mut m: Vec<(String, Json)> = Vec::new();
    assert(members_of(m@) == Seq::<(Seq<char>, Tree)>::empty());
    add_member(&mut m, "cellIp", text(ip));
    add_member(&mut m, "branchId", text(branch));
    add_member(&mut m, "nucleusAllowedDomains", texts(domains));
    assert(members_of(m@) == proxy_tree(ip@, branch@, domains.deep_view())->Object_0);
    post(&render(&object(m)), "http://127.0.0.1:8082/cells")
}

/// The command that has the host names read again.
pub fn reload_dns() -> (r: Vec<String>)
    ensures
        r.deep_view() == seq!["sudo"@, "systemctl"@, "reload"@, "dnsmasq"@],
{
    line4("sudo", "systemctl", "reload", "dnsmasq")
}

/// A session is read from the line that tells of it: its name, whether
/// somebody is in it, its windows and its time.
pub proof fn law_session_read(
    name: Seq<char>,
    attached: Seq<char>,
    windows: usize,
    created: Seq<char>,
)
    requires
        !name.contains('|') && !attached.contains('|') && !created.contains('|'),
    ensures
        session_in(
            name + seq!['|'] + attached + seq!['|'] + decimal(windows as nat) + seq!['|'] + created,
        ) == Some(
            SessionView { name, attached: attached == seq!['1'], windows, created },
        ),
        session_in(name + seq!['|'] + attached + seq!['|'] + created) is None,
{
    let n = decimal(windows as nat);
    let bar = seq!['|'];
    reveal_strlit("1");
    assert("1"@ == seq!['1']);
    crate::text::number::law_decimal_reads_back(windows as nat, usize::MAX as nat);
    crate::text::number::lemma_decimal_value(windows as nat);
    let four = seq![name, attached, n, created];
    let three = seq![name, attached, created];
    assert forall|i: int, j: int|
        0 <= i < four.len() && 0 <= j < four[i].len() implies #[trigger] four[i][j] != '|' by {
        if i == 2 {
            assert(crate::text::number::is_digit(n[j]));
        } else {
            assert(four[i].contains(four[i][j]));
        }
    }
    assert forall|i: int, j: int|
        0 <= i < three.len() && 0 <= j < three[i].len() implies #[trigger] three[i][j] != '|' by {
        assert(three[i].contains(three[i][j]));
    }
    crate::text::split::law_joined_texts_part(four, Sep::Char('|'), '|');
    crate::text::split::law_joined_texts_part(three, Sep::Char('|'), '|');
    let two = seq![name, attached];
    assert(two.drop_last() == seq![name]);
    assert(three.drop_last() == two);
    assert(four.drop_last() == seq![name, attached, n]);
    assert(seq![name, attached, n].drop_last() == two);
    assert(joined(seq![name], bar) == name);
    assert(joined(two, bar) == name + bar + attached);
    assert(joined(three, bar) == name + bar + attached + bar + created);
    assert(joined(seq![name, attached, n], bar) == name + bar + attached + bar + n);
}

/// Every line that tells of a session gives it, and no session is listed that
/// no line tells of.
pub proof fn law_sessions_of_all_lines(list: Seq<Seq<char>>, s: SessionView)
    ensures
        sessions_in(list).contains(s) <==> exists|i: int|
            0 <= i < list.len() && list[i].len() > 0 && #[trigger] session_in(list[i]) == Some(s),
    decreases list.len(),
{
    if list.len() > 0 {
        let short = list.drop_last();
        let front = sessions_in(short);
        let all = sessions_in(list);
        law_sessions_of_all_lines(short, s);
        if all.contains(s) {
            let k = all.index_of(s);
            if k < front.len() {
                assert(front[k] == s);
                assert(front.contains(s));
                let i = choose|i: int|
                    0 <= i < short.len() && short[i].len() > 0 && #[trigger] session_in(short[i])
                        == Some(s);
                assert(session_in(list[i]) == Some(s));
            } else {
                assert(session_in(list[list.len() - 1]) == Some(s));
            }
        }
        if exists|i: int|
            0 <= i < list.len() && list[i].len() > 0 && #[trigger] session_in(list[i]) == Some(s) {
            let i = choose|i: int|
                0 <= i < list.len() && list[i].len() > 0 && #[trigger] session_in(list[i]) == Some(
                    s,
                );
            if i < short.len() {
                assert(session_in(short[i]) == Some(s));
                let k = front.index_of(s);
                assert(all[k] == s);
            } else {
                assert(all[all.len() - 1] == s);
            }
        }
    }
}

/// A timeout that was written is read back; without a file, or with one that
/// holds no number, it is five minutes.
pub proof fn law_timeout_reads_back(timeout: u64, content: Seq<char>)
    ensures
        timeout_in(Some(decimal(timeout as nat))) == timeout,
        timeout_in(None) == 5 * 60,
        number_of(trimmed(content), u64::MAX as nat) is None ==> timeout_in(Some(content)) == 5
            * 60,
{
    let s = decimal(timeout as nat);
    crate::text::number::lemma_decimal_value(timeout as nat);
    crate::text::number::law_decimal_reads_back(timeout as nat, u64::MAX as nat);
    assert(crate::text::number::is_digit(s[0]));
    assert(crate::text::number::is_digit(s[s.len() - 1]));
    crate::text::basic::lemma_trimmed_stays(s);
}

/// A sweep leaves a cell alone that does not run. Of one that runs it takes a
/// stop back where there are sessions; without sessions it sets one by the
/// cell's timeout where there is none, and else says how long it is off.
pub proof fn law_sweep_decides(c: SweptCell)
    ensures
        ({
            let left = remaining_in(c.stop_at.deep_view(), c.now);
            &&& !c.running ==> swept(c) is None
            &&& swept(c) == Some(SweepAction::Cancelled) <==> c.running && c.sessions
                != Some(0usize) && left is Some
            &&& c.running && c.sessions == Some(0usize) && left is None && c.timeout is None
                ==> swept(c) == Some(SweepAction::Scheduled(300))
            &&& c.running && c.sessions == Some(0usize) && left is Some && left->0 > 0 ==> swept(c)
                == Some(SweepAction::Waiting(left->0))
            &&& forall|t: u64|
                c.running && c.sessions == Some(0usize) && left is None && c.timeout.deep_view()
                    == Some(#[trigger] decimal(t as nat)) ==> swept(c) == Some(
                    SweepAction::Scheduled(t),
                )
        }),
{
    assert forall|t: u64|
        c.running && c.sessions == Some(0usize) && remaining_in(c.stop_at.deep_view(), c.now)
            is None && c.timeout.deep_view() == Some(#[trigger] decimal(t as nat)) implies swept(c)
        == Some(SweepAction::Scheduled(t)) by {
        law_timeout_reads_back(t, Seq::<char>::empty());
    }
}

/// A sweep tells of every cell that it does something to, under its name, and
/// of no other.
pub proof fn law_sweep_tells_of_all(cells: Seq<SweptCell>, name: Seq<char>, a: SweepAction)
    ensures
        sweep_of(cells).contains((name, a)) <==> exists|i: int|
            0 <= i < cells.len() && cells[i].name@ == name && #[trigger] swept(cells[i]) == Some(a),
    decreases cells.len(),
{
    if cells.len() > 0 {
        let short = cells.drop_last();
        let front = sweep_of(short);
        let all = sweep_of(cells);
        law_sweep_tells_of_all(short, name, a);
        if all.contains((name, a)) {
            let k = all.index_of((name, a));
            if k < front.len() {
                assert(front[k] == (name, a));
                assert(front.contains((name, a)));
                let i = choose|i: int|
                    0 <= i < short.len() && short[i].name@ == name && #[trigger] swept(short[i])
                        == Some(a);
                assert(swept(cells[i]) == Some(a));
            } else {
                assert(swept(cells[cells.len() - 1]) == Some(a));
            }
        }
        if exists|i: int|
            0 <= i < cells.len() && cells[i].name@ == name && #[trigger] swept(cells[i]) == Some(a) {
            let i = choose|i: int|
                0 <= i < cells.len() && cells[i].name@ == name && #[trigger] swept(cells[i])
                    == Some(a);
            if i < short.len() {
                assert(swept(short[i]) == Some(a));
                let k = front.index_of((name, a));
                assert(all[k] == (name, a));
            } else {
                assert(all[all.len() - 1] == (name, a));
            }
        }
    }
}

/// A machine that was built is made the one of its cell before it is booted:
/// its link is made from what was built, and the unit of the cell is started.
pub proof fn law_built_machine_booted(scene: StartScene, ip: Seq<char>, e: StartEvent)
    requires
        e matches StartEvent::Built { success: true, .. },
    ensures
        start_next(scene, ip, e) matches StartActionView::Boot { links, boot } && {
            let dir = "/var/lib/microvms/"@ + scene.name@;
            let link = dir + "/current"@;
            &&& links.len() == 5
            &&& links[0].0 == seq!["mkdir"@, "-p"@, dir]
            &&& links[1].0 == seq!["chown"@, "microvm:kvm"@, dir]
            &&& links[2].0 == seq!["rm"@, "-f"@, link]
            &&& links[3].0 == seq!["ln"@, "-sf"@, trimmed(e->Built_stdout@), link]
            &&& links[4].0 == seq!["chown"@, "-h"@, "microvm:kvm"@, link]
            &&& forall|i: int| 0 <= i < 5 ==> ((#[trigger] links[i]).1 <==> i != 2)
            &&& boot == seq!["systemctl"@, "start"@, "microvm@"@ + scene.name@]
        },
{
}

/// A cell whose machine runs is registered by its own name and address, and
/// what is kept of it is what it was started with.
pub proof fn law_started_cell_kept(scene: StartScene, ip: Seq<char>)
    ensures
        start_next(scene, ip, StartEvent::Booted { success: true }) matches StartActionView::Register {
            hostname,
            save,
            ..
        } && {
            let guest = guest_of(readable(scene.host_config.deep_view()), scene.user.deep_view());
            &&& hostname == hostname_of(scene.name@, scene.repo@)
            &&& save.len() == (if guest.len() > 0 { 3int } else { 2 })
            &&& save[0] == (FileStepView::Write { path: joined_path(scene.rt@, "ip"@), text: ip })
            &&& save[1] == (FileStepView::Write {
                path: joined_path(scene.rt@, "repo"@),
                text: scene.repo@,
            })
            &&& guest.len() > 0 ==> save[2] == (FileStepView::Write {
                path: joined_path(scene.rt@, "user"@),
                text: guest,
            })
        },
        start_next(scene, ip, StartEvent::Booted { success: false }) == (StartActionView::Fail {
            message: "failed to start VM for cell '"@ + scene.name@ + "'"@,
        }),
{
}

/// The proxy is told of a cell by its address, its name and the hosts that it
/// may reach.
pub proof fn law_proxy_told_of_cell(
    scene: StartScene,
    ip: Seq<char>,
    branch: Seq<char>,
    domains: Seq<Seq<char>>,
)
    ensures
        under(proxy_tree(ip, branch, domains), "cellIp"@) == Tree::Text(ip),
        under(proxy_tree(ip, branch, domains), "branchId"@) == Tree::Text(branch),
        under(proxy_tree(ip, branch, domains), "nucleusAllowedDomains"@) == Tree::List(
            domains.map_values(|d: Seq<char>| Tree::Text(d)),
        ),
        start_next(scene, ip, StartEvent::Booted { success: true }) matches StartActionView::Register {
            proxy,
            ..
        } && proxy == post_line(
            printed(proxy_tree(ip, scene.name@, scene.domains.deep_view())),
            "http://127.0.0.1:8082/cells"@,
        ),
        deregister_line(ip) == seq![
            "curl"@,
            "-sf"@,
            "-X"@,
            "DELETE"@,
            "http://127.0.0.1:8082/cells/"@ + ip,
        ],
{
    reveal_strlit("cellIp");
    reveal_strlit("branchId");
    reveal_strlit("nucleusAllowedDomains");
    let m = proxy_tree(ip, branch, domains)->Object_0;
    assert("cellIp"@.len() == 6 && "branchId"@.len() == 8 && "nucleusAllowedDomains"@.len() == 21);
    assert(m[0].0 == "cellIp"@ && m[1].0 == "branchId"@ && m[2].0 == "nucleusAllowedDomains"@);
    lemma_member_found(m, 0);
    lemma_member_found(m, 1);
    lemma_member_found(m, 2);
}

/// The user inside a cell is the one that the configuration of the host names;
/// where it names none, or cannot be read, the one that started the cell.
pub proof fn law_guest_named(host_config: Seq<char>, user: Seq<char>, named: Seq<char>)
    ensures
        json_read(host_config) matches Ok(t) && host_user(t) == Some(named) ==> guest_of(
            readable(Some(host_config)),
            Some(user),
        ) == named,
        json_read(host_config) matches Ok(t) && host_user(t) is None ==> guest_of(
            readable(Some(host_config)),
            Some(user),
        ) == user,
        json_read(host_config) is Err ==> guest_of(readable(Some(host_config)), Some(user)) == user,
        guest_of(readable(None), Some(user)) == user,
        guest_of(readable(None), None).len() == 0,
{
}

/// One connects as the user where one is known, and else to the address alone.
pub proof fn law_connects_as_user(ip: Seq<char>, user: Seq<char>)
    ensures
        trimmed(user).len() > 0 ==> target_of(ip, Some(user)) == trimmed(user) + "@"@ + trimmed(ip),
        trimmed(user).len() == 0 ==> target_of(ip, Some(user)) == trimmed(ip),
        target_of(ip, None) == trimmed(ip),
{
}

/// The machine that is built is the one of the cell's own flake; root runs a
/// command as it is, and anybody else by `sudo`.
pub proof fn law_own_flake_built(name: Seq<char>, line: Seq<Seq<char>>)
    ensures
        build_words(name).first() == "nix"@,
        build_words(name)[3] == "build"@,
        build_words(name)[4] == "path:"@ + joined_path(
            joined_path("/var/lib/cella/cells"@, name),
            "flake"@,
        ) + "#nixosConfigurations."@ + name + ".config.microvm.declaredRunner"@,
        build_words(name).last() == "--print-out-paths"@,
        privileged(true, line) == line,
        privileged(false, line).first() == "sudo"@,
        privileged(false, line).drop_first() == line,
{
}

/// What a file says is what it holds without white space around it, and a
/// missing file says nothing.
pub proof fn law_missing_file_says_nothing(content: Seq<char>)
    ensures
        content_of(Some(content)) == trimmed(content),
        content_of(None).len() == 0,
{
}

/// A number is read from what a command prints; what is no number counts as
/// the default: no sessions, but one window.
pub proof fn law_unread_numbers(n: nat, max: nat, default: nat, other: Seq<char>)
    requires
        n <= max,
    ensures
        number_or(decimal(n), max, default) == n,
        number_of(other, max) is None ==> number_or(other, max, default) == default,
{
    crate::text::number::law_decimal_reads_back(n, max);
}

/// A session whose windows cannot be read has one.
pub proof fn law_unread_windows(line: Seq<char>)
    requires
        parts_of(line, Sep::Char('|')).len() >= 4,
        number_of(parts_of(line, Sep::Char('|'))[2], usize::MAX as nat) is None,
    ensures
        session_in(line) is Some,
        session_in(line)->0.windows == 1,
{
}

} // verus!
