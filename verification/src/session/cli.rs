//! The commands of `cella` for cells with sessions.

use crate::command::{arg, command};
use crate::names::NameMap;
use crate::session::server::{
    list, lists, resolve, resolved_server, target_in, write_active, written_server, ActiveServer,
    ServerEntry, ServerError, ServerView,
};
use crate::session::vm::{number_or, windows_of, SessionInfo, SessionView, SweepAction};
use crate::text::basic::same;
use crate::text::number::{decimal, decimal_text};
use crate::text::split::{drop_empty, lines, lines_of, nonempty, parts_of, split, Sep};
use vstd::prelude::*;

verus! {

// Servers

/// What is done to use another server.
pub struct Switch {
    pub server: ActiveServer,
    /// What the file with the server in use is to hold.
    pub active: String,
    /// The address that `git` pushes to from then on.
    pub url: String,
    /// Whom to connect to, for another host.
    pub target: Option<String>,
}

/// The address that `git` pushes to.
pub open spec fn push_url(target: Option<Seq<char>>) -> Seq<char> {
    match target {
        Some(t) => "cella://"@ + t,
        None => "cella://localhost"@,
    }
}

/// What is done to use the server called `name`.
pub fn cmd_server_use(name: &str, registry: &NameMap<ServerEntry>) -> (r: Result<
    Switch,
    ServerError,
>)
    ensures
        match resolved_server(name@, registry.deep_view()) {
            Some(s) => r matches Ok(w) && w.server@ == s && w.active@ == written_server(s)
                && target_in(s, registry.deep_view()) == Ok::<Option<Seq<char>>, Seq<char>>(
                w.target.deep_view(),
            ) && w.url@ == push_url(w.target.deep_view()),
            None => r matches Err(ServerError::NotRegistered(n)) && n@ == name@,
        },
{
    let server = match resolve(registry, name) {
        Ok(s) => s,
        Err(e) => {
            return Err(e);
        },
    };
    let active = write_active(&server);
    match server.remote_url(registry) {
        Err(e) => Err(e),
        Ok(url) => match server.target(registry) {
            Err(e) => Err(e),
            Ok(target) => Ok(Switch { server, active, url, target }),
        },
    }
}

/// What is said of the server in use: its name, and whom to connect to for
/// another host that the registry has.
pub fn cmd_server_status(server: &ActiveServer, registry: &NameMap<ServerEntry>) -> (r: (
    String,
    Option<String>,
))
    ensures
        r.0@ == server_name(server@),
        r.1.deep_view() == (match target_in(server@, registry.deep_view()) {
            Ok(t) => t,
            Err(_) => None,
        }),
{
    let target = match server.target(registry) {
        Ok(t) => t,
        Err(_) => None,
    };
    (name_of(server), target)
}

/// The name of a server.
pub open spec fn server_name(server: ServerView) -> Seq<char> {
    match server {
        ServerView::Localhost => "localhost"@,
        ServerView::Remote { name } => name,
    }
}

/// The name of a server.
pub fn name_of(server: &ActiveServer) -> (r: String)
    ensures
        r@ == server_name(server@),
{
    match server {
        ActiveServer::Localhost => "localhost".to_string(),
        ActiveServer::Remote { name } => name.clone(),
    }
}

/// Whether a server is the one in use, where there is one.
pub fn in_use(server: &str, active: Option<&ActiveServer>) -> (r: bool)
    ensures
        r == (active_name(
            match active {
                Some(a) => Some(a@),
                None => None,
            },
        ) == server@),
{
    match active {
        Some(a) => same(&name_of(a), server),
        None => {
            assert(server@.len() == 0 ==> server@ == Seq::<char>::empty());
            server.is_empty()
        },
    }
}

// Stopping cells

/// One step of the end of a cell.
#[derive(Clone, Copy, Debug, PartialEq, Eq, Structural)]
pub enum KillStep {
    /// Have the server delete it.
    Delete,
    /// Have the server stop it.
    Down,
    /// Stop its machine on this host.
    Stop,
    /// Take back its stop.
    ClearAutostop,
    /// Remove its clone.
    RemoveClone,
    /// Delete its branch; it is no error where that fails.
    DeleteBranch,
    SayDeleted,
    SayKilled,
    SayNotRunning,
}

/// The steps that end a cell; `running` says whether it runs on this host.
pub open spec fn kill_steps(server: ServerView, running: bool, delete: bool) -> Seq<KillStep> {
    match (server, delete) {
        (ServerView::Remote { .. }, true) => seq![
            KillStep::Delete,
            KillStep::DeleteBranch,
            KillStep::SayDeleted,
        ],
        (ServerView::Remote { .. }, false) => seq![KillStep::Down, KillStep::SayKilled],
        (ServerView::Localhost, true) => (if running {
            seq![KillStep::Stop]
        } else {
            Seq::<KillStep>::empty()
        }) + seq![
            KillStep::ClearAutostop,
            KillStep::RemoveClone,
            KillStep::DeleteBranch,
            KillStep::SayDeleted,
        ],
        (ServerView::Localhost, false) => if running {
            seq![KillStep::ClearAutostop, KillStep::Stop, KillStep::SayKilled]
        } else {
            seq![KillStep::SayNotRunning]
        },
    }
}

/// The steps that end a cell, and delete it where `delete` says so.
pub fn cmd_kill(server: &ActiveServer, running: bool, delete: bool) -> (r: Vec<KillStep>)
    ensures
        r@ == kill_steps(server@, running, delete),
{
    let mut r: Vec<KillStep> = Vec::new();
    if server.is_server() {
        if delete {
            r.push(KillStep::Delete);
            r.push(KillStep::DeleteBranch);
            r.push(KillStep::SayDeleted);
        } else {
            r.push(KillStep::Down);
            r.push(KillStep::SayKilled);
        }
    } else if delete {
        if running {
            r.push(KillStep::Stop);
        }
        r.push(KillStep::ClearAutostop);
        r.push(KillStep::RemoveClone);
        r.push(KillStep::DeleteBranch);
        r.push(KillStep::SayDeleted);
    } else if running {
        r.push(KillStep::ClearAutostop);
        r.push(KillStep::Stop);
        r.push(KillStep::SayKilled);
    } else {
        r.push(KillStep::SayNotRunning);
    }
    assert(r@ =~= kill_steps(server@, running, delete));
    r
}

/// A machine of this host that runs is stopped before its clone goes, and a
/// clone goes only where the cell is deleted.
pub proof fn law_clone_outlives_machine(running: bool, delete: bool, i: int)
    requires
        0 <= i < kill_steps(ServerView::Localhost, running, delete).len(),
        kill_steps(ServerView::Localhost, running, delete)[i] == KillStep::RemoveClone,
    ensures
        delete,
        running ==> exists|j: int|
            0 <= j < i && #[trigger] kill_steps(ServerView::Localhost, running, delete)[j]
                == KillStep::Stop,
{
    let steps = kill_steps(ServerView::Localhost, running, delete);
    if running && delete {
        assert(steps[0] == KillStep::Stop);
    }
}

// Listing

/// A host and whom to connect to for it.
pub open spec fn listed_hosts(list: Seq<(Seq<char>, Seq<char>)>) -> Seq<
    (Seq<char>, Option<Seq<char>>),
> {
    seq![("localhost"@, None::<Seq<char>>)] + list.map_values(
        |e: (Seq<char>, Seq<char>)| (e.0, Some(e.1)),
    )
}

/// The hosts that cells are listed of and whom to connect to for them: this
/// one, and then the servers of the registry by name.
pub fn hosts_to_list(registry: &NameMap<ServerEntry>) -> (r: Vec<(String, Option<String>)>)
    ensures
        exists|l: Seq<(Seq<char>, Seq<char>)>| #[trigger]
            lists(l, registry.deep_view()) && r.deep_view() == listed_hosts(l),
{
    let servers = list(registry);
    let ghost l = servers.deep_view();
    let mut r: Vec<(String, Option<String>)> = Vec::new();
    r.push(("localhost".to_string(), None));
    assert(r.deep_view() =~= listed_hosts(l).take(1));
    let mut i: usize = 0;
    while i < servers.len()
        invariant
            i <= servers.len(),
            l == servers.deep_view(),
            r.deep_view() == listed_hosts(l).take(i + 1),
        decreases servers.len() - i,
    {
        let ghost before = r.deep_view();
        r.push((servers[i].0.clone(), Some(servers[i].1.clone())));
        assert(r.deep_view() =~= before.push((servers[i as int].0@, Some(servers[i as int].1@))));
        assert(l[i as int] == (servers[i as int].0@, servers[i as int].1@));
        assert(listed_hosts(l).take(i + 2) =~= listed_hosts(l).take(i + 1).push(
            listed_hosts(l)[i + 1],
        ));
        i += 1;
    }
    assert(listed_hosts(l).take((l.len() + 1) as int) =~= listed_hosts(l));
    r
}

/// A host that cells are listed of.
pub struct Host {
    pub name: String,
    /// How many cells it has; nothing where it cannot be reached.
    pub cells: Option<usize>,
}

/// What is shown of a host.
pub enum Block {
    /// It cannot be reached.
    Unreachable(String),
    /// Its name, whether it is in use, and then its cells.
    Cells { name: String, active: bool },
}

/// What is shown of a host.
pub enum BlockView {
    Unreachable(Seq<char>),
    Cells { name: Seq<char>, active: bool },
}

impl DeepView for Block {
    type V = BlockView;

    open spec fn deep_view(&self) -> BlockView {
        match self {
            Block::Unreachable(n) => BlockView::Unreachable(n@),
            Block::Cells { name, active } => BlockView::Cells { name: name@, active: *active },
        }
    }
}

/// The name of the server in use, where there is one.
pub open spec fn active_name(active: Option<ServerView>) -> Seq<char> {
    match active {
        Some(a) => server_name(a),
        None => Seq::<char>::empty(),
    }
}

/// What is shown of a host: nothing where it has no cells.
pub open spec fn block_of(host: Host, active: Option<ServerView>) -> Option<BlockView> {
    match host.cells {
        None => Some(BlockView::Unreachable(host.name@)),
        Some(0) => None,
        Some(_) => Some(
            BlockView::Cells { name: host.name@, active: active_name(active) == host.name@ },
        ),
    }
}

/// What is shown of the hosts, in their order.
pub open spec fn blocks_of(hosts: Seq<Host>, active: Option<ServerView>) -> Seq<BlockView>
    decreases hosts.len(),
{
    if hosts.len() == 0 {
        Seq::<BlockView>::empty()
    } else {
        let front = blocks_of(hosts.drop_last(), active);
        match block_of(hosts.last(), active) {
            Some(b) => front.push(b),
            None => front,
        }
    }
}

/// Some host has cells.
pub open spec fn any_cells(hosts: Seq<Host>) -> bool {
    exists|i: int|
        0 <= i < hosts.len() && ((#[trigger] hosts[i]).cells matches Some(n) && n > 0)
}

/// A listing of cells.
pub struct Listing {
    pub blocks: Vec<Block>,
    /// Whether it is said that there are no cells.
    pub none: bool,
}

/// What is shown of the hosts, this one first, where the server `active` is in
/// use.
pub fn cmd_list(hosts: &Vec<Host>, active: Option<&ActiveServer>) -> (r: Listing)
    ensures
        ({
            let a = match active {
                Some(s) => Some(s@),
                None => None,
            };
            r.blocks.deep_view() == blocks_of(hosts@, a) && r.none == !any_cells(hosts@)
        }),
{
    let ghost a = match active {
        Some(s) => Some(s@),
        None => None,
    };
    let mut blocks: Vec<Block> = Vec::new();
    let mut none = true;
    let mut i: usize = 0;
    assert(blocks.deep_view() == blocks_of(hosts@.take(0), a));
    while i < hosts.len()
        invariant
            i <= hosts.len(),
            a == (match active {
                Some(s) => Some(s@),
                None => None,
            }),
            blocks.deep_view() == blocks_of(hosts@.take(i as int), a),
            none == !any_cells(hosts@.take(i as int)),
        decreases hosts.len() - i,
    {
        let ghost upto = hosts@.take(i as int);
        let ghost more = hosts@.take(i + 1);
        assert(more.drop_last() == upto);
        assert(more.last() == hosts@[i as int]);
        assert(forall|j: int| 0 <= j < upto.len() ==> #[trigger] upto[j] == more[j]);
        let ghost before = blocks.deep_view();
        match hosts[i].cells {
            None => {
                let b = Block::Unreachable(hosts[i].name.clone());
                blocks.push(b);
                assert(blocks.deep_view() == before.push(b.deep_view()));
            },
            Some(n) => {
                if n > 0 {
                    none = false;
                    assert(more[i as int].cells == Some(n));
                    let shown = in_use(&hosts[i].name, active);
                    let b = Block::Cells { name: hosts[i].name.clone(), active: shown };
                    blocks.push(b);
                    assert(blocks.deep_view() == before.push(b.deep_view()));
                }
            },
        }
        assert(none == !any_cells(more)) by {
            if any_cells(more) && !any_cells(upto) {
                let j = choose|j: int|
                    0 <= j < more.len() && ((#[trigger] more[j]).cells matches Some(n) && n > 0);
                assert(j < upto.len() ==> upto[j] == more[j]);
            }
            if any_cells(upto) {
                let j = choose|j: int|
                    0 <= j < upto.len() && ((#[trigger] upto[j]).cells matches Some(n) && n > 0);
                assert(more[j] == upto[j]);
            }
        }
        i += 1;
    }
    assert(hosts@.take(hosts@.len() as int) == hosts@);
    Listing { blocks, none }
}

/// A session as it is shown.
pub struct SessionRow {
    pub name: String,
    pub attached: bool,
    /// The number of its windows, where there are several.
    pub windows: String,
}

/// A session as it is shown.
pub struct SessionRowView {
    pub name: Seq<char>,
    pub attached: bool,
    pub windows: Seq<char>,
}

impl DeepView for SessionRow {
    type V = SessionRowView;

    open spec fn deep_view(&self) -> SessionRowView {
        SessionRowView { name: self.name@, attached: self.attached, windows: self.windows@ }
    }
}

/// The number of windows in words, where there are several.
pub open spec fn windows_words(n: nat) -> Seq<char> {
    if n > 1 {
        " "@ + decimal(n) + "w"@
    } else {
        Seq::<char>::empty()
    }
}

fn windows_text(n: usize) -> (r: String)
    ensures
        r@ == windows_words(n as nat),
{
    if n > 1 {
        let mut r = " ".to_string();
        r.append(&decimal_text(n as u64));
        r.append("w");
        r
    } else {
        String::new()
    }
}

/// The session that a line describes: a name, whether somebody is in it and
/// the number of windows, with bars between them.
pub open spec fn row_in(line: Seq<char>) -> Option<SessionRowView> {
    let parts = parts_of(line, Sep::Char('|'));
    if parts.len() >= 3 {
        Some(
            SessionRowView {
                name: parts[0],
                attached: parts[1] == "1"@,
                windows: windows_words(number_or(parts[2], usize::MAX as nat, 1)),
            },
        )
    } else {
        None
    }
}

/// The sessions that the lines describe.
pub open spec fn rows_in(list: Seq<Seq<char>>) -> Seq<SessionRowView>
    decreases list.len(),
{
    if list.len() == 0 {
        Seq::<SessionRowView>::empty()
    } else {
        let front = rows_in(list.drop_last());
        match row_in(list.last()) {
            Some(s) => front.push(s),
            None => front,
        }
    }
}

/// The sessions of a cell.
pub struct Sessions {
    /// There are none.
    pub none: bool,
    pub rows: Vec<SessionRow>,
}

/// The command that a server lists the sessions of the cell `name` with.
pub open spec fn sessions_script(name: Seq<char>) -> Seq<char> {
    "cella shell --server "@ + name + " -c \""@ + REMOTE_SESSIONS@ + "\""@
}

pub const REMOTE_SESSIONS: &'static str =
    "tmux list-sessions -F '#{session_name}|#{session_attached}|#{session_windows}' 2>/dev/null";

/// The command that a server lists the sessions of the cell `name` with.
pub fn sessions_command(name: &str) -> (r: String)
    ensures
        r@ == sessions_script(name@),
{
    let mut r = "cella shell --server ".to_string();
    r.append(name);
    r.append(" -c \"");
    r.append(REMOTE_SESSIONS);
    r.append("\"");
    r
}

/// The sessions of a cell of a server, from what the command prints.
pub fn remote_sessions(output: &str) -> (r: Sessions)
    ensures
        r.none == (nonempty(lines_of(output@)).len() == 0),
        r.rows.deep_view() == rows_in(nonempty(lines_of(output@))),
{
    let list = drop_empty(lines(output));
    let ghost all = list.deep_view();
    let mut rows: Vec<SessionRow> = Vec::new();
    let mut i: usize = 0;
    assert(rows.deep_view() == rows_in(all.take(0)));
    while i < list.len()
        invariant
            i <= list.len(),
            all == list.deep_view(),
            rows.deep_view() == rows_in(all.take(i as int)),
        decreases list.len() - i,
    {
        assert(all.take(i + 1).drop_last() == all.take(i as int));
        assert(all.take(i + 1).last() == list[i as int]@);
        let ghost before = rows.deep_view();
        let parts = split(&list[i], Sep::Char('|'));
        let ghost pv = parts.deep_view();
        if parts.len() >= 3 {
            assert(pv[0] == parts[0]@ && pv[1] == parts[1]@ && pv[2] == parts[2]@);
            let s = SessionRow {
                name: parts[0].clone(),
                attached: same(&parts[1], "1"),
                windows: windows_text(windows_of(&parts[2])),
            };
            rows.push(s);
            assert(rows.deep_view() == before.push(s.deep_view()));
            assert(Some(s.deep_view()) == row_in(list[i as int]@));
        }
        i += 1;
    }
    assert(all.take(all.len() as int) == all);
    assert(all.len() == list.len());
    Sessions { none: list.len() == 0, rows }
}

/// A session as it is shown.
pub open spec fn session_shown(s: SessionView) -> SessionRowView {
    SessionRowView {
        name: s.name,
        attached: s.attached,
        windows: windows_words(s.windows as nat),
    }
}

/// A cell of this host as it is shown.
pub struct CellRow {
    pub status: &'static str,
    /// When it is to be stopped.
    pub stopping: Option<String>,
    /// Its sessions, where it runs and they could be listed.
    pub sessions: Option<Sessions>,
}

/// What is said of a stop that comes.
pub open spec fn stopping_words(left: Option<u64>) -> Option<Seq<char>> {
    match left {
        Some(n) => Some("stopping in "@ + decimal(n as nat) + "s"@),
        None => None,
    }
}

fn stopping_text(left: Option<u64>) -> (r: Option<String>)
    ensures
        r.deep_view() == stopping_words(left),
{
    match left {
        Some(n) => {
            let mut s = "stopping in ".to_string();
            s.append(&decimal_text(n));
            s.append("s");
            Some(s)
        },
        None => None,
    }
}

fn session_rows(list: &Vec<SessionInfo>) -> (r: Vec<SessionRow>)
    ensures
        r.deep_view() == list.deep_view().map_values(|s: SessionView| session_shown(s)),
{
    let mut r: Vec<SessionRow> = Vec::new();
    let ghost shown = list.deep_view().map_values(|s: SessionView| session_shown(s));
    let mut i: usize = 0;
    assert(r.deep_view() == shown.take(0));
    while i < list.len()
        invariant
            i <= list.len(),
            shown == list.deep_view().map_values(|s: SessionView| session_shown(s)),
            r.deep_view() == shown.take(i as int),
        decreases list.len() - i,
    {
        let ghost before = r.deep_view();
        let s = SessionRow {
            name: list[i].name.clone(),
            attached: list[i].attached,
            windows: windows_text(list[i].windows),
        };
        r.push(s);
        assert(r.deep_view() == before.push(s.deep_view()));
        assert(s.deep_view() == shown[i as int]);
        assert(shown.take(i + 1) == shown.take(i as int).push(shown[i as int]));
        i += 1;
    }
    assert(shown.take(shown.len() as int) == shown);
    r
}

/// A cell of this host as it is shown. `left` is when it is to be stopped, and
/// `sessions` are its sessions where they could be listed.
pub fn print_cell_row(running: bool, left: Option<u64>, sessions: Option<&Vec<SessionInfo>>) -> (r:
    CellRow)
    ensures
        r.status@ == (if running {
            "running"@
        } else {
            "stopped"@
        }),
        r.stopping.deep_view() == (if running {
            stopping_words(left)
        } else {
            None
        }),
        match sessions {
            Some(list) if running => r.sessions matches Some(s) && s.none == (list@.len() == 0)
                && s.rows.deep_view() == list.deep_view().map_values(
                |s: SessionView| session_shown(s),
            ),
            _ => r.sessions is None,
        },
{
    if !running {
        return CellRow { status: "stopped", stopping: None, sessions: None };
    }
    let sessions = match sessions {
        Some(list) => Some(Sessions { none: list.len() == 0, rows: session_rows(list) }),
        None => None,
    };
    CellRow { status: "running", stopping: stopping_text(left), sessions }
}

// Logs

/// Why there are no logs to show.
pub enum LogsError {
    Unknown(ServerError),
    /// The server in use is this host.
    Local,
}

impl LogsError {
    /// The error in words.
    pub fn message(&self) -> (r: String)
        ensures
            r@ == (match self {
                LogsError::Unknown(e) => e.words(),
                LogsError::Local => "logs --server requires a remote server"@,
            }),
    {
        match self {
            LogsError::Unknown(e) => e.message(),
            LogsError::Local => "logs --server requires a remote server".to_string(),
        }
    }
}

/// The file with the logs of a server.
pub const SERVER_LOG: &'static str = "/var/log/cella/cella.log";

/// The command that shows the logs of the server in use, as they come where
/// `follow` says so.
pub fn server_logs(server: &ActiveServer, registry: &NameMap<ServerEntry>, follow: bool) -> (r:
    Result<Vec<String>, LogsError>)
    ensures
        match target_in(server@, registry.deep_view()) {
            Ok(Some(t)) => r matches Ok(line) && line.deep_view() == seq![
                "ssh"@,
                t,
                if follow {
                    "tail -f"@
                } else {
                    "tail -100"@
                },
                SERVER_LOG@,
            ],
            Ok(None) => r matches Err(LogsError::Local),
            Err(n) => r matches Err(LogsError::Unknown(ServerError::Unknown(x))) && x@ == n,
        },
{
    match server.target(registry) {
        Err(e) => Err(LogsError::Unknown(e)),
        Ok(None) => Err(LogsError::Local),
        Ok(Some(t)) => {
            let mut line = command("ssh");
            arg(&mut line, &t);
            if follow {
                arg(&mut line, "tail -f");
            } else {
                arg(&mut line, "tail -100");
            }
            arg(&mut line, SERVER_LOG);
            assert(line.deep_view() =~= seq![
                "ssh"@,
                t@,
                if follow {
                    "tail -f"@
                } else {
                    "tail -100"@
                },
                SERVER_LOG@,
            ]);
            Ok(line)
        },
    }
}

/// The command that shows the logs of this host.
pub fn cmd_logs(path: &str, follow: bool) -> (r: Vec<String>)
    ensures
        r.deep_view() == (if follow {
            seq!["tail"@, "-100"@, "-f"@, path@]
        } else {
            seq!["tail"@, "-100"@, path@]
        }),
{
    let mut r = command("tail");
    arg(&mut r, "-100");
    if follow {
        arg(&mut r, "-f");
        arg(&mut r, path);
        assert(r.deep_view() =~= seq!["tail"@, "-100"@, "-f"@, path@]);
    } else {
        arg(&mut r, path);
        assert(r.deep_view() =~= seq!["tail"@, "-100"@, path@]);
    }
    r
}

// Sweeping

/// What is said of a cell that was swept.
pub open spec fn sweep_words(action: SweepAction) -> Seq<char> {
    match action {
        SweepAction::Scheduled(t) => "idle — stopping in "@ + decimal(t as nat) + "s"@,
        SweepAction::Waiting(t) => "stopping in "@ + decimal(t as nat) + "s"@,
        SweepAction::Stopped => "stopped (idle)"@,
        SweepAction::Cancelled => "autostop cancelled (sessions active)"@,
    }
}

/// What is said of a cell that was swept.
pub fn cmd_sweep(action: SweepAction) -> (r: String)
    ensures
        r@ == sweep_words(action),
{
    match action {
        SweepAction::Scheduled(t) => {
            let mut r = "idle — stopping in ".to_string();
            r.append(&decimal_text(t));
            r.append("s");
            r
        },
        SweepAction::Waiting(t) => {
            let mut r = "stopping in ".to_string();
            r.append(&decimal_text(t));
            r.append("s");
            r
        },
        SweepAction::Stopped => "stopped (idle)".to_string(),
        SweepAction::Cancelled => "autostop cancelled (sessions active)".to_string(),
    }
}

/// A cell that is deleted loses its branch, and one that is only killed keeps
/// it. A machine is stopped by whoever runs it, and what is said at the end is
/// what was done.
pub proof fn law_kill_does_what_it_says(name: Seq<char>, running: bool)
    ensures
        kill_steps(ServerView::Remote { name }, running, true) == seq![
            KillStep::Delete,
            KillStep::DeleteBranch,
            KillStep::SayDeleted,
        ],
        kill_steps(ServerView::Remote { name }, running, false) == seq![
            KillStep::Down,
            KillStep::SayKilled,
        ],
        ({
            let gone = kill_steps(ServerView::Localhost, running, true);
            &&& gone.last() == KillStep::SayDeleted
            &&& gone[gone.len() - 2] == KillStep::DeleteBranch
            &&& gone[gone.len() - 3] == KillStep::RemoveClone
            &&& gone[gone.len() - 4] == KillStep::ClearAutostop
            &&& running ==> gone.first() == KillStep::Stop
            &&& gone.len() == (if running { 5int } else { 4 })
        }),
        kill_steps(ServerView::Localhost, true, false) == seq![
            KillStep::ClearAutostop,
            KillStep::Stop,
            KillStep::SayKilled,
        ],
        kill_steps(ServerView::Localhost, false, false) == seq![KillStep::SayNotRunning],
{
}

/// `git` pushes to the host in use, under its own scheme, and a server goes by
/// its name.
pub proof fn law_push_to_host(target: Seq<char>, name: Seq<char>)
    ensures
        push_url(Some(target)) == "cella://"@ + target,
        push_url(None) == "cella://localhost"@,
        server_name(ServerView::Remote { name }) == name,
        server_name(ServerView::Localhost) == "localhost"@,
        active_name(Some(ServerView::Remote { name })) == name,
        active_name(Some(ServerView::Localhost)) == "localhost"@,
        active_name(None).len() == 0,
{
}

/// This host is listed first, without anyone to connect to, and then every
/// server in its order with its own target.
pub proof fn law_this_host_first(list: Seq<(Seq<char>, Seq<char>)>, i: int)
    requires
        0 <= i < list.len(),
    ensures
        listed_hosts(list).len() == list.len() + 1,
        listed_hosts(list)[0] == ("localhost"@, None::<Seq<char>>),
        listed_hosts(list)[i + 1] == (list[i].0, Some(list[i].1)),
{
}

/// Hosts are shown one after the other, as they come.
pub proof fn law_hosts_in_order(a: Seq<Host>, b: Seq<Host>, active: Option<ServerView>)
    ensures
        blocks_of(a + b, active) == blocks_of(a, active) + blocks_of(b, active),
    decreases b.len(),
{
    if b.len() == 0 {
        assert(a + b == a);
    } else {
        law_hosts_in_order(a, b.drop_last(), active);
        assert((a + b).drop_last() == a + b.drop_last());
    }
}

/// A host that cannot be reached is shown as such, one without cells is not
/// shown, and any other is shown with its cells, as the one in use where it
/// is.
pub proof fn law_host_shown(host: Host, active: ServerView)
    ensures
        ({
            let shown = blocks_of(seq![host], Some(active));
            let used = (active matches ServerView::Remote { name } && name == host.name@) || (
            active is Localhost && host.name@ == "localhost"@);
            &&& host.cells is None ==> shown == seq![BlockView::Unreachable(host.name@)]
            &&& host.cells == Some(0usize) ==> shown.len() == 0
            &&& host.cells is Some && host.cells->0 > 0 ==> shown == seq![
                BlockView::Cells { name: host.name@, active: used },
            ]
        }),
        any_cells(seq![host]) <==> host.cells is Some && host.cells->0 > 0,
{
    let one = seq![host];
    assert(one.drop_last() == Seq::<Host>::empty());
    assert(blocks_of(one.drop_last(), Some(active)) == Seq::<BlockView>::empty());
    assert(one.last() == host);
    assert(one[0] == host);
}

/// A session is shown as the line tells of it; the number of its windows is
/// shown only where there are several.
pub proof fn law_session_row_read(
    name: Seq<char>,
    attached: Seq<char>,
    windows: usize,
)
    requires
        !name.contains('|') && !attached.contains('|'),
    ensures
        row_in(name + seq!['|'] + attached + seq!['|'] + decimal(windows as nat)) == Some(
            SessionRowView {
                name,
                attached: attached == seq!['1'],
                windows: windows_words(windows as nat),
            },
        ),
        row_in(name + seq!['|'] + attached) is None,
        windows > 1 ==> windows_words(windows as nat) == " "@ + decimal(windows as nat) + "w"@,
        windows_words(1).len() == 0,
        windows_words(0).len() == 0,
{
    let n = decimal(windows as nat);
    let bar = seq!['|'];
    reveal_strlit("1");
    assert("1"@ == seq!['1']);
    crate::text::number::law_decimal_reads_back(windows as nat, usize::MAX as nat);
    crate::text::number::lemma_decimal_value(windows as nat);
    let three = seq![name, attached, n];
    let two = seq![name, attached];
    assert forall|i: int, j: int|
        0 <= i < three.len() && 0 <= j < three[i].len() implies #[trigger] three[i][j] != '|' by {
        if i == 2 {
            assert(crate::text::number::is_digit(n[j]));
        } else {
            assert(three[i].contains(three[i][j]));
        }
    }
    assert forall|i: int, j: int|
        0 <= i < two.len() && 0 <= j < two[i].len() implies #[trigger] two[i][j] != '|' by {
        assert(two[i].contains(two[i][j]));
    }
    crate::text::split::law_joined_texts_part(three, Sep::Char('|'), '|');
    crate::text::split::law_joined_texts_part(two, Sep::Char('|'), '|');
    assert(two.drop_last() == seq![name]);
    assert(three.drop_last() == two);
    assert(crate::text::split::joined(seq![name], bar) == name);
    assert(crate::text::split::joined(two, bar) == name + bar + attached);
    assert(crate::text::split::joined(three, bar) == name + bar + attached + bar + n);
}

/// Sessions are shown one after the other, each line that tells of one giving
/// one; a session of this host is shown as one of a server is.
pub proof fn law_session_rows_in_order(a: Seq<Seq<char>>, b: Seq<Seq<char>>, line: Seq<char>)
    ensures
        rows_in(a + b) == rows_in(a) + rows_in(b),
        row_in(line) is Some ==> rows_in(seq![line]) == seq![row_in(line)->0],
        row_in(line) is None ==> rows_in(seq![line]).len() == 0,
        forall|s: SessionView|
            (#[trigger] session_shown(s)).name == s.name && session_shown(s).attached == s.attached
                && session_shown(s).windows == windows_words(s.windows as nat),
    decreases b.len(),
{
    let one = seq![line];
    assert(one.drop_last() == Seq::<Seq<char>>::empty());
    assert(rows_in(one.drop_last()) == Seq::<SessionRowView>::empty());
    assert(one.last() == line);
    if b.len() == 0 {
        assert(a + b == a);
    } else {
        law_session_rows_in_order(a, b.drop_last(), line);
        assert((a + b).drop_last() == a + b.drop_last());
    }
}

/// What is said of a sweep tells its four outcomes apart, with the seconds
/// that are left.
pub proof fn law_sweep_said(t: u64)
    ensures
        sweep_words(SweepAction::Scheduled(t)) == "idle — stopping in "@ + decimal(t as nat) + "s"@,
        sweep_words(SweepAction::Waiting(t)) == "stopping in "@ + decimal(t as nat) + "s"@,
        sweep_words(SweepAction::Stopped) == "stopped (idle)"@,
        sweep_words(SweepAction::Cancelled) == "autostop cancelled (sessions active)"@,
        stopping_words(Some(t)) == Some("stopping in "@ + decimal(t as nat) + "s"@),
        stopping_words(None) is None,
{
}

/// The sessions of a cell of a server are asked for in that cell.
pub proof fn law_sessions_asked_in_cell(name: Seq<char>)
    ensures
        ("cella shell --server "@ + name + " -c \""@).is_prefix_of(sessions_script(name)),
        ("\""@).is_suffix_of(sessions_script(name)),
{
    let front = "cella shell --server "@ + name + " -c \""@;
    let s = sessions_script(name);
    assert(s.subrange(0, front.len() as int) == front);
    assert(s.subrange(s.len() - "\""@.len(), s.len() as int) == "\""@);
}

} // verus!
