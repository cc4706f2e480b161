//! The commands of `cella`.

use crate::cella::client::{runs, runs_in, CellStatus, Client, FlowInfo};
use crate::cella::transport::{LocalTransport, RemoteTransport};
use crate::flow::state::{FileStep, FileStepView};
use crate::json::{
    add_member, as_text, json_read, members_of, object, parse, printed, render, text, text_under,
    under, Json, Tree,
};
use crate::names::NameMap;
use crate::path::{file_name, file_name_of, join, joined_path};
use crate::session::cell::{cell_repo_dir, dir_of};
use crate::session::server::{
    resolve, resolved_server, target_in, ActiveServer, Registry, ServerEntry, ServerError, ServerView,
};
use crate::text::basic::{same, trim, trimmed};
use crate::text::number::{decimal, decimal_text};
use crate::text::split::{cut_once, law_cut_at_first, law_cut_gives_back, split_once};
use vstd::prelude::*;

verus! {

// Colours

/// How a word is shown.
#[derive(Clone, Copy, Debug, PartialEq, Eq, Structural)]
pub enum Tone {
    Green,
    Red,
    Yellow,
    Dim,
    Plain,
}

/// How the status of a machine is shown.
pub open spec fn vm_tone(s: Seq<char>) -> Tone {
    if s == "running"@ {
        Tone::Green
    } else if s == "stopped"@ {
        Tone::Red
    } else {
        Tone::Yellow
    }
}

/// How the status of a machine is shown.
pub fn vm_status(s: &str) -> (r: Tone)
    ensures
        r == vm_tone(s@),
{
    if same(s, "running") {
        Tone::Green
    } else if same(s, "stopped") {
        Tone::Red
    } else {
        Tone::Yellow
    }
}

/// How the state of a flow is shown.
pub open spec fn flow_tone(s: Seq<char>) -> Tone {
    if s == "running"@ {
        Tone::Green
    } else if s == "paused"@ {
        Tone::Yellow
    } else if s == "done"@ {
        Tone::Dim
    } else if s == "failed"@ {
        Tone::Red
    } else {
        Tone::Plain
    }
}

/// How the state of a flow is shown.
pub fn flow_state(s: &str) -> (r: Tone)
    ensures
        r == flow_tone(s@),
{
    if same(s, "running") {
        Tone::Green
    } else if same(s, "paused") {
        Tone::Yellow
    } else if same(s, "done") {
        Tone::Dim
    } else if same(s, "failed") {
        Tone::Red
    } else {
        Tone::Plain
    }
}

// Servers

/// A server that was asked for its cells.
pub struct Asked {
    pub name: String,
    /// The cells that it lists; none where it cannot be reached.
    pub cells: Vec<CellStatus>,
}

/// The first server on which the cell runs.
pub open spec fn server_with(asked: Seq<Asked>, cell: Seq<char>) -> Option<Seq<char>>
    decreases asked.len(),
{
    if asked.len() == 0 {
        None
    } else if runs_in(asked[0].cells@, cell) {
        Some(asked[0].name@)
    } else {
        server_with(asked.drop_first(), cell)
    }
}

/// The server that a repository or else the user names.
pub open spec fn default_server(repo: Option<Seq<char>>, user: Option<Seq<char>>) -> Option<
    Seq<char>,
> {
    match repo {
        Some(s) => Some(s),
        None => user,
    }
}

/// The server of a cell: where it runs, this host first; or else the one that
/// is named; or else this host.
pub open spec fn cell_server(
    local: bool,
    asked: Seq<Asked>,
    cell: Seq<char>,
    default: Option<Seq<char>>,
    registry: Registry,
) -> Option<ServerView> {
    if local {
        Some(ServerView::Localhost)
    } else {
        match server_with(asked, cell) {
            Some(name) => Some(ServerView::Remote { name }),
            None => match default {
                Some(name) => resolved_server(name, registry),
                None => Some(ServerView::Localhost),
            },
        }
    }
}

/// The server of a cell. `local` says whether the cell runs on this host;
/// `asked` are the servers of the registry, by name.
pub fn find_cell_server(
    local: bool,
    asked: &Vec<Asked>,
    cell: &str,
    repo_server: Option<&str>,
    user_server: Option<&str>,
    registry: &NameMap<ServerEntry>,
) -> (r: Result<ActiveServer, ServerError>)
    ensures
        match cell_server(
            local,
            asked@,
            cell@,
            default_server(repo_server.deep_view(), user_server.deep_view()),
            registry.deep_view(),
        ) {
            Some(s) => r matches Ok(a) && a@ == s,
            None => r matches Err(ServerError::NotRegistered(n)) && Some(n@) == default_server(
                repo_server.deep_view(),
                user_server.deep_view(),
            ),
        },
{
    if local {
        return Ok(ActiveServer::Localhost);
    }
    let mut i: usize = 0;
    assert(asked@.skip(0) == asked@);
    while i < asked.len()
        invariant
            i <= asked.len(),
            !local,
            server_with(asked@, cell@) == server_with(asked@.skip(i as int), cell@),
        decreases asked.len() - i,
    {
        assert(asked@.skip(i as int)[0] == asked@[i as int]);
        assert(asked@.skip(i as int).drop_first() == asked@.skip(i + 1));
        if runs(&asked[i].cells, cell) {
            return Ok(ActiveServer::Remote { name: asked[i].name.clone() });
        }
        i += 1;
    }
    match (repo_server, user_server) {
        (Some(s), _) => resolve(registry, s),
        (None, Some(s)) => resolve(registry, s),
        (None, None) => Ok(ActiveServer::Localhost),
    }
}

/// A cell that runs on this host is worked with here, whatever servers say. One
/// that runs on a server is worked with there, whatever server is named.
pub proof fn law_running_cell_stays(
    asked: Seq<Asked>,
    cell: Seq<char>,
    default: Option<Seq<char>>,
    registry: Registry,
)
    ensures
        cell_server(true, asked, cell, default, registry) == Some(ServerView::Localhost),
        server_with(asked, cell) is Some ==> cell_server(false, asked, cell, default, registry)
            == Some(ServerView::Remote { name: server_with(asked, cell)->0 }),
{
}

/// Why a server cannot be connected to.
pub enum ConnectError {
    Unknown(ServerError),
    /// It is this host.
    NoTarget,
}

impl ConnectError {
    /// The error in words.
    pub fn message(&self) -> (r: String)
        ensures
            r@ == (match self {
                ConnectError::Unknown(e) => e.words(),
                ConnectError::NoTarget => "server has no target"@,
            }),
    {
        match self {
            ConnectError::Unknown(e) => e.message(),
            ConnectError::NoTarget => "server has no target".to_string(),
        }
    }
}

/// Whom to connect to for a server, which must be another host.
pub fn connect_remote(server: &ActiveServer, registry: &NameMap<ServerEntry>) -> (r: Result<
    String,
    ConnectError,
>)
    ensures
        match target_in(server@, registry.deep_view()) {
            Ok(Some(t)) => r matches Ok(x) && x@ == t,
            Ok(None) => r matches Err(ConnectError::NoTarget),
            Err(n) => r matches Err(ConnectError::Unknown(ServerError::Unknown(x))) && x@ == n,
        },
{
    match server.target(registry) {
        Err(e) => Err(ConnectError::Unknown(e)),
        Ok(Some(t)) => Ok(t),
        Ok(None) => Err(ConnectError::NoTarget),
    }
}

/// How the cells of a server are worked with.
pub enum Way {
    Local(LocalTransport),
    Remote(RemoteTransport),
}

/// How the cells of a server are worked with: on this host, or by a client of
/// the server.
pub fn make_transport(server: &ActiveServer, registry: &NameMap<ServerEntry>) -> (r: Result<
    Way,
    ConnectError,
>)
    ensures
        match target_in(server@, registry.deep_view()) {
            Ok(None) => r matches Ok(Way::Local(_)),
            Ok(Some(t)) => r matches Ok(Way::Remote(x)) && x.client@ == t,
            Err(n) => r matches Err(ConnectError::Unknown(ServerError::Unknown(x))) && x@ == n,
        },
{
    if server.is_server() {
        match connect_remote(server, registry) {
            Ok(t) => Ok(
                Way::Remote(
                    RemoteTransport { client: Client::connect(&t) },
                ),
            ),
            Err(e) => Err(e),
        }
    } else {
        Ok(Way::Local(LocalTransport))
    }
}

// Words

/// The time passed in words: seconds, minutes or hours.
pub open spec fn elapsed_words(secs: u64) -> Seq<char> {
    if secs < 60 {
        decimal(secs as nat) + "s"@
    } else if secs < 3600 {
        decimal((secs / 60) as nat) + "m"@
    } else {
        decimal((secs / 3600) as nat) + "h"@
    }
}

/// The time passed in words.
pub fn format_elapsed(secs: u64) -> (r: String)
    ensures
        r@ == elapsed_words(secs),
{
    if secs < 60 {
        let mut r = decimal_text(secs);
        r.append("s");
        r
    } else if secs < 3600 {
        let mut r = decimal_text(secs / 60);
        r.append("m");
        r
    } else {
        let mut r = decimal_text(secs / 3600);
        r.append("h");
        r
    }
}

/// The seconds from `start` to `now`.
pub open spec fn passed(start: u64, now: u64) -> u64 {
    if now >= start {
        (now - start) as u64
    } else {
        0
    }
}

fn since(start: u64, now: u64) -> (r: u64)
    ensures
        r == passed(start, now),
{
    if now >= start {
        now - start
    } else {
        0
    }
}

// Repositories

/// What the configuration of a repository holds at first.
pub const FIRST_CONFIG: &'static str = "memory = \"4096M\"\nvcpu = 2\n";

/// What is done to set up a repository: the configuration is written where it
/// is missing.
pub fn cmd_init(repo_root: &str, has_config: bool) -> (r: Vec<FileStep>)
    ensures
        ({
            let dir = joined_path(repo_root@, ".cella"@);
            r.deep_view() == (if has_config {
                seq![FileStepView::MakeDir(dir)]
            } else {
                seq![
                    FileStepView::MakeDir(dir),
                    FileStepView::Write {
                        path: joined_path(dir, "config.toml"@),
                        text: FIRST_CONFIG@,
                    },
                ]
            })
        }),
{
    let dir = join(repo_root, ".cella");
    let config = join(&dir, "config.toml");
    if has_config {
        let r = vec![FileStep::MakeDir(dir)];
        assert(r.deep_view() =~= seq![FileStepView::MakeDir(dir@)]);
        r
    } else {
        let r = vec![
            FileStep::MakeDir(dir),
            FileStep::Write { path: config, text: FIRST_CONFIG.to_string() },
        ];
        assert(r.deep_view() =~= seq![
            FileStepView::MakeDir(dir@),
            FileStepView::Write { path: config@, text: FIRST_CONFIG@ },
        ]);
        r
    }
}

/// Whether a branch can be created: it must not exist.
pub fn cmd_create(name: &str, present: bool) -> (r: Result<(), String>)
    ensures
        if present {
            r matches Err(e) && e@ == "branch '"@ + name@ + "' already exists — use 'cella add "@
                + name@ + "' instead"@
        } else {
            r is Ok
        },
{
    if present {
        let mut e = "branch '".to_string();
        e.append(name);
        e.append("' already exists — use 'cella add ");
        e.append(name);
        e.append("' instead");
        Err(e)
    } else {
        Ok(())
    }
}

/// Whether a branch can be added: it must exist.
pub fn cmd_add(name: &str, present: bool) -> (r: Result<(), String>)
    ensures
        if present {
            r is Ok
        } else {
            r matches Err(e) && e@ == "branch '"@ + name@
                + "' does not exist — use 'cella create "@ + name@ + "' to create it"@
        },
{
    if present {
        Ok(())
    } else {
        let mut e = "branch '".to_string();
        e.append(name);
        e.append("' does not exist — use 'cella create ");
        e.append(name);
        e.append("' to create it");
        Err(e)
    }
}

/// One step of the removal or the stop of a cell.
#[derive(Clone, Copy, Debug, PartialEq, Eq, Structural)]
pub enum EndStep {
    /// Stop its flow; it is no error where that fails.
    StopFlow,
    /// Have the server delete it; it is no error where that fails.
    DeleteRemote,
    /// Have the server stop it.
    Down,
    /// Stop its machine on this host.
    StopLocal,
    /// Remove its worktree.
    RemoveTree,
    /// Delete its branch; it is no error where that fails.
    DeleteBranch,
    /// Say that it was stopped.
    SayStopped,
    /// Say that it does not run.
    SayNotRunning,
    /// Remove it and its branch, as a command of its own.
    Remove,
}

impl DeepView for EndStep {
    type V = EndStep;

    open spec fn deep_view(&self) -> EndStep {
        *self
    }
}

/// The steps that remove a cell. `server` is its server, where it could be
/// found; `running` says whether it runs on this host.
pub open spec fn remove_steps(server: Option<ServerView>, running: bool, delete: bool) -> Seq<
    EndStep,
> {
    (match server {
        None => Seq::<EndStep>::empty(),
        Some(ServerView::Remote { .. }) => seq![EndStep::StopFlow, EndStep::DeleteRemote],
        Some(ServerView::Localhost) => if running {
            seq![EndStep::StopFlow, EndStep::StopLocal]
        } else {
            seq![EndStep::StopFlow]
        },
    }) + (if delete {
        seq![EndStep::RemoveTree, EndStep::DeleteBranch]
    } else {
        seq![EndStep::RemoveTree]
    })
}

/// The steps that remove a cell, and its branch where `delete` says so.
pub fn cmd_remove(server: Option<&ActiveServer>, running: bool, delete: bool) -> (r: Vec<EndStep>)
    ensures
        r@ == remove_steps(
            match server {
                Some(s) => Some(s@),
                None => None,
            },
            running,
            delete,
        ),
{
    let mut r: Vec<EndStep> = Vec::new();
    if let Some(s) = server {
        r.push(EndStep::StopFlow);
        if s.is_server() {
            r.push(EndStep::DeleteRemote);
        } else if running {
            r.push(EndStep::StopLocal);
        }
    }
    r.push(EndStep::RemoveTree);
    if delete {
        r.push(EndStep::DeleteBranch);
    }
    assert(r@ =~= remove_steps(
        match server {
            Some(s) => Some(s@),
            None => None,
        },
        running,
        delete,
    ));
    r
}

/// The steps that stop a cell; `running` says whether it runs on this host.
pub open spec fn stop_steps(server: ServerView, running: bool, delete: bool) -> Seq<EndStep> {
    (match server {
        ServerView::Remote { .. } => seq![
            EndStep::StopFlow,
            EndStep::Down,
            EndStep::SayStopped,
        ],
        ServerView::Localhost => if running {
            seq![EndStep::StopFlow, EndStep::StopLocal, EndStep::SayStopped]
        } else {
            seq![EndStep::StopFlow, EndStep::SayNotRunning]
        },
    }) + (if delete {
        seq![EndStep::Remove]
    } else {
        Seq::<EndStep>::empty()
    })
}

/// The steps that stop a cell, and remove it where `delete` says so.
pub fn cmd_stop(server: &ActiveServer, running: bool, delete: bool) -> (r: Vec<EndStep>)
    ensures
        r@ == stop_steps(server@, running, delete),
{
    let mut r: Vec<EndStep> = Vec::new();
    r.push(EndStep::StopFlow);
    if server.is_server() {
        r.push(EndStep::Down);
        r.push(EndStep::SayStopped);
    } else if running {
        r.push(EndStep::StopLocal);
        r.push(EndStep::SayStopped);
    } else {
        r.push(EndStep::SayNotRunning);
    }
    if delete {
        r.push(EndStep::Remove);
    }
    assert(r@ =~= stop_steps(server@, running, delete));
    r
}

/// The error where a branch has no worktree.
pub fn no_worktree(name: &str) -> (r: String)
    ensures
        r@ == "no worktree for '"@ + name@ + "' — use 'cella add "@ + name@ + "' first"@,
{
    let mut r = "no worktree for '".to_string();
    r.append(name);
    r.append("' — use 'cella add ");
    r.append(name);
    r.append("' first");
    r
}

pub const FISH_HOOK: &'static str = r#"function cella
    if test "$argv[1]" = "cd"
        cd (command cella path $argv[2])
    else
        command cella $argv
    end
end"#;

pub const SH_HOOK: &'static str = r#"cella() {
    if [ "$1" = "cd" ]; then
        cd "$(command cella path "$2")"
    else
        command cella "$@"
    fi
}"#;

pub const NU_HOOK: &'static str = r#"def --wrapped cella [...args: string] {
    if ($args | first) == "cd" {
        cd (^cella path ($args | get 1))
    } else {
        ^cella ...$args
    }
}"#;

pub const POWERSHELL_HOOK: &'static str = r#"function cella {
    if ($args[0] -eq "cd") {
        Set-Location (& cella.exe path $args[1])
    } else {
        & cella.exe @args
    }
}"#;

/// What a shell needs for `cella cd`.
pub open spec fn hook_of(shell: Seq<char>) -> Option<Seq<char>> {
    if shell == "fish"@ {
        Some(FISH_HOOK@)
    } else if shell == "bash"@ || shell == "zsh"@ {
        Some(SH_HOOK@)
    } else if shell == "nu"@ || shell == "nushell"@ {
        Some(NU_HOOK@)
    } else if shell == "powershell"@ || shell == "pwsh"@ {
        Some(POWERSHELL_HOOK@)
    } else {
        None
    }
}

/// What a shell needs for `cella cd`.
pub fn cmd_hook(shell: &str) -> (r: Result<String, String>)
    ensures
        match hook_of(shell@) {
            Some(h) => r matches Ok(t) && t@ == h,
            None => r matches Err(e) && e@ == "unsupported shell '"@ + shell@
                + "' — use fish, bash, zsh, nu, or powershell"@,
        },
{
    if same(shell, "fish") {
        Ok(FISH_HOOK.to_string())
    } else if same(shell, "bash") || same(shell, "zsh") {
        Ok(SH_HOOK.to_string())
    } else if same(shell, "nu") || same(shell, "nushell") {
        Ok(NU_HOOK.to_string())
    } else if same(shell, "powershell") || same(shell, "pwsh") {
        Ok(POWERSHELL_HOOK.to_string())
    } else {
        let mut e = "unsupported shell '".to_string();
        e.append(shell);
        e.append("' — use fish, bash, zsh, nu, or powershell");
        Err(e)
    }
}

// The cell that a push is for

/// A cell of this host.
pub struct LocalCell {
    pub name: String,
    pub running: bool,
    /// The content of its file with the repository.
    pub repo: Option<String>,
}

/// The repository of a cell.
pub open spec fn repo_in(content: Option<Seq<char>>) -> Seq<char> {
    match content {
        Some(c) => trimmed(c),
        None => Seq::<char>::empty(),
    }
}

/// The cell runs, and is for the repository that is asked for.
pub open spec fn serves(c: LocalCell, repo: Option<Seq<char>>) -> bool {
    c.running && (repo matches Some(r) ==> repo_in(c.repo.deep_view()) == r)
}

/// The first cell that runs and is for the repository.
pub open spec fn serving(cells: Seq<LocalCell>, repo: Option<Seq<char>>) -> Option<Seq<char>>
    decreases cells.len(),
{
    if cells.len() == 0 {
        None
    } else if serves(cells[0], repo) {
        Some(cells[0].name@)
    } else {
        serving(cells.drop_first(), repo)
    }
}

/// The directory that a push goes to: that of the first cell of this host that
/// runs and is for the repository, where one is asked for.
pub fn cmd_resolve_cell(cells: &Vec<LocalCell>, repo: Option<&str>) -> (r: Option<String>)
    ensures
        r.deep_view() == (match serving(cells@, repo.deep_view()) {
            Some(n) => Some(joined_path(dir_of(n), "repo"@)),
            None => None,
        }),
{
    let mut i: usize = 0;
    assert(cells@.skip(0) == cells@);
    while i < cells.len()
        invariant
            i <= cells.len(),
            serving(cells@, repo.deep_view()) == serving(cells@.skip(i as int), repo.deep_view()),
        decreases cells.len() - i,
    {
        assert(cells@.skip(i as int)[0] == cells@[i as int]);
        assert(cells@.skip(i as int).drop_first() == cells@.skip(i + 1));
        let c = &cells[i];
        if c.running {
            let fits = match repo {
                None => true,
                Some(want) => {
                    let has = match &c.repo {
                        Some(t) => trim(t),
                        None => String::new(),
                    };
                    same(&has, want)
                },
            };
            if fits {
                return Some(cell_repo_dir(&c.name));
            }
        }
        i += 1;
    }
    None
}

// Listing

/// A cell that is listed.
pub struct Row {
    pub name: String,
    pub status: String,
    pub server: String,
    pub repo: Option<String>,
    pub flow: Option<FlowInfo>,
}

/// A cell as it is shown.
pub struct ShownRow {
    /// It is that of the current branch.
    pub current: bool,
    pub label: String,
    /// The name of its flow.
    pub flow: Option<String>,
    /// How long its flow has run, while it does.
    pub elapsed: Option<String>,
    pub status: String,
    pub tone: Tone,
    pub server: String,
}

/// A cell as it is shown.
pub struct ShownView {
    pub current: bool,
    pub label: Seq<char>,
    pub flow: Option<Seq<char>>,
    pub elapsed: Option<Seq<char>>,
    pub status: Seq<char>,
    pub tone: Tone,
    pub server: Seq<char>,
}

impl DeepView for ShownRow {
    type V = ShownView;

    open spec fn deep_view(&self) -> ShownView {
        ShownView {
            current: self.current,
            label: self.label@,
            flow: self.flow.deep_view(),
            elapsed: self.elapsed.deep_view(),
            status: self.status@,
            tone: self.tone,
            server: self.server@,
        }
    }
}

/// Where a listing is asked for.
pub struct ListScene {
    pub branch: Option<String>,
    /// The repository it is asked for in.
    pub repo: Option<String>,
    /// Cells of all repositories are asked for.
    pub all: bool,
    pub now: u64,
}

/// The cell is one of those asked for: inside a repository, cells of others
/// are left out unless all are asked for.
pub open spec fn is_listed(row: Row, scene: ListScene) -> bool {
    scene.all || scene.repo is None || row.repo is None || row.repo->0@ == scene.repo->0@
}

/// The name of a cell, with its repository unless that is the one it is asked
/// for in.
pub open spec fn label_in(row: Row, scene: ListScene) -> Seq<char> {
    match row.repo {
        None => row.name@,
        Some(r) => if !scene.all && scene.repo is Some && scene.repo->0@ == r@ {
            row.name@
        } else {
            r@ + "/"@ + row.name@
        },
    }
}

/// A flow that runs or is paused.
pub open spec fn is_live(f: FlowInfo) -> bool {
    f.state@ == "running"@ || f.state@ == "paused"@
}

/// A cell as it is shown.
pub open spec fn shown(row: Row, scene: ListScene) -> ShownView {
    ShownView {
        current: scene.branch is Some && scene.branch->0@ == row.name@,
        label: label_in(row, scene),
        flow: match row.flow {
            Some(f) => Some(f.flow_name@),
            None => None,
        },
        elapsed: match row.flow {
            Some(f) => if is_live(f) {
                Some(elapsed_words(passed(f.started_at, scene.now)))
            } else {
                None
            },
            None => None,
        },
        status: row.status@,
        tone: vm_tone(row.status@),
        server: row.server@,
    }
}

/// The cells that are shown, in their order.
pub open spec fn shown_rows(rows: Seq<Row>, scene: ListScene) -> Seq<ShownView>
    decreases rows.len(),
{
    if rows.len() == 0 {
        Seq::<ShownView>::empty()
    } else {
        let front = shown_rows(rows.drop_last(), scene);
        if is_listed(rows.last(), scene) {
            front.push(shown(rows.last(), scene))
        } else {
            front
        }
    }
}

fn equals(a: &Option<String>, b: &str) -> (r: bool)
    ensures
        r == (a is Some && a->0@ == b@),
{
    match a {
        Some(s) => same(s, b),
        None => false,
    }
}

fn show(row: &Row, scene: &ListScene) -> (r: ShownRow)
    ensures
        r.deep_view() == shown(*row, *scene),
{
    let label = match &row.repo {
        None => row.name.clone(),
        Some(repo) => if !scene.all && equals(&scene.repo, repo) {
            row.name.clone()
        } else {
            let mut l = repo.clone();
            l.append("/");
            l.append(&row.name);
            l
        },
    };
    let (flow, elapsed) = match &row.flow {
        None => (None, None),
        Some(f) => {
            let live = same(&f.state, "running") || same(&f.state, "paused");
            let elapsed = if live {
                Some(format_elapsed(since(f.started_at, scene.now)))
            } else {
                None
            };
            (Some(f.flow_name.clone()), elapsed)
        },
    };
    ShownRow {
        current: equals(&scene.branch, &row.name),
        label,
        flow,
        elapsed,
        status: row.status.clone(),
        tone: vm_status(&row.status),
        server: row.server.clone(),
    }
}

/// The cells that are shown, in their order.
pub fn cmd_list(rows: &Vec<Row>, scene: &ListScene) -> (r: Vec<ShownRow>)
    ensures
        r.deep_view() == shown_rows(rows@, *scene),
{
    let mut r: Vec<ShownRow> = Vec::new();
    let mut i: usize = 0;
    assert(r.deep_view() == shown_rows(rows@.take(0), *scene));
    while i < rows.len()
        invariant
            i <= rows.len(),
            r.deep_view() == shown_rows(rows@.take(i as int), *scene),
        decreases rows.len() - i,
    {
        assert(rows@.take(i + 1).drop_last() == rows@.take(i as int));
        let row = &rows[i];
        let ghost before = r.deep_view();
        let listed = scene.all || scene.repo.is_none() || match &row.repo {
            None => true,
            Some(repo) => equals(&scene.repo, repo),
        };
        assert(listed == is_listed(*row, *scene));
        if listed {
            let s = show(row, scene);
            r.push(s);
            assert(r.deep_view() == before.push(s.deep_view()));
        }
        i += 1;
    }
    assert(rows@.take(rows@.len() as int) == rows@);
    r
}

/// The row of a cell of this host. `repo` is the content of its file with the
/// repository.
pub fn local_row(name: &str, running: bool, repo: Option<&str>, flow: Option<FlowInfo>) -> (r: Row)
    ensures
        r.name@ == name@,
        r.status@ == (if running {
            "running"@
        } else {
            "stopped"@
        }),
        r.server@ == "localhost"@,
        r.repo.deep_view() == (match repo {
            Some(c) => Some(trimmed(c@)),
            None => None,
        }),
        r.flow == flow,
{
    Row {
        name: name.to_string(),
        status: running_word(running).to_string(),
        server: "localhost".to_string(),
        repo: match repo {
            Some(c) => Some(trim(c)),
            None => None,
        },
        flow,
    }
}

/// The status of a machine of this host.
pub fn running_word(running: bool) -> (r: &'static str)
    ensures
        r@ == (if running {
            "running"@
        } else {
            "stopped"@
        }),
{
    if running {
        "running"
    } else {
        "stopped"
    }
}

/// The name of the repository at `root`, where there is one.
pub fn current_repo(root: Option<&str>) -> (r: Option<String>)
    ensures
        r.deep_view() == (match root {
            Some(p) => file_name_of(p@),
            None => None,
        }),
{
    match root {
        Some(p) => file_name(p),
        None => None,
    }
}

/// The row of a cell that a server lists.
pub fn server_row(server: &str, cell: CellStatus) -> (r: Row)
    ensures
        r.name == cell.name,
        r.status == cell.status,
        r.server@ == server@,
        r.repo == cell.repo,
        r.flow == cell.flow,
{
    Row {
        name: cell.name,
        status: cell.status,
        server: server.to_string(),
        repo: cell.repo,
        flow: cell.flow,
    }
}

// Status

/// A line of a status.
pub struct StatusLine {
    pub label: String,
    pub value: String,
    pub tone: Tone,
}

/// A line of a status.
pub struct StatusLineView {
    pub label: Seq<char>,
    pub value: Seq<char>,
    pub tone: Tone,
}

impl DeepView for StatusLine {
    type V = StatusLineView;

    open spec fn deep_view(&self) -> StatusLineView {
        StatusLineView { label: self.label@, value: self.value@, tone: self.tone }
    }
}

/// What is said of a flow.
pub open spec fn flow_lines(flow: Option<FlowInfo>, now: u64) -> Seq<StatusLineView> {
    match flow {
        None => seq![StatusLineView { label: "flow"@, value: "none"@, tone: Tone::Dim }],
        Some(f) => {
            let lines = seq![
                StatusLineView { label: "flow"@, value: f.flow_name@, tone: Tone::Plain },
                StatusLineView { label: "state"@, value: f.state@, tone: flow_tone(f.state@) },
                StatusLineView { label: "op"@, value: f.current_op@, tone: Tone::Plain },
            ];
            if passed(f.started_at, now) > 0 {
                lines.push(
                    StatusLineView {
                        label: "elapsed"@,
                        value: elapsed_words(passed(f.started_at, now)),
                        tone: Tone::Plain,
                    },
                )
            } else {
                lines
            }
        },
    }
}

/// What is said of a cell.
pub open spec fn status_lines(
    name: Seq<char>,
    status: Seq<char>,
    flow: Option<FlowInfo>,
    now: u64,
) -> Seq<StatusLineView> {
    seq![
        StatusLineView { label: "cell"@, value: name, tone: Tone::Plain },
        StatusLineView { label: "vm"@, value: status, tone: vm_tone(status) },
    ] + flow_lines(flow, now)
}

fn status_line(lines: &mut Vec<StatusLine>, label: &str, value: &str, tone: Tone)
    ensures
        final(lines).deep_view() == old(lines).deep_view().push(
            StatusLineView { label: label@, value: value@, tone },
        ),
{
    let ghost before = lines.deep_view();
    let l = StatusLine { label: label.to_string(), value: value.to_string(), tone };
    lines.push(l);
    assert(lines.deep_view() == before.push(l.deep_view()));
}

/// What is said of the cell `name`.
pub fn cmd_status(name: &str, status: &str, flow: &Option<FlowInfo>, now: u64) -> (r: Vec<
    StatusLine,
>)
    ensures
        r.deep_view() == status_lines(name@, status@, *flow, now),
{
    let mut r: Vec<StatusLine> = Vec::new();
    status_line(&mut r, "cell", name, Tone::Plain);
    status_line(&mut r, "vm", status, vm_status(status));
    match flow {
        None => status_line(&mut r, "flow", "none", Tone::Dim),
        Some(f) => {
            status_line(&mut r, "flow", &f.flow_name, Tone::Plain);
            status_line(&mut r, "state", &f.state, flow_state(&f.state));
            status_line(&mut r, "op", &f.current_op, Tone::Plain);
            let elapsed = since(f.started_at, now);
            if elapsed > 0 {
                status_line(&mut r, "elapsed", &format_elapsed(elapsed), Tone::Plain);
            }
        },
    }
    assert(r.deep_view() =~= status_lines(name@, status@, *flow, now));
    r
}

/// The error where a server does not list a cell.
pub fn cell_not_found(name: &str) -> (r: String)
    ensures
        r@ == "cell '"@ + name@ + "' not found"@,
{
    let mut r = "cell '".to_string();
    r.append(name);
    r.append("' not found");
    r
}

// Running flows

/// The server that a flow is run on where one is named: on the command line,
/// by the repository or by the user.
pub fn run_server(given: Option<&str>, repo: Option<&str>, user: Option<&str>) -> (r: Option<String>)
    ensures
        r.deep_view() == (match given {
            Some(s) => Some(s@),
            None => default_server(repo.deep_view(), user.deep_view()),
        }),
{
    match (given, repo, user) {
        (Some(s), _, _) => Some(s.to_string()),
        (None, Some(s), _) => Some(s.to_string()),
        (None, None, Some(s)) => Some(s.to_string()),
        (None, None, None) => None,
    }
}

/// The flow that is paused, from its status.
pub open spec fn paused_in(status: Tree) -> Option<Seq<char>> {
    if as_text(under(status, "state"@)) == Some("paused"@) {
        as_text(under(status, "flow_name"@))
    } else {
        None
    }
}

/// The flow that is paused, from its status.
pub fn paused_flow(status: &Json) -> (r: Option<String>)
    ensures
        r.deep_view() == paused_in(status.deep_view()),
{
    match text_under(status, "state") {
        Some(s) => if same(&s, "paused") {
            text_under(status, "flow_name")
        } else {
            None
        },
        None => None,
    }
}

/// The flow that is paused, from the text of its status where it is there.
pub open spec fn paused_in_text(status: Option<Seq<char>>) -> Option<Seq<char>> {
    match status {
        Some(t) => match json_read(t) {
            Ok(tree) => paused_in(tree),
            Err(_) => None,
        },
        None => None,
    }
}

/// The flow to run: the one given, or else the one that is paused on this host.
/// `status` is the text of the status of the flow of the cell.
pub fn flow_to_run(given: Option<&str>, server: &ActiveServer, status: Option<&str>) -> (r: Result<
    String,
    String,
>)
    ensures
        match given {
            Some(n) => r matches Ok(f) && f@ == n@,
            None => match (if server@ is Remote {
                None
            } else {
                paused_in_text(status.deep_view())
            }) {
                Some(n) => r matches Ok(f) && f@ == n,
                None => r matches Err(e) && e@ == "specify a flow name: cella run <flow>"@,
            },
        },
{
    if let Some(n) = given {
        return Ok(n.to_string());
    }
    let paused = match (server.is_server(), status) {
        (false, Some(t)) => match parse(t) {
            Ok(tree) => paused_flow(&tree),
            Err(_) => None,
        },
        _ => None,
    };
    match paused {
        Some(n) => Ok(n),
        None => Err("specify a flow name: cella run <flow>".to_string()),
    }
}

/// The parameters of a flow, or the first that is none.
pub open spec fn params_in(params: Seq<Seq<char>>) -> Result<Seq<(Seq<char>, Tree)>, Seq<char>>
    decreases params.len(),
{
    if params.len() == 0 {
        Ok(Seq::<(Seq<char>, Tree)>::empty())
    } else {
        match params_in(params.drop_last()) {
            Err(e) => Err(e),
            Ok(front) => match cut_once(params.last(), '=') {
                Some((k, v)) => Ok(front.push((k, Tree::Text(v)))),
                None => Err(params.last()),
            },
        }
    }
}

proof fn lemma_first_bad_param(params: Seq<Seq<char>>, k: int)
    requires
        0 <= k <= params.len(),
        params_in(params.take(k)) is Err,
    ensures
        params_in(params) == params_in(params.take(k)),
    decreases params.len() - k,
{
    if k < params.len() {
        assert(params.take(k + 1).drop_last() == params.take(k));
        lemma_first_bad_param(params, k + 1);
    } else {
        assert(params.take(k) == params);
    }
}

/// The JSON text of the parameters `key=value`, where there are some.
pub fn cmd_run(params: &Vec<String>) -> (r: Result<Option<String>, String>)
    ensures
        if params.len() == 0 {
            r matches Ok(None)
        } else {
            match params_in(params.deep_view()) {
                Ok(m) => r matches Ok(Some(t)) && t@ == printed(Tree::Object(m)),
                Err(p) => r matches Err(e) && e@ == "invalid param '"@ + p
                    + "' — expected key=value"@,
            }
        },
{
    if params.len() == 0 {
        return Ok(None);
    }
    let ghost all = params.deep_view();
    let mut m: Vec<(String, Json)> = Vec::new();
    assert(members_of(m@) == Seq::<(Seq<char>, Tree)>::empty());
    let mut i: usize = 0;
    while i < params.len()
        invariant
            i <= params.len(),
            params.len() > 0,
            all == params.deep_view(),
            params_in(all.take(i as int)) == Ok::<Seq<(Seq<char>, Tree)>, Seq<char>>(
                members_of(m@),
            ),
        decreases params.len() - i,
    {
        assert(all.take(i + 1).drop_last() == all.take(i as int));
        assert(all.take(i + 1).last() == params[i as int]@);
        match split_once(&params[i], '=') {
            Some((k, v)) => add_member(&mut m, &k, text(&v)),
            None => {
                proof {
                    lemma_first_bad_param(all, i + 1);
                }
                let mut e = "invalid param '".to_string();
                e.append(&params[i]);
                e.append("' — expected key=value");
                return Err(e);
            },
        }
        i += 1;
    }
    assert(all.take(all.len() as int) == all);
    Ok(Some(render(&object(m))))
}

/// What runs is shown green and what does not is shown red; a flow that waits
/// is yellow, and one that is done is dim. No other word has these tones but
/// the yellow of a machine.
pub proof fn law_tones_tell(s: Seq<char>)
    ensures
        vm_tone(s) == Tone::Green <==> s == "running"@,
        vm_tone(s) == Tone::Red <==> s == "stopped"@,
        vm_tone(s) == Tone::Yellow <==> s != "running"@ && s != "stopped"@,
        flow_tone(s) == Tone::Green <==> s == "running"@,
        flow_tone(s) == Tone::Yellow <==> s == "paused"@,
        flow_tone(s) == Tone::Dim <==> s == "done"@,
        flow_tone(s) == Tone::Red <==> s == "failed"@,
{
    reveal_strlit("running");
    reveal_strlit("stopped");
    reveal_strlit("paused");
    reveal_strlit("done");
    reveal_strlit("failed");
    assert("running"@.len() == 7 && "stopped"@.len() == 7);
    assert("running"@[0] == 'r' && "stopped"@[0] == 's');
    assert("paused"@.len() == 6 && "failed"@.len() == 6 && "done"@.len() == 4);
    assert("paused"@[0] == 'p' && "failed"@[0] == 'f');
}

/// The server of a cell is the first that lists it as running; where none
/// does, the one that the repository names, then the one that the user names,
/// then this host.
pub proof fn law_first_server_with_cell(
    asked: Seq<Asked>,
    cell: Seq<char>,
    i: int,
    default: Option<Seq<char>>,
    registry: Registry,
)
    requires
        0 <= i <= asked.len(),
        forall|j: int| 0 <= j < i ==> !runs_in((#[trigger] asked[j]).cells@, cell),
    ensures
        i < asked.len() && runs_in(asked[i].cells@, cell) ==> cell_server(
            false,
            asked,
            cell,
            default,
            registry,
        ) == Some(ServerView::Remote { name: asked[i].name@ }),
        i == asked.len() && default is Some ==> cell_server(false, asked, cell, default, registry)
            == resolved_server(default->0, registry),
        i == asked.len() && default is None ==> cell_server(false, asked, cell, default, registry)
            == Some(ServerView::Localhost),
        forall|repo: Seq<char>, user: Option<Seq<char>>| #[trigger]
            default_server(Some(repo), user) == Some(repo),
        forall|user: Option<Seq<char>>| #[trigger] default_server(None, user) == user,
    decreases i,
{
    if i > 0 {
        let rest = asked.drop_first();
        assert(!runs_in(asked[0].cells@, cell));
        assert forall|j: int| 0 <= j < i - 1 implies !runs_in(
            (#[trigger] rest[j]).cells@,
            cell,
        ) by {
            assert(rest[j] == asked[j + 1]);
        }
        law_first_server_with_cell(rest, cell, i - 1, default, registry);
    }
}

/// Time is said in the largest unit that it fills, in whole units, up to hours.
pub proof fn law_elapsed_said(secs: u64, n: u64, start: u64)
    ensures
        secs < 60 ==> elapsed_words(secs) == decimal(secs as nat) + "s"@,
        0 < n < 60 && 60 * n <= secs < 60 * (n + 1) ==> elapsed_words(secs) == decimal(n as nat)
            + "m"@,
        n > 0 && 3600 * n <= secs < 3600 * (n + 1) ==> elapsed_words(secs) == decimal(n as nat)
            + "h"@,
        start + n <= u64::MAX ==> passed(start, (start + n) as u64) == n,
        start < n ==> passed(n, start) == 0,
{
}

/// A removal stops the flow and the machine where they may run, takes the
/// worktree in any case, and takes the branch only where that is asked for.
pub proof fn law_removal_steps(name: Seq<char>, running: bool, delete: bool)
    ensures
        ({
            let end = if delete {
                seq![EndStep::RemoveTree, EndStep::DeleteBranch]
            } else {
                seq![EndStep::RemoveTree]
            };
            &&& remove_steps(None, running, delete) == end
            &&& remove_steps(Some(ServerView::Remote { name }), running, delete) == seq![
                EndStep::StopFlow,
                EndStep::DeleteRemote,
            ] + end
            &&& remove_steps(Some(ServerView::Localhost), true, delete) == seq![
                EndStep::StopFlow,
                EndStep::StopLocal,
            ] + end
            &&& remove_steps(Some(ServerView::Localhost), false, delete) == seq![EndStep::StopFlow]
                + end
        }),
{
}

/// A stop ends the flow first. A cell is said to be stopped only where its
/// machine was, and it is removed, last, only where that is asked for.
pub proof fn law_stop_steps(server: ServerView, running: bool, delete: bool)
    ensures
        ({
            let steps = stop_steps(server, running, delete);
            &&& steps.first() == EndStep::StopFlow
            &&& steps.contains(EndStep::Down) <==> server is Remote
            &&& steps.contains(EndStep::StopLocal) <==> server is Localhost && running
            &&& steps.contains(EndStep::SayStopped) <==> server is Remote || running
            &&& steps.contains(EndStep::SayNotRunning) <==> server is Localhost && !running
            &&& steps.contains(EndStep::Remove) <==> delete
            &&& delete ==> steps.last() == EndStep::Remove
            &&& server is Remote || running ==> steps[2] == EndStep::SayStopped
            &&& !steps.contains(EndStep::RemoveTree) && !steps.contains(EndStep::DeleteBranch)
        }),
{
    let steps = stop_steps(server, running, delete);
    if server is Remote {
        assert(steps[1] == EndStep::Down);
        assert(steps[2] == EndStep::SayStopped);
    } else if running {
        assert(steps[1] == EndStep::StopLocal);
        assert(steps[2] == EndStep::SayStopped);
    } else {
        assert(steps[1] == EndStep::SayNotRunning);
    }
    if delete {
        assert(steps[steps.len() - 1] == EndStep::Remove);
    }
}

/// Each shell gets the hook in its own language, under each of its names, and
/// no other shell gets one.
pub proof fn law_hook_for_shell(shell: Seq<char>)
    ensures
        hook_of("fish"@) == Some(FISH_HOOK@),
        hook_of("bash"@) == Some(SH_HOOK@),
        hook_of("zsh"@) == Some(SH_HOOK@),
        hook_of("nu"@) == Some(NU_HOOK@),
        hook_of("nushell"@) == Some(NU_HOOK@),
        hook_of("powershell"@) == Some(POWERSHELL_HOOK@),
        hook_of("pwsh"@) == Some(POWERSHELL_HOOK@),
        hook_of(shell) is Some <==> shell == "fish"@ || shell == "bash"@ || shell == "zsh"@ || shell
            == "nu"@ || shell == "nushell"@ || shell == "powershell"@ || shell == "pwsh"@,
{
    reveal_strlit("fish");
    reveal_strlit("bash");
    reveal_strlit("zsh");
    reveal_strlit("nu");
    reveal_strlit("nushell");
    reveal_strlit("powershell");
    reveal_strlit("pwsh");
    assert("fish"@.len() == 4 && "bash"@.len() == 4 && "pwsh"@.len() == 4);
    assert("fish"@[0] == 'f' && "bash"@[0] == 'b' && "pwsh"@[0] == 'p');
    assert("zsh"@.len() == 3 && "nu"@.len() == 2 && "nushell"@.len() == 7);
    assert("powershell"@.len() == 10);
}

/// A push goes to the first cell that runs and, where a repository is asked
/// for, has that one; it goes nowhere where there is none.
pub proof fn law_push_to_first_cell(cells: Seq<LocalCell>, repo: Option<Seq<char>>, i: int)
    requires
        0 <= i <= cells.len(),
        forall|j: int|
            0 <= j < i ==> !(#[trigger] cells[j]).running || (repo is Some && (cells[j].repo is Some
                ==> trimmed(cells[j].repo->0@) != repo->0) && (cells[j].repo is None ==> repo->0.len()
                > 0)),
    ensures
        i < cells.len() && cells[i].running && (repo is None || (cells[i].repo is Some && trimmed(
            cells[i].repo->0@,
        ) == repo->0)) ==> serving(cells, repo) == Some(cells[i].name@),
        i == cells.len() ==> serving(cells, repo) is None,
    decreases i,
{
    if i > 0 {
        let rest = cells.drop_first();
        assert(!serves(cells[0], repo));
        assert forall|j: int| 0 <= j < i - 1 implies !(#[trigger] rest[j]).running || (repo is Some
            && (rest[j].repo is Some ==> trimmed(rest[j].repo->0@) != repo->0) && (rest[j].repo
            is None ==> repo->0.len() > 0)) by {
            assert(rest[j] == cells[j + 1]);
        }
        law_push_to_first_cell(rest, repo, i - 1);
    }
}

/// Cells are shown one after the other, as they come: what is shown of two
/// lists is what is shown of the one and then of the other.
pub proof fn law_rows_in_order(a: Seq<Row>, b: Seq<Row>, scene: ListScene)
    ensures
        shown_rows(a + b, scene) == shown_rows(a, scene) + shown_rows(b, scene),
    decreases b.len(),
{
    if b.len() == 0 {
        assert(a + b == a);
    } else {
        law_rows_in_order(a, b.drop_last(), scene);
        assert((a + b).drop_last() == a + b.drop_last());
    }
}

/// Of one cell, what is shown is what is known of it. It is left out only if
/// it belongs to another repository than the one asked for, and not all are
/// asked for; its label names its repository unless that is the one asked for.
/// How long its flow has run is shown while the flow runs or is paused.
pub proof fn law_row_shown(row: Row, scene: ListScene)
    ensures
        ({
            let other = row.repo is Some && scene.repo is Some && row.repo->0@ != scene.repo->0@;
            let own = row.repo is Some && scene.repo is Some && row.repo->0@ == scene.repo->0@;
            let rows = shown_rows(seq![row], scene);
            &&& rows.len() == (if other && !scene.all { 0int } else { 1 })
            &&& rows.len() == 1 ==> {
                let r = rows[0];
                &&& r.status == row.status@ && r.server == row.server@
                &&& r.current <==> (scene.branch is Some && scene.branch->0@ == row.name@)
                &&& row.repo is None || (own && !scene.all) ==> r.label == row.name@
                &&& row.repo is Some && (!own || scene.all) ==> r.label == row.repo->0@ + "/"@
                    + row.name@
                &&& row.flow is None ==> r.flow is None && r.elapsed is None
                &&& row.flow is Some ==> r.flow == Some(row.flow->0.flow_name@)
                &&& row.flow is Some ==> (r.elapsed is Some <==> row.flow->0.state@ == "running"@
                    || row.flow->0.state@ == "paused"@)
                &&& r.elapsed is Some && row.flow->0.started_at <= scene.now ==> r.elapsed == Some(
                    elapsed_words((scene.now - row.flow->0.started_at) as u64),
                )
                &&& row.status@ == "running"@ <==> r.tone == Tone::Green
                &&& row.status@ == "stopped"@ <==> r.tone == Tone::Red
            }
        }),
{
    let one = seq![row];
    law_tones_tell(row.status@);
    assert(one.drop_last() == Seq::<Row>::empty());
    assert(shown_rows(one.drop_last(), scene) == Seq::<ShownView>::empty());
    assert(one.last() == row);
}

/// The status of a cell says its name, its machine and its flow; of a flow it
/// says the name, the state, the op and, where any has passed, the time.
pub proof fn law_status_says(name: Seq<char>, status: Seq<char>, flow: FlowInfo, now: u64)
    ensures
        ({
            let none = status_lines(name, status, None, now);
            let some = status_lines(name, status, Some(flow), now);
            &&& none.len() == 3
            &&& none[0].label == "cell"@ && none[0].value == name
            &&& none[1].label == "vm"@ && none[1].value == status
            &&& none[2].label == "flow"@ && none[2].value == "none"@
            &&& some.len() == (if now > flow.started_at { 6int } else { 5 })
            &&& some[0] == none[0] && some[1] == none[1]
            &&& some[2].label == "flow"@ && some[2].value == flow.flow_name@
            &&& some[3].label == "state"@ && some[3].value == flow.state@
            &&& some[3].tone == Tone::Green <==> flow.state@ == "running"@
            &&& some[4].label == "op"@ && some[4].value == flow.current_op@
            &&& now > flow.started_at ==> some[5].label == "elapsed"@ && some[5].value
                == elapsed_words((now - flow.started_at) as u64)
        }),
{
    law_tones_tell(flow.state@);
}

/// The flow to go on with is the one whose status says that it is paused, and
/// none where the status says anything else or cannot be read.
pub proof fn law_paused_flow_found(status: Seq<char>, tree: Tree, flow: Seq<char>)
    ensures
        json_read(status) == Ok::<Tree, Seq<char>>(tree) && under(tree, "state"@) == Tree::Text(
            "paused"@,
        ) && under(tree, "flow_name"@) == Tree::Text(flow) ==> paused_in_text(Some(status)) == Some(
            flow,
        ),
        json_read(status) == Ok::<Tree, Seq<char>>(tree) && under(tree, "state"@) != Tree::Text(
            "paused"@,
        ) ==> paused_in_text(Some(status)) is None,
        json_read(status) is Err ==> paused_in_text(Some(status)) is None,
        paused_in_text(None) is None,
{
}

/// Parameters `key=value` reach the flow under their keys and in their order;
/// a value may hold the sign itself. The first that has no sign is refused,
/// and named.
pub proof fn law_params_read(keys: Seq<Seq<char>>, values: Seq<Seq<char>>, bad: Seq<char>)
    requires
        keys.len() == values.len(),
        forall|i: int| 0 <= i < keys.len() ==> !(#[trigger] keys[i]).contains('='),
        !bad.contains('='),
    ensures
        ({
            let given = Seq::new(keys.len(), |i: int| keys[i] + seq!['='] + values[i]);
            &&& params_in(given) == Ok::<Seq<(Seq<char>, Tree)>, Seq<char>>(
                Seq::new(keys.len(), |i: int| (keys[i], Tree::Text(values[i]))),
            )
            &&& params_in(given.push(bad)) == Err::<Seq<(Seq<char>, Tree)>, Seq<char>>(bad)
        }),
    decreases keys.len(),
{
    let given = Seq::new(keys.len(), |i: int| keys[i] + seq!['='] + values[i]);
    let read = Seq::new(keys.len(), |i: int| (keys[i], Tree::Text(values[i])));
    if keys.len() == 0 {
        assert(read == Seq::<(Seq<char>, Tree)>::empty());
    } else {
        let k = keys.drop_last();
        let v = values.drop_last();
        assert forall|i: int| 0 <= i < k.len() implies !(#[trigger] k[i]).contains('=') by {
            assert(k[i] == keys[i]);
        }
        law_params_read(k, v, bad);
        assert(given.drop_last() == Seq::new(k.len(), |i: int| k[i] + seq!['='] + v[i]));
        let front = Seq::new(k.len(), |i: int| (k[i], Tree::Text(v[i])));
        assert(!keys[keys.len() - 1].contains('='));
        law_cut_gives_back(keys.last(), '=', values.last());
        assert(given.last() == keys.last() + seq!['='] + values.last());
        assert(front.push((keys.last(), Tree::Text(values.last()))) == read);
    }
    law_cut_at_first(bad, '=');
    assert(given.push(bad).drop_last() == given);
}

} // verus!
