//! How cells are worked with: on this host, or on a server.

use crate::cella::client::{
    flow_tree, law_cell_entered_on_server, law_requests_say, logs_request_tree, name_tree, posts,
    prepare_tree, runs, runs_in, says, shell_line, up_tree, CellStatus, Client, Request,
    RequestView,
};
use crate::cella::proxy::{flow_detached, flow_script, FOLLOW_SCRIPT};
use crate::command::{arg, command};
use crate::json::{copy, printed, under, Json, Tree};
use crate::path::{repo_name, repo_name_of};
use crate::text::number::decimal;
use vstd::prelude::*;

verus! {

/// One thing done with a cell.
pub enum Work {
    /// Enter the cell on this host, or run the command in it.
    Enter { cell: String, command: Option<String> },
    /// Run this command line.
    Run(Vec<String>),
    /// Ask the server; where it does not say that all went well it is an error
    /// that begins with `failure`.
    Ask { request: Request, failure: String },
    /// Ask the server for the output of a flow and show it.
    Show(Request),
    /// Show the output of the flow of the cell as it comes.
    Follow { cell: String },
}

/// One thing done with a cell.
pub enum WorkView {
    Enter { cell: Seq<char>, command: Option<Seq<char>> },
    Run(Seq<Seq<char>>),
    Ask { request: RequestView, failure: Seq<char> },
    Show(RequestView),
    Follow { cell: Seq<char> },
}

impl View for Work {
    type V = WorkView;

    open spec fn view(&self) -> WorkView {
        match self {
            Work::Enter { cell, command } => WorkView::Enter {
                cell: cell@,
                command: command.deep_view(),
            },
            Work::Run(line) => WorkView::Run(line.deep_view()),
            Work::Ask { request, failure } => WorkView::Ask {
                request: request@,
                failure: failure@,
            },
            Work::Show(request) => WorkView::Show(request@),
            Work::Follow { cell } => WorkView::Follow { cell: cell@ },
        }
    }
}

/// One step on the way to a running cell.
pub enum BootStep {
    CreateBranch,
    /// Resolve the secrets of the repository.
    Secrets,
    /// Set up the clone.
    Clone,
    /// Start the machine for the repository of this name.
    Start { repo: String },
    /// Have the server prepare the cell.
    Prepare(Request),
    /// Push to this address from now on.
    Remote { url: String },
    /// Push; it is no error where that fails.
    Push(Vec<String>),
    /// Have the server start the cell.
    Up(Request),
    /// Bring the files of the user to the cell.
    Sync,
}

/// One step on the way to a running cell.
pub enum BootStepView {
    CreateBranch,
    Secrets,
    Clone,
    Start { repo: Seq<char> },
    Prepare(RequestView),
    Remote { url: Seq<char> },
    Push(Seq<Seq<char>>),
    Up(RequestView),
    Sync,
}

impl DeepView for BootStep {
    type V = BootStepView;

    open spec fn deep_view(&self) -> BootStepView {
        match self {
            BootStep::CreateBranch => BootStepView::CreateBranch,
            BootStep::Secrets => BootStepView::Secrets,
            BootStep::Clone => BootStepView::Clone,
            BootStep::Start { repo } => BootStepView::Start { repo: repo@ },
            BootStep::Prepare(r) => BootStepView::Prepare(r@),
            BootStep::Remote { url } => BootStepView::Remote { url: url@ },
            BootStep::Push(line) => BootStepView::Push(line.deep_view()),
            BootStep::Up(r) => BootStepView::Up(r@),
            BootStep::Sync => BootStepView::Sync,
        }
    }
}

/// What is seen of a cell and its repository.
pub struct Scene {
    /// The cell runs on this host.
    pub local_running: bool,
    /// The cells that the server lists.
    pub cells: Vec<CellStatus>,
    pub branch_exists: bool,
    /// The directory of the repository.
    pub repo_root: String,
    /// The configuration of the repository.
    pub config: Json,
    /// The user has files that go to every cell.
    pub has_sync: bool,
}

/// Where cells are worked with.
pub enum Site {
    Local,
    /// On the server that is connected to so.
    Remote(Seq<char>),
}

/// The cell runs.
pub open spec fn runs_at(site: Site, cell: Seq<char>, scene: Scene) -> bool {
    match site {
        Site::Local => scene.local_running,
        Site::Remote(_) => runs_in(scene.cells@, cell),
    }
}

/// The branch is created where it is missing.
pub open spec fn branch_first(exists: bool) -> Seq<BootStepView> {
    if exists {
        Seq::<BootStepView>::empty()
    } else {
        seq![BootStepView::CreateBranch]
    }
}

/// The steps on the way to a running cell: none where it runs.
pub open spec fn boot_steps(site: Site, cell: Seq<char>, scene: Scene) -> Seq<BootStepView> {
    let repo = repo_name_of(scene.repo_root@);
    if runs_at(site, cell, scene) {
        Seq::<BootStepView>::empty()
    } else {
        branch_first(scene.branch_exists) + match site {
            Site::Local => seq![
                BootStepView::Secrets,
                BootStepView::Clone,
                BootStepView::Start { repo },
            ],
            Site::Remote(host) => seq![
                BootStepView::Prepare(
                    posts("/prepare"@, prepare_tree(cell, repo, scene.config.deep_view())),
                ),
                BootStepView::Remote { url: "cella://"@ + host + "/"@ + cell },
                BootStepView::Push(seq!["git"@, "push"@, "cella"@, cell]),
                BootStepView::Up(
                    posts("/up"@, up_tree(cell, repo, false, scene.config.deep_view())),
                ),
            ] + (if scene.has_sync {
                seq![BootStepView::Sync]
            } else {
                Seq::<BootStepView>::empty()
            }),
        }
    }
}

/// The code is pushed before the cell is built from it, and the files of the
/// user come to a cell that has been started.
pub proof fn law_pushed_before_start(host: Seq<char>, cell: Seq<char>, scene: Scene)
    requires
        !runs_in(scene.cells@, cell),
    ensures
        ({
            let steps = boot_steps(Site::Remote(host), cell, scene);
            let n = branch_first(scene.branch_exists).len() as int;
            &&& steps[n] is Prepare
            &&& steps[n + 2] is Push
            &&& steps[n + 3] is Up
            &&& scene.has_sync ==> steps.last() is Sync
            &&& steps.len() == n + 4 + (if scene.has_sync {
                1int
            } else {
                0int
            })
        }),
{
}

/// A cell that runs is left alone. Else its branch is created where it is
/// missing. On this host its clone is set up before it is started for its
/// repository. A server is asked to prepare the cell and, when its code has
/// been pushed to its own address, to start it: both requests name the cell and
/// its repository and give the configuration.
pub proof fn law_cell_brought_up(site: Site, cell: Seq<char>, scene: Scene)
    ensures
        ({
            let steps = boot_steps(site, cell, scene);
            let n: int = if scene.branch_exists {
                0
            } else {
                1
            };
            let runs = match site {
                Site::Local => scene.local_running,
                Site::Remote(_) => runs_in(scene.cells@, cell),
            };
            let repo = repo_name_of(scene.repo_root@);
            let said = seq![
                ("name"@, Tree::Text(cell)),
                ("repo"@, Tree::Text(repo)),
                ("config"@, scene.config.deep_view()),
            ];
            &&& runs ==> steps.len() == 0
            &&& !runs && !scene.branch_exists ==> steps[0] is CreateBranch
            &&& !runs && site is Local ==> steps.len() == n + 3 && steps[n] is Secrets && steps[n + 1]
                is Clone && steps[n + 2] == (BootStepView::Start { repo })
            &&& !runs && site is Remote ==> (steps[n] matches BootStepView::Prepare(r) && says(
                r,
                "/prepare"@,
                said,
            )) && (steps[n + 1] matches BootStepView::Remote { url } && url == "cella://"@
                + site->Remote_0 + "/"@ + cell) && (steps[n + 2] matches BootStepView::Push(line)
                && line.last() == cell && line[0] == "git"@ && line[1] == "push"@) && (steps[n
                + 3] matches BootStepView::Up(r) && says(r, "/up"@, said))
        }),
{
    let repo = repo_name_of(scene.repo_root@);
    let config = scene.config.deep_view();
    law_requests_say(cell, repo, false, config, cell, None, 0, "/prepare"@);
    law_requests_say(cell, repo, false, config, cell, None, 0, "/up"@);
    if let Site::Remote(host) = site {
        if !runs_in(scene.cells@, cell) {
            let n: int = if scene.branch_exists {
                0
            } else {
                1
            };
            let steps = boot_steps(site, cell, scene);
            assert(steps[n + 3] == BootStepView::Up(
                posts("/up"@, up_tree(cell, repo, false, config)),
            ));
            let r = posts("/up"@, up_tree(cell, repo, false, config));
            let said4 = seq![
                ("name"@, Tree::Text(cell)),
                ("repo"@, Tree::Text(repo)),
                ("config"@, config),
                ("create"@, Tree::Bool(false)),
            ];
            let said = seq![
                ("name"@, Tree::Text(cell)),
                ("repo"@, Tree::Text(repo)),
                ("config"@, config),
            ];
            lemma_says_less(r, "/up"@, said4, said);
        }
    }
}

/// A request that says all of `more` says what it begins with.
proof fn lemma_says_less(
    request: RequestView,
    path: Seq<char>,
    more: Seq<(Seq<char>, Tree)>,
    said: Seq<(Seq<char>, Tree)>,
)
    requires
        says(request, path, more),
        said.len() <= more.len(),
        forall|i: int| 0 <= i < said.len() ==> said[i] == more[i],
    ensures
        says(request, path, said),
{
    let t = choose|t: Tree|
        request.body == Some(#[trigger] printed(t)) && forall|i: int|
            0 <= i < more.len() ==> under(t, (#[trigger] more[i]).0) == more[i].1;
    assert forall|i: int| 0 <= i < said.len() implies under(t, (#[trigger] said[i]).0)
        == said[i].1 by {
        assert(more[i] == said[i]);
    }
    assert(request.body == Some(printed(t)));
}

/// How a flow is started.
pub open spec fn flow_start_work(
    site: Site,
    cell: Seq<char>,
    flow: Seq<char>,
    params: Option<Seq<char>>,
) -> WorkView {
    match site {
        Site::Local => WorkView::Enter { cell, command: Some(flow_script(flow, params)) },
        Site::Remote(_) => WorkView::Ask {
            request: posts("/flow/start"@, flow_tree(cell, flow, params)),
            failure: "flow start failed: "@,
        },
    }
}

/// How a flow is stopped.
pub open spec fn flow_stop_work(site: Site, cell: Seq<char>) -> WorkView {
    match site {
        Site::Local => WorkView::Enter { cell, command: Some("cellx flow done"@) },
        Site::Remote(_) => WorkView::Ask {
            request: posts("/flow/stop"@, name_tree(cell)),
            failure: "flow stop failed: "@,
        },
    }
}

/// How a flow is paused.
pub open spec fn flow_pause_work(site: Site, cell: Seq<char>) -> WorkView {
    match site {
        Site::Local => WorkView::Enter { cell, command: Some("cellx flow pause"@) },
        Site::Remote(_) => WorkView::Ask {
            request: posts("/flow/pause"@, name_tree(cell)),
            failure: "flow pause failed: "@,
        },
    }
}

/// The script that shows the last lines of the output of a flow.
pub const TAIL_SCRIPT: &'static str =
    "tail -100 /tmp/cellx/flow.log 2>/dev/null || echo 'no flow log yet'";

/// How the output of a flow is shown.
pub open spec fn flow_logs_work(site: Site, cell: Seq<char>, follow: bool) -> WorkView {
    match site {
        Site::Local => WorkView::Enter {
            cell,
            command: Some(
                if follow {
                    FOLLOW_SCRIPT@
                } else {
                    TAIL_SCRIPT@
                },
            ),
        },
        Site::Remote(_) => if follow {
            WorkView::Follow { cell }
        } else {
            WorkView::Show(posts("/flow/logs"@, logs_request_tree(cell, 100)))
        },
    }
}

/// How a cell is entered.
pub open spec fn shell_work(site: Site, cell: Seq<char>, command: Option<Seq<char>>) -> WorkView {
    match site {
        Site::Local => WorkView::Enter { cell, command },
        Site::Remote(host) => WorkView::Run(shell_line(host, cell, command)),
    }
}

/// On this host a flow is started, stopped, paused and watched by entering its
/// cell; a server is asked to do it, by a request that names the cell. What is
/// started is the flow with its parameters, what stops a flow is not what
/// pauses it.
pub proof fn law_flows_worked_with(
    host: Seq<char>,
    cell: Seq<char>,
    flow: Seq<char>,
    params: Option<Seq<char>>,
)
    ensures
        ({
            let there = Site::Remote(host);
            let named = seq![("name"@, Tree::Text(cell))];
            let started = seq![
                ("name"@, Tree::Text(cell)),
                ("flow"@, Tree::Text(flow)),
                (
                    "params"@,
                    match params {
                        Some(p) => Tree::Text(p),
                        None => Tree::Null,
                    },
                ),
            ];
            &&& flow_start_work(Site::Local, cell, flow, params) == (WorkView::Enter {
                cell,
                command: Some(flow_script(flow, params)),
            })
            &&& flow_start_work(there, cell, flow, params) matches WorkView::Ask { request, .. }
            &&& says(request, "/flow/start"@, started)
        }),
        flow_stop_work(Site::Local, cell) == (WorkView::Enter {
            cell,
            command: Some("cellx flow done"@),
        }),
        flow_stop_work(Site::Remote(host), cell) matches WorkView::Ask { request, .. } && says(
            request,
            "/flow/stop"@,
            seq![("name"@, Tree::Text(cell))],
        ),
        flow_pause_work(Site::Local, cell) == (WorkView::Enter {
            cell,
            command: Some("cellx flow pause"@),
        }),
        flow_pause_work(Site::Remote(host), cell) matches WorkView::Ask { request, .. } && says(
            request,
            "/flow/pause"@,
            seq![("name"@, Tree::Text(cell))],
        ),
        flow_logs_work(Site::Remote(host), cell, true) == (WorkView::Follow { cell }),
        flow_logs_work(Site::Remote(host), cell, false) matches WorkView::Show(request) && says(
            request,
            "/flow/logs"@,
            seq![
                ("name"@, Tree::Text(cell)),
                ("follow"@, Tree::Bool(false)),
                ("lines"@, Tree::Number { whole: Some(100u64), text: decimal(100) }),
            ],
        ),
        shell_work(Site::Local, cell, params) == (WorkView::Enter { cell, command: params }),
        shell_work(Site::Remote(host), cell, params) matches WorkView::Run(line) && line[line.len()
            - 2] == host,
{
    law_requests_say(cell, cell, false, Tree::Null, flow, params, 100, "/flow/start"@);
    law_requests_say(cell, cell, false, Tree::Null, flow, params, 100, "/flow/stop"@);
    law_requests_say(cell, cell, false, Tree::Null, flow, params, 100, "/flow/pause"@);
    law_requests_say(cell, cell, false, Tree::Null, flow, params, 100, "/flow/logs"@);
    law_cell_entered_on_server(host, cell, params);
}

/// A way to work with cells.
pub trait Transport {
    /// Where they are worked with.
    spec fn site(&self) -> Site;

    /// Whether the cell runs.
    fn is_running(&self, cell: &str, scene: &Scene) -> (r: bool)
        ensures
            r == runs_at(self.site(), cell@, *scene),
    ;

    /// The steps on the way to a running cell.
    fn ensure_running(&self, cell: &str, scene: &Scene) -> (r: Vec<BootStep>)
        ensures
            r.deep_view() == boot_steps(self.site(), cell@, *scene),
    ;

    /// How the cell is entered, or a command run in it.
    fn shell(&self, cell: &str, command: Option<&str>) -> (r: Work)
        ensures
            r@ == shell_work(self.site(), cell@, command.deep_view()),
    ;

    /// How a flow is started.
    fn flow_start(&self, cell: &str, flow_name: &str, params: Option<&str>) -> (r: Work)
        ensures
            r@ == flow_start_work(self.site(), cell@, flow_name@, params.deep_view()),
    ;

    /// How the flow is stopped.
    fn flow_stop(&self, cell: &str) -> (r: Work)
        ensures
            r@ == flow_stop_work(self.site(), cell@),
    ;

    /// How the flow is paused.
    fn flow_pause(&self, cell: &str) -> (r: Work)
        ensures
            r@ == flow_pause_work(self.site(), cell@),
    ;

    /// How the output of the flow is shown, as it comes where `follow` says so.
    fn flow_logs(&self, cell: &str, follow: bool) -> (r: Work)
        ensures
            r@ == flow_logs_work(self.site(), cell@, follow),
    ;
}

fn boot_begin(exists: bool) -> (r: Vec<BootStep>)
    ensures
        r.deep_view() == branch_first(exists),
{
    let mut r: Vec<BootStep> = Vec::new();
    if !exists {
        r.push(BootStep::CreateBranch);
    }
    assert(r.deep_view() =~= branch_first(exists));
    r
}

fn then_step(steps: &mut Vec<BootStep>, step: BootStep)
    ensures
        final(steps).deep_view() == old(steps).deep_view().push(step.deep_view()),
{
    let ghost before = steps.deep_view();
    steps.push(step);
    assert(steps.deep_view() == before.push(step.deep_view()));
}

fn optional(s: Option<&str>) -> (r: Option<String>)
    ensures
        r.deep_view() == s.deep_view(),
{
    match s {
        Some(t) => Some(t.to_string()),
        None => None,
    }
}

/// Cells on this host.
pub struct LocalTransport;

impl Transport for LocalTransport {
    open spec fn site(&self) -> Site {
        Site::Local
    }

    fn is_running(&self, cell: &str, scene: &Scene) -> (r: bool) {
        scene.local_running
    }

    fn ensure_running(&self, cell: &str, scene: &Scene) -> (r: Vec<BootStep>) {
        if self.is_running(cell, scene) {
            let none: Vec<BootStep> = Vec::new();
            assert(none.deep_view() =~= Seq::<BootStepView>::empty());
            return none;
        }
        let mut r = boot_begin(scene.branch_exists);
        then_step(&mut r, BootStep::Secrets);
        then_step(&mut r, BootStep::Clone);
        then_step(&mut r, BootStep::Start { repo: repo_name(&scene.repo_root) });
        assert(r.deep_view() =~= boot_steps(self.site(), cell@, *scene));
        r
    }

    fn shell(&self, cell: &str, command: Option<&str>) -> (r: Work) {
        Work::Enter { cell: cell.to_string(), command: optional(command) }
    }

    fn flow_start(&self, cell: &str, flow_name: &str, params: Option<&str>) -> (r: Work) {
        Work::Enter { cell: cell.to_string(), command: Some(flow_detached(flow_name, params)) }
    }

    fn flow_stop(&self, cell: &str) -> (r: Work) {
        Work::Enter { cell: cell.to_string(), command: Some("cellx flow done".to_string()) }
    }

    fn flow_pause(&self, cell: &str) -> (r: Work) {
        Work::Enter { cell: cell.to_string(), command: Some("cellx flow pause".to_string()) }
    }

    fn flow_logs(&self, cell: &str, follow: bool) -> (r: Work) {
        let script = if follow {
            FOLLOW_SCRIPT.to_string()
        } else {
            TAIL_SCRIPT.to_string()
        };
        Work::Enter { cell: cell.to_string(), command: Some(script) }
    }
}

/// Cells on a server.
pub struct RemoteTransport {
    pub client: Client,
}

impl Transport for RemoteTransport {
    open spec fn site(&self) -> Site {
        Site::Remote(self.client@)
    }

    fn is_running(&self, cell: &str, scene: &Scene) -> (r: bool) {
        runs(&scene.cells, cell)
    }

    fn ensure_running(&self, cell: &str, scene: &Scene) -> (r: Vec<BootStep>) {
        if self.is_running(cell, scene) {
            let none: Vec<BootStep> = Vec::new();
            assert(none.deep_view() =~= Seq::<BootStepView>::empty());
            return none;
        }
        let repo = repo_name(&scene.repo_root);
        let mut url = "cella://".to_string();
        url.append(self.client.user_host());
        url.append("/");
        url.append(cell);
        let mut push = command("git");
        arg(&mut push, "push");
        arg(&mut push, "cella");
        arg(&mut push, cell);
        assert(push.deep_view() =~= seq!["git"@, "push"@, "cella"@, cell@]);
        let mut r = boot_begin(scene.branch_exists);
        then_step(&mut r, BootStep::Prepare(Client::prepare(cell, &repo, copy(&scene.config))));
        then_step(&mut r, BootStep::Remote { url });
        then_step(&mut r, BootStep::Push(push));
        then_step(&mut r, BootStep::Up(Client::up(cell, &repo, false, copy(&scene.config))));
        if scene.has_sync {
            then_step(&mut r, BootStep::Sync);
        }
        assert(r.deep_view() =~= boot_steps(self.site(), cell@, *scene));
        r
    }

    fn shell(&self, cell: &str, command: Option<&str>) -> (r: Work) {
        Work::Run(self.client.shell(cell, command))
    }

    fn flow_start(&self, cell: &str, flow_name: &str, params: Option<&str>) -> (r: Work) {
        Work::Ask {
            request: Client::flow_start(cell, flow_name, params),
            failure: "flow start failed: ".to_string(),
        }
    }

    fn flow_stop(&self, cell: &str) -> (r: Work) {
        Work::Ask { request: Client::flow_stop(cell), failure: "flow stop failed: ".to_string() }
    }

    fn flow_pause(&self, cell: &str) -> (r: Work) {
        Work::Ask { request: Client::flow_pause(cell), failure: "flow pause failed: ".to_string() }
    }

    fn flow_logs(&self, cell: &str, follow: bool) -> (r: Work) {
        if follow {
            Work::Follow { cell: cell.to_string() }
        } else {
            Work::Show(Client::flow_logs(cell, 100))
        }
    }
}

/// What is said where a server refuses says what was asked of it.
pub proof fn law_refusals_said(
    host: Seq<char>,
    cell: Seq<char>,
    flow: Seq<char>,
    params: Option<Seq<char>>,
)
    ensures
        flow_start_work(Site::Remote(host), cell, flow, params) matches WorkView::Ask {
            failure,
            ..
        } && failure == "flow start failed: "@,
        flow_stop_work(Site::Remote(host), cell) matches WorkView::Ask { failure, .. } && failure
            == "flow stop failed: "@,
        flow_pause_work(Site::Remote(host), cell) matches WorkView::Ask { failure, .. } && failure
            == "flow pause failed: "@,
{
}

/// On this host the output of a flow is shown by entering its cell: as it
/// comes, or its last lines.
pub proof fn law_output_shown_here(cell: Seq<char>)
    ensures
        flow_logs_work(Site::Local, cell, true) == (WorkView::Enter {
            cell,
            command: Some(FOLLOW_SCRIPT@),
        }),
        flow_logs_work(Site::Local, cell, false) == (WorkView::Enter {
            cell,
            command: Some(
                "tail -100 /tmp/cellx/flow.log 2>/dev/null || echo 'no flow log yet'"@,
            ),
        }),
{
}

/// A server is asked to start a cell that it has prepared, not to create one;
/// the push goes to the remote that was set before, and the files of the user
/// follow where there are some.
pub proof fn law_prepared_cell_started(host: Seq<char>, cell: Seq<char>, scene: Scene)
    requires
        !runs_in(scene.cells@, cell),
    ensures
        ({
            let steps = boot_steps(Site::Remote(host), cell, scene);
            let n: int = if scene.branch_exists {
                0
            } else {
                1
            };
            &&& steps[n + 2] == BootStepView::Push(seq!["git"@, "push"@, "cella"@, cell])
            &&& steps[n + 3] matches BootStepView::Up(r) && says(
                r,
                "/up"@,
                seq![
                    ("name"@, Tree::Text(cell)),
                    ("repo"@, Tree::Text(repo_name_of(scene.repo_root@))),
                    ("config"@, scene.config.deep_view()),
                    ("create"@, Tree::Bool(false)),
                ],
            )
        }),
        boot_steps(Site::Remote(host), cell, scene).contains(BootStepView::Sync) <==> scene.has_sync,
{
    let repo = repo_name_of(scene.repo_root@);
    let steps = boot_steps(Site::Remote(host), cell, scene);
    law_requests_say(cell, repo, false, scene.config.deep_view(), cell, None, 0, "/up"@);
    if scene.has_sync {
        assert(steps[steps.len() - 1] is Sync);
    }
}

} // verus!
