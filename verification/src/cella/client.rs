//! The client side of the control interface of a server.

use crate::cella::exec::{cella_hop, hop_line, quoted};
use crate::command::{arg, command, host_options, option, take_hosts};
use crate::json::{
    add_member, as_text, json_read, lemma_member_found, lemma_member_missing, members_of, object, parse, printed, render, text, text_under,
    under, Json, Number, Tree,
};
use crate::path::{below, parent, parent_of, strip_base};
use crate::text::basic::{after_prefix, contains, occurs, same, strip_prefix};
use crate::text::number::{decimal, decimal_text};
use crate::text::split::{lines, lines_of};
use vstd::prelude::*;

verus! {

/// The port of the control interface.
pub const CONTROL_PORT: u32 = 8082;

/// The seconds after which a request is given up.
pub const REQUEST_TIMEOUT: u64 = 300;

/// The answer about a cell that was to be started.
pub struct UpResponse {
    pub ok: bool,
    pub ip: Option<String>,
    pub error: Option<String>,
}

/// What is shown of a flow.
pub struct FlowInfo {
    pub flow_name: String,
    pub current_op: String,
    pub state: String,
    pub started_at: u64,
    pub op_started_at: u64,
}

/// A cell in a listing.
pub struct CellStatus {
    pub name: String,
    pub status: String,
    pub ip: Option<String>,
    pub repo: Option<String>,
    pub flow: Option<FlowInfo>,
}

/// A client of the server at `user_host`.
pub struct Client {
    user_host: String,
}

impl View for Client {
    type V = Seq<char>;

    /// Whom it is connected to.
    closed spec fn view(&self) -> Seq<char> {
        self.user_host@
    }
}

/// A request to the control interface.
pub struct Request {
    pub method: String,
    pub path: String,
    pub body: Option<String>,
}

/// A request to the control interface.
pub struct RequestView {
    pub method: Seq<char>,
    pub path: Seq<char>,
    pub body: Option<Seq<char>>,
}

impl View for Request {
    type V = RequestView;

    open spec fn view(&self) -> RequestView {
        RequestView { method: self.method@, path: self.path@, body: self.body.deep_view() }
    }
}

/// A request that posts a value.
pub open spec fn posts(path: Seq<char>, value: Tree) -> RequestView {
    RequestView { method: "POST"@, path, body: Some(printed(value)) }
}

fn post_to(path: &str, members: Vec<(String, Json)>) -> (r: Request)
    ensures
        r@ == posts(path@, Tree::Object(members_of(members@))),
{
    Request {
        method: "POST".to_string(),
        path: path.to_string(),
        body: Some(render(&object(members))),
    }
}

/// What names a cell.
pub open spec fn name_tree(name: Seq<char>) -> Tree {
    Tree::Object(seq![("name"@, Tree::Text(name))])
}

fn post_name(path: &str, name: &str) -> (r: Request)
    ensures
        r@ == posts(path@, name_tree(name@)),
{
    let mut m: Vec<(String, Json)> = Vec::new();
    assert(members_of(m@) == Seq::<(Seq<char>, Tree)>::empty());
    add_member(&mut m, "name", text(name));
    assert(members_of(m@) == name_tree(name@)->Object_0);
    post_to(path, m)
}

/// What a request to prepare a cell says.
pub open spec fn prepare_tree(name: Seq<char>, repo: Seq<char>, config: Tree) -> Tree {
    Tree::Object(
        seq![("name"@, Tree::Text(name)), ("repo"@, Tree::Text(repo)), ("config"@, config)],
    )
}

/// What a request to start a cell says.
pub open spec fn up_tree(name: Seq<char>, repo: Seq<char>, create: bool, config: Tree) -> Tree {
    Tree::Object(
        seq![
            ("name"@, Tree::Text(name)),
            ("repo"@, Tree::Text(repo)),
            ("create"@, Tree::Bool(create)),
            ("config"@, config),
        ],
    )
}

/// What a request to start a flow says.
pub open spec fn flow_tree(name: Seq<char>, flow: Seq<char>, params: Option<Seq<char>>) -> Tree {
    let members = seq![("name"@, Tree::Text(name)), ("flow"@, Tree::Text(flow))];
    Tree::Object(
        match params {
            Some(p) => members.push(("params"@, Tree::Text(p))),
            None => members,
        },
    )
}

/// A number without sign.
pub open spec fn whole_tree(n: u32) -> Tree {
    Tree::Number { whole: Some(n as u64), text: decimal(n as nat) }
}

/// What a request for the output of a flow says.
pub open spec fn logs_request_tree(name: Seq<char>, count: u32) -> Tree {
    Tree::Object(
        seq![
            ("name"@, Tree::Text(name)),
            ("follow"@, Tree::Bool(false)),
            ("lines"@, whole_tree(count)),
        ],
    )
}

/// The server says that all went well.
pub open spec fn says_ok(resp: Seq<char>) -> bool {
    occurs(resp, "\"ok\":true"@)
}

/// Whether the server says that all went well, and else the error, which
/// begins with `what`.
pub fn check_ok(resp: &str, what: &str) -> (r: Result<(), String>)
    ensures
        if says_ok(resp@) {
            r is Ok
        } else {
            r matches Err(e) && e@ == what@ + resp@
        },
{
    if contains(resp, "\"ok\":true") {
        Ok(())
    } else {
        let mut e = what.to_string();
        e.append(resp);
        Err(e)
    }
}

/// The error of a server.
pub const SERVER_ERROR: &'static str = "server error: ";

/// What follows when the cells were listed while the output of a flow is
/// followed.
#[derive(Clone, Copy, Debug, PartialEq, Eq, Structural)]
pub enum FollowNext {
    /// Get the output again, after two seconds.
    Again,
    /// Get the output a last time.
    Last,
    /// Nothing.
    Stop,
}

/// The first cell of the list called `name`.
pub open spec fn status_of(cells: Seq<CellStatus>, name: Seq<char>) -> Option<CellStatus>
    decreases cells.len(),
{
    if cells.len() == 0 {
        None
    } else if cells[0].name@ == name {
        Some(cells[0])
    } else {
        status_of(cells.drop_first(), name)
    }
}

/// The first cell of the list called `name`.
pub fn find_status<'a>(cells: &'a Vec<CellStatus>, name: &str) -> (r: Option<&'a CellStatus>)
    ensures
        match r {
            Some(c) => status_of(cells@, name@) == Some(*c),
            None => status_of(cells@, name@) is None,
        },
{
    let mut i: usize = 0;
    assert(cells@.skip(0) == cells@);
    while i < cells.len()
        invariant
            i <= cells.len(),
            status_of(cells@, name@) == status_of(cells@.skip(i as int), name@),
        decreases cells.len() - i,
    {
        assert(cells@.skip(i as int)[0] == cells@[i as int]);
        assert(cells@.skip(i as int).drop_first() == cells@.skip(i + 1));
        if same(&cells[i].name, name) {
            return Some(&cells[i]);
        }
        i += 1;
    }
    None
}

/// The list has a cell called `name` that runs.
pub open spec fn runs_in(cells: Seq<CellStatus>, name: Seq<char>) -> bool {
    exists|i: int|
        0 <= i < cells.len() && (#[trigger] cells[i]).name@ == name && cells[i].status@
            == "running"@
}

/// Whether the list has a cell called `name` that runs.
pub fn runs(cells: &Vec<CellStatus>, name: &str) -> (r: bool)
    ensures
        r == runs_in(cells@, name@),
{
    let mut i: usize = 0;
    while i < cells.len()
        invariant
            i <= cells.len(),
            forall|j: int|
                0 <= j < i ==> !((#[trigger] cells[j]).name@ == name@ && cells[j].status@
                    == "running"@),
        decreases cells.len() - i,
    {
        if same(&cells[i].name, name) && same(&cells[i].status, "running") {
            assert(cells@[i as int].name@ == name@);
            return true;
        }
        i += 1;
    }
    false
}

/// The lines of the output behind the first `seen`.
pub open spec fn unseen_lines(content: Seq<char>, seen: int) -> Seq<Seq<char>> {
    if lines_of(content).len() > seen {
        lines_of(content).skip(seen)
    } else {
        Seq::<Seq<char>>::empty()
    }
}

/// How many lines have been seen once those were shown.
pub open spec fn seen_after(content: Seq<char>, seen: int) -> int {
    if lines_of(content).len() > seen {
        lines_of(content).len() as int
    } else {
        seen
    }
}

/// What follows when the cells were listed.
pub open spec fn follow_after(cells: Seq<CellStatus>, name: Seq<char>) -> FollowNext {
    match status_of(cells, name) {
        None => FollowNext::Stop,
        Some(c) => match c.flow {
            None => FollowNext::Stop,
            Some(f) => if f.state@ == "running"@ || f.state@ == "paused"@ {
                FollowNext::Again
            } else {
                FollowNext::Last
            },
        },
    }
}

impl Client {
    /// The client for the server at `user_host`.
    pub fn connect(user_host: &str) -> (r: Self)
        ensures
            r@ == user_host@,
    {
        Client { user_host: user_host.to_string() }
    }

    /// Whom the client is connected to.
    pub fn user_host(&self) -> (r: &str)
        ensures
            r@ == self@,
    {
        self.user_host.as_str()
    }

    /// The request to prepare a cell; `config` is the configuration of its
    /// repository.
    pub fn prepare(name: &str, repo: &str, config: Json) -> (r: Request)
        ensures
            r@ == posts("/prepare"@, prepare_tree(name@, repo@, config.deep_view())),
    {
        let mut m: Vec<(String, Json)> = Vec::new();
        assert(members_of(m@) == Seq::<(Seq<char>, Tree)>::empty());
        add_member(&mut m, "name", text(name));
        add_member(&mut m, "repo", text(repo));
        add_member(&mut m, "config", config);
        assert(members_of(m@) == prepare_tree(name@, repo@, config.deep_view())->Object_0);
        post_to("/prepare", m)
    }

    /// The request to start a cell.
    pub fn up(name: &str, repo: &str, create: bool, config: Json) -> (r: Request)
        ensures
            r@ == posts("/up"@, up_tree(name@, repo@, create, config.deep_view())),
    {
        let mut m: Vec<(String, Json)> = Vec::new();
        assert(members_of(m@) == Seq::<(Seq<char>, Tree)>::empty());
        add_member(&mut m, "name", text(name));
        add_member(&mut m, "repo", text(repo));
        add_member(&mut m, "create", Json::Bool(create));
        add_member(&mut m, "config", config);
        assert(members_of(m@) == up_tree(name@, repo@, create, config.deep_view())->Object_0);
        post_to("/up", m)
    }

    /// The answer to a request to start a cell, where it was started.
    pub fn check_up(up: UpResponse) -> (r: Result<UpResponse, String>)
        ensures
            if up.ok {
                r == Ok::<UpResponse, String>(up)
            } else {
                r matches Err(e) && e@ == "server error: "@ + (match up.error {
                    Some(m) => m@,
                    None => Seq::<char>::empty(),
                })
            },
    {
        if up.ok {
            return Ok(up);
        }
        let mut e = "server error: ".to_string();
        match &up.error {
            Some(m) => e.append(m),
            None => e.append(""),
        }
        proof {
            reveal_strlit("");
            assert(""@ =~= Seq::<char>::empty());
        }
        Err(e)
    }

    /// The request to stop a cell.
    pub fn down(name: &str) -> (r: Request)
        ensures
            r@ == posts("/down"@, name_tree(name@)),
    {
        post_name("/down", name)
    }

    /// The request to delete a cell.
    pub fn delete(name: &str) -> (r: Request)
        ensures
            r@ == posts("/delete"@, name_tree(name@)),
    {
        post_name("/delete", name)
    }

    /// The request for a listing of the cells.
    pub fn list() -> (r: Request)
        ensures
            r@ == (RequestView { method: "GET"@, path: "/list"@, body: None }),
    {
        Request { method: "GET".to_string(), path: "/list".to_string(), body: None }
    }

    // Flow management

    /// The request to start a flow.
    pub fn flow_start(name: &str, flow: &str, params: Option<&str>) -> (r: Request)
        ensures
            r@ == posts("/flow/start"@, flow_tree(name@, flow@, params.deep_view())),
    {
        let mut m: Vec<(String, Json)> = Vec::new();
        assert(members_of(m@) == Seq::<(Seq<char>, Tree)>::empty());
        add_member(&mut m, "name", text(name));
        add_member(&mut m, "flow", text(flow));
        if let Some(p) = params {
            add_member(&mut m, "params", text(p));
        }
        assert(members_of(m@) == flow_tree(name@, flow@, params.deep_view())->Object_0);
        post_to("/flow/start", m)
    }

    /// The request to stop a flow.
    pub fn flow_stop(name: &str) -> (r: Request)
        ensures
            r@ == posts("/flow/stop"@, name_tree(name@)),
    {
        post_name("/flow/stop", name)
    }

    /// The request to pause a flow.
    pub fn flow_pause(name: &str) -> (r: Request)
        ensures
            r@ == posts("/flow/pause"@, name_tree(name@)),
    {
        post_name("/flow/pause", name)
    }

    /// The request for the last lines of the output of a flow.
    pub fn flow_logs(name: &str, count: u32) -> (r: Request)
        ensures
            r@ == posts("/flow/logs"@, logs_request_tree(name@, count)),
    {
        let mut m: Vec<(String, Json)> = Vec::new();
        assert(members_of(m@) == Seq::<(Seq<char>, Tree)>::empty());
        add_member(&mut m, "name", text(name));
        add_member(&mut m, "follow", Json::Bool(false));
        add_member(
            &mut m,
            "lines",
            Json::Number(Number { whole: Some(count as u64), text: decimal_text(count as u64) }),
        );
        assert(members_of(m@) == logs_request_tree(name@, count)->Object_0);
        post_to("/flow/logs", m)
    }

    /// The output of a flow in the answer of the server.
    pub fn logs_content(answer: &Json) -> (r: String)
        ensures
            r@ == (match as_text(under(answer.deep_view(), "content"@)) {
                Some(c) => c,
                None => Seq::<char>::empty(),
            }),
    {
        match text_under(answer, "content") {
            Some(c) => c,
            None => String::new(),
        }
    }

    /// The output of a flow in the text of the answer of the server.
    pub fn read_logs(resp: &str) -> (r: Result<String, String>)
        ensures
            match json_read(resp@) {
                Ok(t) => r matches Ok(c) && c@ == (match as_text(under(t, "content"@)) {
                    Some(c) => c,
                    None => Seq::<char>::empty(),
                }),
                Err(_) => r matches Err(e) && e@ == "bad flow logs response"@,
            },
    {
        match parse(resp) {
            Ok(answer) => Ok(Self::logs_content(&answer)),
            Err(_) => Err("bad flow logs response".to_string()),
        }
    }

    /// The lines of the output that have not been seen, and how many have been
    /// then. Output that became shorter has no such lines.
    pub fn flow_logs_follow(content: &str, seen: usize) -> (r: (Vec<String>, usize))
        ensures
            r.0.deep_view() == unseen_lines(content@, seen as int),
            r.1 == seen_after(content@, seen as int),
    {
        let all = lines(content);
        assert(all.deep_view().len() == lines_of(content@).len());
        let total: usize = all.len();
        if total > seen {
            (from_line(&all, seen), total)
        } else {
            let none: Vec<String> = Vec::new();
            assert(none.deep_view() == Seq::<Seq<char>>::empty());
            (none, seen)
        }
    }

    /// The lines of the output at its end that have not been seen.
    pub fn last_lines(content: &str, seen: usize) -> (r: Vec<String>)
        requires
            seen <= lines_of(content@).len(),
        ensures
            r.deep_view() == lines_of(content@).skip(seen as int),
    {
        let all = lines(content);
        assert(all.deep_view().len() == lines_of(content@).len());
        from_line(&all, seen)
    }

    /// What follows when the cells were listed: the output is followed while
    /// the flow runs or is paused.
    pub fn follow_next(cells: &Vec<CellStatus>, name: &str) -> (r: FollowNext)
        ensures
            r == follow_after(cells@, name@),
    {
        match find_status(cells, name) {
            None => FollowNext::Stop,
            Some(c) => match &c.flow {
                None => FollowNext::Stop,
                Some(f) => if same(&f.state, "running") || same(&f.state, "paused") {
                    FollowNext::Again
                } else {
                    FollowNext::Last
                },
            },
        }
    }

    /// The command that enters the cell `name`, or runs a command in it. The
    /// server is another hop.
    pub fn shell(&self, name: &str, cmd: Option<&str>) -> (r: Vec<String>)
        ensures
            r.deep_view() == shell_line(self@, name@, cmd.deep_view()),
    {
        let remote = match cmd {
            Some(c) => cella_hop(name, c),
            None => {
                let mut s = "cella shell --server ".to_string();
                s.append(name);
                s
            },
        };
        let mut r = command("ssh");
        arg(&mut r, "-t");
        arg(&mut r, "-A");
        take_hosts(&mut r);
        option(&mut r, "ServerAliveInterval=30");
        option(&mut r, "ServerAliveCountMax=3");
        arg(&mut r, &self.user_host);
        arg(&mut r, &remote);
        assert(r.deep_view() =~= shell_line(self@, name@, cmd.deep_view()));
        r
    }

    /// How a file of the user goes to the cell `name`: nothing where it does
    /// not lie in the home of the user.
    pub fn sync_files(name: &str, path: &str, home: &str) -> (r: SyncPlan)
        ensures
            r.local@ == local_path(path@, home@),
            match sync_part(path@, home@) {
                None => r.remote is None,
                Some(rel) => r.remote matches Some(f) && f.make_dir.deep_view() == (
                match parent_of(sync_dest(name@, rel)) {
                    Some(p) => Some("mkdir -p '"@ + p + "'"@),
                    None => None,
                }) && f.write@ == "cat > '"@ + sync_dest(name@, rel) + "'"@,
            },
    {
        let (local, rel) = match strip_prefix(path, "~/") {
            Some(rest) => {
                let mut local = home.to_string();
                local.append("/");
                local.append(&rest);
                (local, Some(rest))
            },
            None => (path.to_string(), strip_base(path, home)),
        };
        let remote = match rel {
            None => None,
            Some(rel) => {
                let mut dest = "/var/lib/cella/cells/".to_string();
                dest.append(name);
                dest.append("/sync/");
                dest.append(&rel);
                let make_dir = match parent(&dest) {
                    Some(p) => {
                        let mut c = "mkdir -p '".to_string();
                        c.append(&p);
                        c.append("'");
                        Some(c)
                    },
                    None => None,
                };
                let mut write = "cat > '".to_string();
                write.append(&dest);
                write.append("'");
                Some(SyncRemote { make_dir, write })
            },
        };
        SyncPlan { local, remote }
    }

    /// The command that gives the files to the user of the cell.
    pub fn own_synced(name: &str) -> (r: String)
        ensures
            r@ == "chown -R 1000:users /var/lib/cella/cells/"@ + name@ + "/sync/ 2>/dev/null"@,
    {
        let mut r = "chown -R 1000:users /var/lib/cella/cells/".to_string();
        r.append(name);
        r.append("/sync/ 2>/dev/null");
        r
    }
}

fn from_line(all: &Vec<String>, from: usize) -> (r: Vec<String>)
    requires
        from <= all.len(),
    ensures
        r.deep_view() == all.deep_view().skip(from as int),
{
    let ghost av = all.deep_view();
    let mut r: Vec<String> = Vec::new();
    let mut i: usize = from;
    assert(r.deep_view() == av.subrange(from as int, from as int));
    while i < all.len()
        invariant
            from <= i <= all.len(),
            av == all.deep_view(),
            r.deep_view() == av.subrange(from as int, i as int),
        decreases all.len() - i,
    {
        let ghost before = r.deep_view();
        r.push(all[i].clone());
        assert(r.deep_view() == before.push(av[i as int]));
        i += 1;
        assert(r.deep_view() == av.subrange(from as int, i as int));
    }
    r
}

/// The command line that enters a cell of the server at `target`.
pub open spec fn shell_line(target: Seq<char>, name: Seq<char>, cmd: Option<Seq<char>>) -> Seq<
    Seq<char>,
> {
    seq!["ssh"@, "-t"@, "-A"@] + host_options() + seq![
        "-o"@,
        "ServerAliveInterval=30"@,
        "-o"@,
        "ServerAliveCountMax=3"@,
        target,
        match cmd {
            Some(c) => hop_line(name, c),
            None => "cella shell --server "@ + name,
        },
    ]
}

/// How a file goes to a cell.
pub struct SyncPlan {
    /// The file of the user, to be left alone where it is missing.
    pub local: String,
    pub remote: Option<SyncRemote>,
}

/// What is done on the server for a file.
pub struct SyncRemote {
    pub make_dir: Option<String>,
    /// The command that takes the content of the file.
    pub write: String,
}

/// The file that a path names: `~/` stands for the home of the user.
pub open spec fn local_path(path: Seq<char>, home: Seq<char>) -> Seq<char> {
    match after_prefix(path, "~/"@) {
        Some(rest) => home + "/"@ + rest,
        None => path,
    }
}

/// The part of a path below the home of the user.
pub open spec fn sync_part(path: Seq<char>, home: Seq<char>) -> Option<Seq<char>> {
    match after_prefix(path, "~/"@) {
        Some(rest) => Some(rest),
        None => below(path, home),
    }
}

/// Where a file goes for the cell `name`.
pub open spec fn sync_dest(name: Seq<char>, rel: Seq<char>) -> Seq<char> {
    "/var/lib/cella/cells/"@ + name + "/sync/"@ + rel
}

/// Lines of the output are shown once and in order: where the output has only
/// become longer, what is shown of it before and after is what there is.
pub proof fn law_followed_lines_once(before: Seq<char>, after: Seq<char>, seen: int)
    requires
        0 <= seen,
        lines_of(before).is_prefix_of(lines_of(after)),
    ensures
        unseen_lines(before, seen) + unseen_lines(after, seen_after(before, seen)) == unseen_lines(
            after,
            seen,
        ),
        seen_after(after, seen_after(before, seen)) == seen_after(after, seen),
{
    let all = lines_of(before);
    let more = lines_of(after);
    if all.len() > seen {
        assert(more.take(all.len() as int) == all);
        assert(all.skip(seen) + more.skip(all.len() as int) == more.skip(seen));
        if more.len() == all.len() {
            assert(more.skip(all.len() as int) == Seq::<Seq<char>>::empty());
        }
    }
}

/// The request posts a value that says `value` under each of the names.
pub open spec fn says(
    request: RequestView,
    path: Seq<char>,
    said: Seq<(Seq<char>, Tree)>,
) -> bool {
    &&& request.method == "POST"@
    &&& request.path == path
    &&& exists|t: Tree|
        request.body == Some(#[trigger] printed(t)) && forall|i: int|
            0 <= i < said.len() ==> under(t, (#[trigger] said[i]).0) == said[i].1
}

/// Every request about a cell names it. The one to prepare a cell and the one
/// to start it name its repository besides and give the configuration; the one
/// to start a flow names the flow and hands its parameters on; the one for
/// output says how many lines.
pub proof fn law_requests_say(
    name: Seq<char>,
    repo: Seq<char>,
    create: bool,
    config: Tree,
    flow: Seq<char>,
    params: Option<Seq<char>>,
    count: u32,
    path: Seq<char>,
)
    ensures
        says(posts(path, name_tree(name)), path, seq![("name"@, Tree::Text(name))]),
        says(
            posts(path, prepare_tree(name, repo, config)),
            path,
            seq![("name"@, Tree::Text(name)), ("repo"@, Tree::Text(repo)), ("config"@, config)],
        ),
        says(
            posts(path, up_tree(name, repo, create, config)),
            path,
            seq![
                ("name"@, Tree::Text(name)),
                ("repo"@, Tree::Text(repo)),
                ("config"@, config),
                ("create"@, Tree::Bool(create)),
            ],
        ),
        says(
            posts(path, flow_tree(name, flow, params)),
            path,
            seq![
                ("name"@, Tree::Text(name)),
                ("flow"@, Tree::Text(flow)),
                (
                    "params"@,
                    match params {
                        Some(p) => Tree::Text(p),
                        None => Tree::Null,
                    },
                ),
            ],
        ),
        says(
            posts(path, logs_request_tree(name, count)),
            path,
            seq![
                ("name"@, Tree::Text(name)),
                ("follow"@, Tree::Bool(false)),
                ("lines"@, Tree::Number { whole: Some(count as u64), text: decimal(count as nat) }),
            ],
        ),
{
    reveal_strlit("name");
    reveal_strlit("repo");
    reveal_strlit("config");
    reveal_strlit("create");
    reveal_strlit("flow");
    reveal_strlit("params");
    reveal_strlit("follow");
    reveal_strlit("lines");
    assert("name"@[0] != "repo"@[0] && "name"@[0] != "flow"@[0]);
    assert("config"@[1] != "create"@[1]);
    assert("name"@[0] != "lines"@[0] && "follow"@[0] != "lines"@[0]);
    let n = name_tree(name)->Object_0;
    lemma_member_found(n, 0);
    assert(posts(path, name_tree(name)).body == Some(printed(name_tree(name))));
    let p = prepare_tree(name, repo, config)->Object_0;
    lemma_member_found(p, 0);
    lemma_member_found(p, 1);
    lemma_member_found(p, 2);
    assert(posts(path, prepare_tree(name, repo, config)).body == Some(
        printed(prepare_tree(name, repo, config)),
    ));
    let u = up_tree(name, repo, create, config)->Object_0;
    lemma_member_found(u, 0);
    lemma_member_found(u, 1);
    lemma_member_found(u, 2);
    lemma_member_found(u, 3);
    assert(posts(path, up_tree(name, repo, create, config)).body == Some(
        printed(up_tree(name, repo, create, config)),
    ));
    let f = flow_tree(name, flow, params)->Object_0;
    lemma_member_found(f, 0);
    lemma_member_found(f, 1);
    if params is Some {
        lemma_member_found(f, 2);
    } else {
        lemma_member_missing(f, "params"@);
    }
    assert(posts(path, flow_tree(name, flow, params)).body == Some(
        printed(flow_tree(name, flow, params)),
    ));
    let l = logs_request_tree(name, count)->Object_0;
    lemma_member_found(l, 0);
    lemma_member_found(l, 1);
    lemma_member_found(l, 2);
    assert(posts(path, logs_request_tree(name, count)).body == Some(
        printed(logs_request_tree(name, count)),
    ));
}

proof fn lemma_status_of(cells: Seq<CellStatus>, name: Seq<char>, i: int)
    requires
        0 <= i < cells.len(),
        cells[i].name@ == name,
        forall|k: int| 0 <= k < i ==> (#[trigger] cells[k]).name@ != name,
    ensures
        status_of(cells, name) == Some(cells[i]),
    decreases i,
{
    if i > 0 {
        let rest = cells.drop_first();
        assert(rest[i - 1] == cells[i]);
        assert forall|k: int| 0 <= k < i - 1 implies (#[trigger] rest[k]).name@ != name by {
            assert(rest[k] == cells[k + 1]);
        }
        lemma_status_of(rest, name, i - 1);
        assert(cells[0].name@ != name);
    }
}

proof fn lemma_no_status(cells: Seq<CellStatus>, name: Seq<char>)
    requires
        forall|k: int| 0 <= k < cells.len() ==> (#[trigger] cells[k]).name@ != name,
    ensures
        status_of(cells, name) is None,
    decreases cells.len(),
{
    if cells.len() > 0 {
        let rest = cells.drop_first();
        assert forall|k: int| 0 <= k < rest.len() implies (#[trigger] rest[k]).name@ != name by {
            assert(rest[k] == cells[k + 1]);
        }
        lemma_no_status(rest, name);
        assert(cells[0].name@ != name);
    }
}

/// The cell found by a name is the first that has it, and none is found where
/// no cell has it. The output of its flow is followed while that runs or is
/// paused, once more when it has ended, and not where there is no flow.
pub proof fn law_cell_followed(cells: Seq<CellStatus>, name: Seq<char>, i: int)
    requires
        0 <= i < cells.len() && cells[i].name@ == name || i == cells.len(),
        forall|k: int| 0 <= k < i ==> (#[trigger] cells[k]).name@ != name,
    ensures
        i == cells.len() ==> status_of(cells, name) is None && follow_after(cells, name)
            == FollowNext::Stop,
        i < cells.len() ==> status_of(cells, name) == Some(cells[i]),
        i < cells.len() ==> (follow_after(cells, name) == FollowNext::Again <==> (
        cells[i].flow matches Some(f) && (f.state@ == "running"@ || f.state@ == "paused"@))),
        i < cells.len() ==> (follow_after(cells, name) == FollowNext::Stop <==> cells[i].flow
            is None),
{
    if i < cells.len() {
        lemma_status_of(cells, name, i);
    } else {
        lemma_no_status(cells, name);
    }
}

/// A cell of a server is entered by a connection to that server which has the
/// server enter the cell by its name, for the command where there is one.
pub proof fn law_cell_entered_on_server(
    target: Seq<char>,
    name: Seq<char>,
    cmd: Option<Seq<char>>,
)
    ensures
        ({
            let line = shell_line(target, name, cmd);
            let n = line.len() as int;
            &&& line[0] == "ssh"@
            &&& line[n - 2] == target
            &&& cmd is None ==> line[n - 1] == "cella shell --server "@ + name
            &&& cmd matches Some(c) ==> line[n - 1] == "cella shell --server "@ + name + " -c "@
                + quoted(c)
        }),
{
}

/// A file of the user is taken from their home and goes below the directory of
/// the cell that is brought to its machine, at the same place.
pub proof fn law_file_synced(home: Seq<char>, rest: Seq<char>, name: Seq<char>)
    ensures
        local_path("~/"@ + rest, home) == home + "/"@ + rest,
        sync_part("~/"@ + rest, home) == Some(rest),
        rest.is_suffix_of(sync_dest(name, rest)),
        ("/var/lib/cella/cells/"@ + name + "/sync/"@).is_prefix_of(sync_dest(name, rest)),
{
    reveal_strlit("~/");
    let path = "~/"@ + rest;
    assert("~/"@.is_prefix_of(path));
    assert(path.skip(2) =~= rest);
    let dest = sync_dest(name, rest);
    let dir = "/var/lib/cella/cells/"@ + name + "/sync/"@;
    assert(dest.subrange(0, dir.len() as int) =~= dir);
    assert(dest.subrange(dest.len() - rest.len(), dest.len() as int) =~= rest);
}

/// A server says that all went well by the word for it, anywhere in its
/// answer; an answer without it is an error.
pub proof fn law_answer_read(before: Seq<char>, after: Seq<char>)
    ensures
        says_ok(before + "\"ok\":true"@ + after),
        !occurs(before, "\"ok\":true"@) ==> !says_ok(before),
{
    let s = before + "\"ok\":true"@ + after;
    let n = before.len() as int;
    assert(s.subrange(n, n + "\"ok\":true"@.len()) == "\"ok\":true"@);
    assert(crate::text::basic::occurs_at(s, "\"ok\":true"@, n));
}

/// A cell runs exactly where some entry with its name says that it does.
pub proof fn law_running_by_its_entry(
    cells: Seq<CellStatus>,
    more: Seq<CellStatus>,
    c: CellStatus,
    name: Seq<char>,
)
    ensures
        runs_in(seq![c], name) <==> c.name@ == name && c.status@ == "running"@,
        runs_in(cells + more, name) <==> runs_in(cells, name) || runs_in(more, name),
        !runs_in(Seq::<CellStatus>::empty(), name),
{
    let all = cells + more;
    assert(seq![c][0] == c);
    if runs_in(cells, name) {
        let i = choose|i: int|
            0 <= i < cells.len() && (#[trigger] cells[i]).name@ == name && cells[i].status@
                == "running"@;
        assert(all[i] == cells[i]);
    }
    if runs_in(more, name) {
        let i = choose|i: int|
            0 <= i < more.len() && (#[trigger] more[i]).name@ == name && more[i].status@
                == "running"@;
        assert(all[cells.len() + i] == more[i]);
    }
    if runs_in(all, name) {
        let i = choose|i: int|
            0 <= i < all.len() && (#[trigger] all[i]).name@ == name && all[i].status@
                == "running"@;
        if i < cells.len() {
            assert(cells[i] == all[i]);
        } else {
            assert(more[i - cells.len()] == all[i]);
        }
    }
}

/// Of the output, the lines behind those already seen are shown, and all of it
/// at first; nothing where there is no more.
pub proof fn law_unseen_lines_shown(content: Seq<char>, seen: int, i: int)
    requires
        0 <= seen,
    ensures
        unseen_lines(content, 0) == lines_of(content),
        seen >= lines_of(content).len() ==> unseen_lines(content, seen).len() == 0,
        seen <= i < lines_of(content).len() ==> unseen_lines(content, seen)[i - seen] == lines_of(
            content,
        )[i],
        seen <= lines_of(content).len() ==> seen_after(content, seen) == lines_of(content).len(),
        seen >= lines_of(content).len() ==> seen_after(content, seen) == seen,
{
    assert(lines_of(content).skip(0) == lines_of(content));
}

/// A path that does not begin at the home of the user is taken as it is, and
/// what lies below the home of it is what goes to the cell.
pub proof fn law_other_paths_as_they_are(path: Seq<char>, home: Seq<char>)
    requires
        !"~/"@.is_prefix_of(path),
    ensures
        local_path(path, home) == path,
        sync_part(path, home) == below(path, home),
{
}

/// A cell of a server is entered in a terminal, with the agent of the user and
/// with signs of life.
pub proof fn law_entered_in_terminal(target: Seq<char>, name: Seq<char>, cmd: Option<Seq<char>>)
    ensures
        ({
            let line = shell_line(target, name, cmd);
            &&& line[1] == "-t"@ && line[2] == "-A"@
            &&& line.contains("ServerAliveInterval=30"@) && line.contains(
                "ServerAliveCountMax=3"@,
            )
            &&& line.len() == 13
        }),
{
    let line = shell_line(target, name, cmd);
    assert(line[8] == "ServerAliveInterval=30"@);
    assert(line[10] == "ServerAliveCountMax=3"@);
}

} // verus!
