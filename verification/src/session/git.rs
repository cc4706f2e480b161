//! Repositories and their clones.

use crate::command::{arg, command};
use crate::path::{join, joined_path};
use crate::session::cell::{cell_dir, cell_repo_dir, dir_of};
use crate::session::config::NucleusConfig;
use crate::text::basic::{
    contains, lemma_begins, lemma_ends, lemma_field, lemma_occurs_longer, occurs, same, trim, trimmed,
};
use crate::text::number::{decimal, decimal_text};
use crate::text::order::{ordered, sort};
use vstd::prelude::*;

verus! {

/// A repository.
pub struct Repo {
    root: String,
}

impl View for Repo {
    type V = Seq<char>;

    /// The directory of the repository.
    closed spec fn view(&self) -> Seq<char> {
        self.root@
    }
}

/// The directory for the clones of a repository: in the data directory of the
/// user, under the hash of the repository.
pub open spec fn data_dir_of(xdg: Option<Seq<char>>, home: Seq<char>, hash: Seq<char>) -> Seq<char> {
    joined_path(
        joined_path(
            match xdg {
                Some(d) => d,
                None => joined_path(home, ".local/share"@),
            },
            "cella"@,
        ),
        hash,
    )
}

/// The directory for the clones of a repository.
pub fn data_dir(xdg: Option<&str>, home: &str, hash: &str) -> (r: String)
    ensures
        r@ == data_dir_of(xdg.deep_view(), home@, hash@),
{
    let base = match xdg {
        Some(d) => d.to_string(),
        None => join(home, ".local/share"),
    };
    join(&join(&base, "cella"), hash)
}

/// What becomes of a remote that was to be added.
pub enum RemoteStep {
    /// It stands.
    Done,
    /// It was there already: run this command to change it.
    Change(Vec<String>),
    /// It could not be added.
    Fail(String),
}

/// The commands that set a clone up, each to be run only if the one before
/// went well.
pub open spec fn clone_lines(root: Seq<char>, clone: Seq<char>, name: Seq<char>) -> Seq<
    Seq<Seq<char>>,
> {
    seq![
        seq!["git"@, "init"@, clone],
        seq!["git"@, "-C"@, clone, "remote"@, "add"@, "origin"@, root],
        seq!["git"@, "-C"@, clone, "fetch"@, "origin"@, name],
        seq!["git"@, "-C"@, clone, "checkout"@, "-b"@, name, "origin/"@ + name],
        seq!["git"@, "-C"@, clone, "config"@, "receive.denyCurrentBranch"@, "updateInstead"@],
    ]
}

/// The names that are those of clones: all but the one for what is known of
/// them.
pub open spec fn clone_names(names: Seq<Seq<char>>) -> Seq<Seq<char>> {
    names.filter(|n: Seq<char>| n != "meta"@)
}

/// No cell runs.
pub struct NoActiveCell;

impl NoActiveCell {
    /// The error in words.
    pub fn message(&self) -> (r: String)
        ensures
            r@ == "no active cell — use 'cella up' first"@,
    {
        "no active cell — use 'cella up' first".to_string()
    }
}

/// The first of the clones that runs.
pub open spec fn first_running(clones: Seq<(Seq<char>, bool)>) -> Option<Seq<char>>
    decreases clones.len(),
{
    if clones.len() == 0 {
        None
    } else if clones[0].1 {
        Some(clones[0].0)
    } else {
        first_running(clones.drop_first())
    }
}

/// The cell that is meant: that of the branch, or else the first that runs.
pub open spec fn running_cell(branch: Seq<char>, running: bool, clones: Seq<(Seq<char>, bool)>) -> Option<
    Seq<char>,
> {
    if running {
        Some(branch)
    } else {
        first_running(clones)
    }
}

impl Repo {
    /// The repository, from what `git rev-parse --show-toplevel` prints.
    pub fn open(output: &str) -> (r: Self)
        ensures
            r@ == trimmed(output@),
    {
        Repo { root: trim(output) }
    }

    /// The directory of the repository.
    pub fn root(&self) -> (r: &str)
        ensures
            r@ == self@,
    {
        self.root.as_str()
    }

    /// The current branch, from what `git branch --show-current` prints.
    pub fn current_branch(output: &str) -> (r: String)
        ensures
            r@ == trimmed(output@),
    {
        trim(output)
    }

    /// The command that says whether the branch `name` exists.
    pub fn branch_exists(name: &str) -> (r: Vec<String>)
        ensures
            r.deep_view() == seq![
                "git"@,
                "show-ref"@,
                "--verify"@,
                "--quiet"@,
                "refs/heads/"@ + name@,
            ],
    {
        let mut reference = "refs/heads/".to_string();
        reference.append(name);
        let mut r = command("git");
        arg(&mut r, "show-ref");
        arg(&mut r, "--verify");
        arg(&mut r, "--quiet");
        arg(&mut r, &reference);
        r
    }

    /// The command that creates the branch `name`.
    pub fn create_branch(name: &str) -> (r: Vec<String>)
        ensures
            r.deep_view() == seq!["git"@, "branch"@, name@],
    {
        let mut r = command("git");
        arg(&mut r, "branch");
        arg(&mut r, name);
        r
    }

    /// The command that deletes the branch `name`.
    pub fn delete_branch(name: &str) -> (r: Vec<String>)
        ensures
            r.deep_view() == seq!["git"@, "branch"@, "-D"@, name@],
    {
        let mut r = command("git");
        arg(&mut r, "branch");
        arg(&mut r, "-D");
        arg(&mut r, name);
        r
    }

    /// The command that adds the remote `cella`.
    pub fn remote_line(url: &str) -> (r: Vec<String>)
        ensures
            r.deep_view() == seq!["git"@, "remote"@, "add"@, "cella"@, url@],
    {
        let mut r = command("git");
        arg(&mut r, "remote");
        arg(&mut r, "add");
        arg(&mut r, "cella");
        arg(&mut r, url);
        r
    }

    /// What becomes of the remote after that command: where there is one
    /// already it is changed.
    pub fn add_cella_remote(url: &str, success: bool, stderr: &str) -> (r: RemoteStep)
        ensures
            if success {
                r is Done
            } else if occurs(stderr@, "already exists"@) {
                r matches RemoteStep::Change(line) && line.deep_view() == seq![
                    "git"@,
                    "remote"@,
                    "set-url"@,
                    "cella"@,
                    url@,
                ]
            } else {
                r matches RemoteStep::Fail(m) && m@ == "failed to add cella remote: "@ + stderr@
            },
    {
        if success {
            RemoteStep::Done
        } else if contains(stderr, "already exists") {
            let mut line = command("git");
            arg(&mut line, "remote");
            arg(&mut line, "set-url");
            arg(&mut line, "cella");
            arg(&mut line, url);
            RemoteStep::Change(line)
        } else {
            let mut m = "failed to add cella remote: ".to_string();
            m.append(stderr);
            RemoteStep::Fail(m)
        }
    }

    /// The clone of the branch `name`, in the directory for clones.
    pub fn clone_path(data_dir: &str, name: &str) -> (r: String)
        ensures
            r@ == joined_path(data_dir@, name@),
    {
        join(data_dir, name)
    }

    /// The commands that set up the clone of the branch `name`. Nothing is to
    /// be done where it is there.
    pub fn init_clone(&self, clone: &str, exists: bool, name: &str) -> (r: Option<
        Vec<Vec<String>>,
    >)
        ensures
            r.deep_view() == (if exists {
                None
            } else {
                Some(clone_lines(self@, clone@, name@))
            }),
    {
        if exists {
            return None;
        }
        let mut init = command("git");
        arg(&mut init, "init");
        arg(&mut init, clone);
        let mut remote = in_clone(clone);
        arg(&mut remote, "remote");
        arg(&mut remote, "add");
        arg(&mut remote, "origin");
        arg(&mut remote, &self.root);
        let mut fetch = in_clone(clone);
        arg(&mut fetch, "fetch");
        arg(&mut fetch, "origin");
        arg(&mut fetch, name);
        let mut checkout = in_clone(clone);
        let mut upstream = "origin/".to_string();
        upstream.append(name);
        arg(&mut checkout, "checkout");
        arg(&mut checkout, "-b");
        arg(&mut checkout, name);
        arg(&mut checkout, &upstream);
        let config = accept_pushes(clone);
        let r = vec![init, remote, fetch, checkout, config];
        assert(r.deep_view() =~~= clone_lines(self@, clone@, name@));
        Some(r)
    }

    /// The command that removes a clone, where it is there.
    pub fn remove_clone(clone: &str, exists: bool) -> (r: Option<Vec<String>>)
        ensures
            r.deep_view() == (if exists {
                Some(seq!["sudo"@, "rm"@, "-rf"@, clone@])
            } else {
                None
            }),
    {
        if !exists {
            return None;
        }
        let mut r = command("sudo");
        arg(&mut r, "rm");
        arg(&mut r, "-rf");
        arg(&mut r, clone);
        Some(r)
    }

    /// The clones of a repository, by name; `names` are the directories there
    /// are.
    pub fn list_clones(names: &Vec<String>) -> (r: Vec<String>)
        ensures
            ordered(r.deep_view()),
            r.deep_view().to_multiset() == clone_names(names.deep_view()).to_multiset(),
    {
        let ghost all = names.deep_view();
        let ghost keep = |n: Seq<char>| n != "meta"@;
        let mut kept: Vec<String> = Vec::new();
        let mut i: usize = 0;
        assert(kept.deep_view() == all.take(0).filter(keep)) by {
            reveal(Seq::filter);
        }
        while i < names.len()
            invariant
                i <= names.len(),
                all == names.deep_view(),
                keep == (|n: Seq<char>| n != "meta"@),
                kept.deep_view() == all.take(i as int).filter(keep),
            decreases names.len() - i,
        {
            let ghost before = kept.deep_view();
            assert(all.take(i + 1).drop_last() == all.take(i as int));
            assert(all.take(i + 1).last() == names[i as int]@);
            if !same(&names[i], "meta") {
                kept.push(names[i].clone());
                assert(kept.deep_view() == before.push(names[i as int]@));
            }
            assert(kept.deep_view() == all.take(i + 1).filter(keep)) by {
                reveal(Seq::filter);
            }
            i += 1;
        }
        assert(all.take(all.len() as int) == all);
        sort(kept)
    }

    /// The repository of the cell that is meant: that of the current branch,
    /// where it runs, or else the first of the clones that runs.
    pub fn resolve_cell_path(branch: &str, running: bool, clones: &Vec<(String, bool)>) -> (r:
        Result<String, NoActiveCell>)
        ensures
            match running_cell(branch@, running, clones.deep_view()) {
                Some(name) => r matches Ok(p) && p@ == joined_path(dir_of(name), "repo"@),
                None => r is Err,
            },
    {
        if running {
            return Ok(cell_repo_dir(branch));
        }
        let ghost all = clones.deep_view();
        let mut i: usize = 0;
        assert(all.skip(0) == all);
        while i < clones.len()
            invariant
                i <= clones.len(),
                all == clones.deep_view(),
                first_running(all) == first_running(all.skip(i as int)),
                !running,
            decreases clones.len() - i,
        {
            assert(all.skip(i as int)[0] == all[i as int]);
            assert(all.skip(i as int).drop_first() == all.skip(i + 1));
            if clones[i].1 {
                return Ok(cell_repo_dir(&clones[i].0));
            }
            i += 1;
        }
        Err(NoActiveCell)
    }
}

fn in_clone(clone: &str) -> (r: Vec<String>)
    ensures
        r.deep_view() == seq!["git"@, "-C"@, clone@],
{
    let mut r = command("git");
    arg(&mut r, "-C");
    arg(&mut r, clone);
    r
}

fn accept_pushes(clone: &str) -> (r: Vec<String>)
    ensures
        r.deep_view() == seq![
            "git"@,
            "-C"@,
            clone@,
            "config"@,
            "receive.denyCurrentBranch"@,
            "updateInstead"@,
        ],
{
    let mut r = in_clone(clone);
    arg(&mut r, "config");
    arg(&mut r, "receive.denyCurrentBranch");
    arg(&mut r, "updateInstead");
    r
}

// Hooks of a clone

pub const NUCLEUS_HEAD: &'static str = r#"#!/bin/sh
diff=$(git diff --cached)
if [ -z "$diff" ]; then exit 0; fi
echo "$diff" | sudo su -s /bin/sh nucleus -c '
  export HTTP_PROXY="http://${CELLA_BRIDGE:-192.168.83.1}:"#;

pub const NUCLEUS_PROXY: &'static str = r#""
  export HTTPS_PROXY="$HTTP_PROXY"
  export http_proxy="$HTTP_PROXY"
  export https_proxy="$HTTP_PROXY"
  "#;

/// The hook that has commits looked at before they are made.
pub open spec fn nucleus_script(cmd: Seq<char>, port: u16) -> Seq<char> {
    NUCLEUS_HEAD@ + decimal(port as nat) + NUCLEUS_PROXY@ + cmd + "\n'\n"@
}

/// A script and where it goes.
pub struct HookFile {
    pub dir: String,
    pub path: String,
    pub script: String,
}

/// The hook that has the commits of a clone looked at, where somebody looks.
pub fn install_nucleus_hook(clone: &str, nucleus: &NucleusConfig) -> (r: Option<HookFile>)
    ensures
        match nucleus.command {
            None => r is None,
            Some(cmd) => r matches Some(h) && h.dir@ == joined_path(clone@, ".git/hooks"@)
                && h.path@ == joined_path(joined_path(clone@, ".git/hooks"@), "pre-commit"@)
                && h.script@ == nucleus_script(
                cmd@,
                match nucleus.proxy_port {
                    Some(p) => p,
                    None => 8083,
                },
            ),
        },
{
    match &nucleus.command {
        None => None,
        Some(cmd) => {
            let port: u16 = match nucleus.proxy_port {
                Some(p) => p,
                None => 8083,
            };
            let mut script = NUCLEUS_HEAD.to_string();
            script.append(&decimal_text(port as u64));
            script.append(NUCLEUS_PROXY);
            script.append(cmd);
            script.append("\n'\n");
            let dir = join(clone, ".git/hooks");
            Some(HookFile { path: join(&dir, "pre-commit"), dir, script })
        },
    }
}

/// The hook that gives what is pushed to a clone to the user of the cell.
pub fn install_chown_hook(clone: &str) -> (r: HookFile)
    ensures
        r.dir@ == joined_path(clone@, ".git/hooks"@),
        r.path@ == joined_path(joined_path(clone@, ".git/hooks"@), "post-receive"@),
        r.script@ == "#!/bin/sh\nchown -R 1000:users \""@ + clone@ + "\"\n"@,
{
    let mut script = "#!/bin/sh\nchown -R 1000:users \"".to_string();
    script.append(clone);
    script.append("\"\n");
    let dir = join(clone, ".git/hooks");
    HookFile { path: join(&dir, "post-receive"), dir, script }
}

// Clones on a server, which live in the directories of their cells

/// The clone of the cell `name` on its server.
pub fn server_clone_path(name: &str) -> (r: String)
    ensures
        r@ == joined_path(dir_of(name@), "repo"@),
{
    cell_repo_dir(name)
}

/// What is done to set up the clone of a cell on its server, in this order.
pub struct ServerClone {
    /// Remove what was left of an earlier one.
    pub clean: bool,
    /// Make these directories.
    pub dirs: Vec<String>,
    /// Run these commands; where one fails, remove the clone and fail.
    pub commands: Vec<Vec<String>>,
    /// Give all to the user of the cell.
    pub own: Vec<String>,
}

/// The commands that set up the clone of a cell on its server.
pub open spec fn server_clone_lines(clone: Seq<char>, name: Seq<char>) -> Seq<Seq<Seq<char>>> {
    seq![
        seq!["git"@, "init"@, clone],
        seq!["git"@, "-C"@, clone, "checkout"@, "-b"@, name],
        seq!["git"@, "-C"@, clone, "config"@, "receive.denyCurrentBranch"@, "updateInstead"@],
    ]
}

/// What is done to set up the clone of the cell `name` on its server. Nothing
/// is to be done where it is a repository already.
pub fn init_clone_server(name: &str, is_repo: bool, exists: bool) -> (r: Option<ServerClone>)
    ensures
        r is None <==> is_repo,
        r matches Some(p) ==> {
            let clone = joined_path(dir_of(name@), "repo"@);
            &&& p.clean == exists
            &&& p.dirs.deep_view() == seq![dir_of(name@), clone]
            &&& p.commands.deep_view() == server_clone_lines(clone, name@)
            &&& p.own.deep_view() == seq!["chown"@, "-R"@, "1000:users"@, dir_of(name@)]
        },
{
    if is_repo {
        return None;
    }
    let clone = server_clone_path(name);
    let dir = cell_dir(name);
    let mut init = command("git");
    arg(&mut init, "init");
    arg(&mut init, &clone);
    let mut checkout = in_clone(&clone);
    arg(&mut checkout, "checkout");
    arg(&mut checkout, "-b");
    arg(&mut checkout, name);
    let config = accept_pushes(&clone);
    let commands = vec![init, checkout, config];
    assert(commands.deep_view() =~~= server_clone_lines(clone@, name@));
    let mut own = command("chown");
    arg(&mut own, "-R");
    arg(&mut own, "1000:users");
    arg(&mut own, &dir);
    let dirs = vec![dir, clone];
    assert(dirs.deep_view() =~= seq![dir@, clone@]);
    Some(ServerClone { clean: exists, dirs, commands, own })
}

/// The beginning of the error where a command for a clone fails; the command
/// follows.
pub fn clone_failure(server: bool, name: &str) -> (r: String)
    ensures
        r@ == (if server {
            "failed to init server clone for '"@
        } else {
            "failed to init clone for '"@
        }) + name@ + "': git "@,
{
    let mut r = if server {
        "failed to init server clone for '".to_string()
    } else {
        "failed to init clone for '".to_string()
    };
    r.append(name);
    r.append("': git ");
    r
}

/// A clone is made of its own repository and branch: it is initialized, gets
/// the repository as its origin, fetches the branch, checks it out under its
/// own name, and takes pushes. Every command after the first is run in it.
pub proof fn law_clone_of_branch(root: Seq<char>, clone: Seq<char>, name: Seq<char>, i: int)
    ensures
        ({
            let lines = clone_lines(root, clone, name);
            &&& lines.len() == 5
            &&& lines[0] == seq!["git"@, "init"@, clone]
            &&& 1 <= i < 5 ==> lines[i].subrange(0, 3) == seq!["git"@, "-C"@, clone]
            &&& lines[1].skip(3) == seq!["remote"@, "add"@, "origin"@, root]
            &&& lines[2].skip(3) == seq!["fetch"@, "origin"@, name]
            &&& lines[3].skip(3) == seq!["checkout"@, "-b"@, name, "origin/"@ + name]
            &&& lines[4].skip(3) == seq![
                "config"@,
                "receive.denyCurrentBranch"@,
                "updateInstead"@,
            ]
        }),
        ({
            let lines = server_clone_lines(clone, name);
            &&& lines.len() == 3
            &&& lines[0] == seq!["git"@, "init"@, clone]
            &&& 1 <= i < 3 ==> lines[i].subrange(0, 3) == seq!["git"@, "-C"@, clone]
            &&& lines[1].skip(3) == seq!["checkout"@, "-b"@, name]
            &&& lines[2] == clone_lines(root, clone, name)[4]
        }),
{
    let lines = clone_lines(root, clone, name);
    let server = server_clone_lines(clone, name);
    if 1 <= i < 5 {
        assert(lines[i].subrange(0, 3) =~= seq!["git"@, "-C"@, clone]);
    }
    if 1 <= i < 3 {
        assert(server[i].subrange(0, 3) =~= seq!["git"@, "-C"@, clone]);
    }
}

/// Every directory is a clone but the one for what is known of them.
pub proof fn law_meta_is_no_clone(names: Seq<Seq<char>>, name: Seq<char>)
    ensures
        clone_names(names).contains(name) <==> names.contains(name) && name != "meta"@,
{
    let keep = |n: Seq<char>| n != "meta"@;
    if clone_names(names).contains(name) {
        names.lemma_filter_contains_rev(keep, name);
        let i = clone_names(names).index_of(name);
        names.lemma_filter_pred(keep, i);
        assert(keep(clone_names(names)[i]));
    }
    if names.contains(name) && name != "meta"@ {
        let i = names.index_of(name);
        assert(keep(names[i]));
        names.lemma_filter_contains(keep, i);
    }
}

/// The cell that is meant is that of the branch where it runs, and else the
/// first of the clones that runs, whatever comes behind it; there is none
/// where none runs.
pub proof fn law_first_running_clone(
    branch: Seq<char>,
    clones: Seq<(Seq<char>, bool)>,
    i: int,
)
    requires
        0 <= i <= clones.len(),
        forall|j: int| 0 <= j < i ==> !(#[trigger] clones[j]).1,
    ensures
        running_cell(branch, true, clones) == Some(branch),
        i < clones.len() && clones[i].1 ==> running_cell(branch, false, clones) == Some(
            clones[i].0,
        ),
        i == clones.len() ==> running_cell(branch, false, clones) is None,
    decreases i,
{
    if i > 0 {
        let rest = clones.drop_first();
        assert(!clones[0].1);
        assert forall|j: int| 0 <= j < i - 1 implies !(#[trigger] rest[j]).1 by {
            assert(rest[j] == clones[j + 1]);
        }
        law_first_running_clone(branch, rest, i - 1);
    }
}

/// The clones of a repository lie under its hash, in the data directory that
/// is named or else in that of the home.
pub proof fn law_clones_under_hash(xdg: Seq<char>, home: Seq<char>, hash: Seq<char>)
    ensures
        data_dir_of(Some(xdg), home, hash) == joined_path(joined_path(xdg, "cella"@), hash),
        data_dir_of(None, home, hash) == joined_path(
            joined_path(joined_path(home, ".local/share"@), "cella"@),
            hash,
        ),
{
}

/// The hook reaches out by the proxy at its port, and hands the changes to the
/// command.
pub proof fn law_nucleus_asked(cmd: Seq<char>, port: u16)
    ensures
        occurs(nucleus_script(cmd, port), ":"@ + decimal(port as nat) + "\"\n"@),
        ("\n  "@ + cmd + "\n'\n"@).is_suffix_of(nucleus_script(cmd, port)),
        "#!/bin/sh\n"@.is_prefix_of(nucleus_script(cmd, port)),
{
    reveal_strlit(":");
    reveal_strlit("\"\n");
    reveal_strlit("\n  ");
    reveal_strlit("#!/bin/sh\n");
    reveal_strlit(
        r#"#!/bin/sh
diff=$(git diff --cached)
if [ -z "$diff" ]; then exit 0; fi
echo "$diff" | sudo su -s /bin/sh nucleus -c '
  export HTTP_PROXY="http://${CELLA_BRIDGE:-192.168.83.1}:"#,
    );
    reveal_strlit(
        r#""
  export HTTPS_PROXY="$HTTP_PROXY"
  export http_proxy="$HTTP_PROXY"
  export https_proxy="$HTTP_PROXY"
  "#,
    );
    let script = nucleus_script(cmd, port);
    let p = decimal(port as nat);
    lemma_ends(NUCLEUS_HEAD@, ":"@);
    lemma_begins(NUCLEUS_PROXY@, "\"\n"@);
    lemma_ends(NUCLEUS_PROXY@, "\n  "@);
    let none = Seq::<char>::empty();
    assert(none + NUCLEUS_HEAD@ == NUCLEUS_HEAD@);
    lemma_field(none, NUCLEUS_HEAD@, p, NUCLEUS_PROXY@, ":"@, "\"\n"@);
    let upto = NUCLEUS_HEAD@ + p + NUCLEUS_PROXY@;
    lemma_occurs_longer(upto, cmd, ":"@ + p + "\"\n"@);
    lemma_occurs_longer(upto + cmd, "\n'\n"@, ":"@ + p + "\"\n"@);
    let tail = "\n  "@ + cmd + "\n'\n"@;
    let n = NUCLEUS_PROXY@.len();
    assert(NUCLEUS_PROXY@.subrange(n - 3, n as int) == "\n  "@);
    assert(script == NUCLEUS_HEAD@ + p + NUCLEUS_PROXY@.take(n - 3) + tail);
    assert(script.subrange(script.len() - tail.len(), script.len() as int) == tail);
    lemma_begins(NUCLEUS_HEAD@, "#!/bin/sh\n"@);
    let first = "#!/bin/sh\n"@;
    assert(script.subrange(0, first.len() as int) == NUCLEUS_HEAD@.subrange(0, first.len() as int));
}

} // verus!
