//! Entering a cell.

use crate::command::{arg, be_quiet, command, option, quiet_options, ssh, ssh_line, ssh_within, ssh_within_line};
use crate::session::config::SessionConfig;
use crate::session::vm::{ssh_target, target_of, NotRunning};
use crate::text::basic::{
    lemma_begins, lemma_ends, lemma_field, lemma_occurs_longer, occurs, occurs_at, trim, trimmed,
};
use crate::text::number::{decimal, decimal_text};
use crate::text::split::{replace_char, replaced};
use vstd::prelude::*;

verus! {

// Hooks of a session

/// A file that is put on the machine.
pub struct Upload {
    pub path: String,
    pub content: String,
}

/// The script with which hooks read a session and send to it.
pub open spec fn helper_script(session: Seq<char>) -> Seq<char> {
    HELPER_HEAD@ + session + HELPER_SEND@ + session + HELPER_END@
}

pub const HELPER_HEAD: &'static str = "#!/bin/sh\ncase \"$1\" in\n  read) tmux capture-pane -p -t '";

pub const HELPER_SEND: &'static str =
    "' 2>/dev/null ;;\n  send) shift; tmux send-keys -t '";

pub const HELPER_END: &'static str =
    "' \"$*\" Enter ;;\n  *) echo \"usage: session read|send <text>\" >&2; exit 1 ;;\nesac";

pub const STARTER_HEAD: &'static str =
    "#!/bin/sh\n# wait for tmux session to exist\nfor i in $(seq 1 30); do\n  tmux has-session -t '";

pub const STARTER_WAIT: &'static str = "' 2>/dev/null && break\n  sleep 0.2\ndone\n";

/// The line that starts one hook.
pub open spec fn hook_line(workspace: Seq<char>, hook: Seq<char>) -> Seq<char> {
    "cd "@ + workspace + " && PATH=\"/tmp:$PATH\" nohup "@ + hook + " >'/tmp/cella-hook-"@
        + replaced(hook, '/', "-"@) + ".log' 2>&1 &\n"@
}

/// The lines that start the hooks, one after the other.
pub open spec fn hook_lines(workspace: Seq<char>, hooks: Seq<Seq<char>>) -> Seq<char>
    decreases hooks.len(),
{
    if hooks.len() == 0 {
        Seq::<char>::empty()
    } else {
        hook_lines(workspace, hooks.drop_last()) + hook_line(workspace, hooks.last())
    }
}

/// The script that waits for the session and then starts the hooks.
pub open spec fn starter_script(
    workspace: Seq<char>,
    session: Seq<char>,
    hooks: Seq<Seq<char>>,
) -> Seq<char> {
    STARTER_HEAD@ + session + STARTER_WAIT@ + hook_lines(workspace, hooks)
}

/// The script on the machine that helps the hooks of a session.
pub open spec fn helper_file(session: Seq<char>) -> Seq<char> {
    "/tmp/cella-session-"@ + session
}

/// The script on the machine that starts the hooks of a session.
pub open spec fn starter_file(session: Seq<char>) -> Seq<char> {
    "/tmp/cella-start-hooks-"@ + session + ".sh"@
}

/// The command that puts what it reads into the file `path` on the machine.
pub open spec fn upload_line(target: Seq<char>, path: Seq<char>) -> Seq<Seq<char>> {
    ssh_line(target, "sh -c 'cat > "@ + path + " && chmod +x "@ + path + "'"@)
}

/// The command that puts what it reads into the file `path` on the machine.
pub fn upload(target: &str, path: &str) -> (r: Vec<String>)
    ensures
        r.deep_view() == upload_line(target@, path@),
{
    let mut script = "sh -c 'cat > ".to_string();
    script.append(path);
    script.append(" && chmod +x ");
    script.append(path);
    script.append("'");
    ssh(target, &script)
}

/// What is done for the hooks of a session: two files are put on the machine,
/// the first gets a second name, and the second is started.
pub struct HookPlan {
    pub helper: Upload,
    pub starter: Upload,
    pub link: Vec<String>,
    pub start: Vec<String>,
}

/// The plan does what the hooks of a session need.
pub open spec fn hooks_planned(
    plan: HookPlan,
    target: Seq<char>,
    workspace: Seq<char>,
    session: Seq<char>,
    hooks: Seq<Seq<char>>,
) -> bool {
    &&& plan.helper.path@ == helper_file(session)
    &&& plan.helper.content@ == helper_script(session)
    &&& plan.starter.path@ == starter_file(session)
    &&& plan.starter.content@ == starter_script(workspace, session, hooks)
    &&& plan.link.deep_view() == ssh_line(
        target,
        "ln -sf '"@ + helper_file(session) + "' /tmp/session"@,
    )
    &&& plan.start.deep_view() == ssh_line(
        target,
        "sh -c 'nohup sh "@ + starter_file(session) + " >/dev/null 2>&1 &'"@,
    )
}

fn hooks_text(workspace: &str, hooks: &Vec<String>) -> (r: String)
    ensures
        r@ == hook_lines(workspace@, hooks.deep_view()),
{
    let ghost all = hooks.deep_view();
    let mut r = String::new();
    let mut i: usize = 0;
    assert(r@ == hook_lines(workspace@, all.take(0)));
    while i < hooks.len()
        invariant
            i <= hooks.len(),
            all == hooks.deep_view(),
            r@ == hook_lines(workspace@, all.take(i as int)),
        decreases hooks.len() - i,
    {
        assert(all.take(i + 1).drop_last() == all.take(i as int));
        assert(all.take(i + 1).last() == hooks[i as int]@);
        let mut l = "cd ".to_string();
        l.append(workspace);
        l.append(" && PATH=\"/tmp:$PATH\" nohup ");
        l.append(&hooks[i]);
        l.append(" >'/tmp/cella-hook-");
        l.append(&replace_char(&hooks[i], '/', "-"));
        l.append(".log' 2>&1 &\n");
        r.append(&l);
        i += 1;
    }
    assert(all.take(all.len() as int) == all);
    r
}

/// What is done for the hooks of the session `session`.
pub fn upload_hooks(target: &str, workspace: &str, session: &str, hooks: &Vec<String>) -> (r: HookPlan)
    ensures
        hooks_planned(r, target@, workspace@, session@, hooks.deep_view()),
{
    let mut helper = HELPER_HEAD.to_string();
    helper.append(session);
    helper.append(HELPER_SEND);
    helper.append(session);
    helper.append(HELPER_END);
    let mut starter = STARTER_HEAD.to_string();
    starter.append(session);
    starter.append(STARTER_WAIT);
    starter.append(&hooks_text(workspace, hooks));
    let mut helper_path = "/tmp/cella-session-".to_string();
    helper_path.append(session);
    let mut starter_path = "/tmp/cella-start-hooks-".to_string();
    starter_path.append(session);
    starter_path.append(".sh");
    let mut link = "ln -sf '".to_string();
    link.append(&helper_path);
    link.append("' /tmp/session");
    let mut start = "sh -c 'nohup sh ".to_string();
    start.append(&starter_path);
    start.append(" >/dev/null 2>&1 &'");
    HookPlan {
        helper: Upload { path: helper_path, content: helper },
        starter: Upload { path: starter_path, content: starter },
        link: ssh(target, &link),
        start: ssh(target, &start),
    }
}

// The shell

/// What is done to enter a cell.
pub struct ShellPlan {
    /// Whom to connect to.
    pub target: String,
    /// See whether the machine can be reached and its workspace is there.
    pub probe: Vec<String>,
    /// The directory with files that go to the machine, where it is there.
    pub sync_dir: String,
    pub sync: Vec<String>,
    pub hooks: Option<HookPlan>,
    /// Run the session or the command.
    pub enter: Vec<String>,
    /// Run after the session.
    pub on_exit: Option<Vec<String>>,
    /// Whether the cell is to stop by itself when no session is left.
    pub settle: bool,
}

/// The repository that is mounted in a machine.
pub open spec fn mounted(repo: Option<Seq<char>>) -> Seq<char> {
    match repo {
        Some(r) => trimmed(r),
        None => "cell"@,
    }
}

/// The directory of the repository in a machine.
pub open spec fn workspace_of(repo: Option<Seq<char>>) -> Seq<char> {
    "/"@ + mounted(repo)
}

/// The session: the one asked for, or else one named after the time.
pub open spec fn session_of(session: Option<Seq<char>>, now: u64) -> Seq<char> {
    match session {
        Some(s) => s,
        None => "s-"@ + decimal(now as nat),
    }
}

/// The directory with files for the machine of the cell `name`.
pub open spec fn sync_dir_of(name: Seq<char>) -> Seq<char> {
    "/var/lib/cella/cells/"@ + name + "/sync"@
}

/// The command that brings those files to the machine.
pub open spec fn sync_line(target: Seq<char>, name: Seq<char>) -> Seq<Seq<char>> {
    seq!["scp"@, "-r"@] + quiet_options() + seq![sync_dir_of(name) + "/."@, target + ":~/"@]
}

/// What a session runs where it does not say.
pub open spec fn session_command(config: Option<SessionConfig>) -> Seq<char> {
    match config {
        Some(c) => match c.command {
            Some(cmd) => cmd@,
            None => "exec $SHELL -l"@,
        },
        None => "exec $SHELL -l"@,
    }
}

/// The script that is run in the machine: the command, or a session.
pub open spec fn entered_script(
    workspace: Seq<char>,
    session: Seq<char>,
    command: Option<Seq<char>>,
    config: Option<SessionConfig>,
) -> Seq<char> {
    match command {
        Some(c) => "cd "@ + workspace + " && "@ + c,
        None => "cd "@ + workspace + " && tmux new-session -A -s "@ + session + " '"@
            + session_command(config) + "'"@,
    }
}

/// The command line that runs `script` in the machine with the agent of the
/// user, in a terminal where it says so.
pub open spec fn enter_line(terminal: bool, target: Seq<char>, script: Seq<char>) -> Seq<
    Seq<char>,
> {
    seq!["ssh"@, "-A"@] + quiet_options() + seq![
        "-o"@,
        "ServerAliveInterval=30"@,
        "-o"@,
        "ServerAliveCountMax=3"@,
    ] + (if terminal {
        seq!["-t"@]
    } else {
        Seq::<Seq<char>>::empty()
    }) + seq![target, script]
}

fn enter(terminal: bool, target: &str, script: &str) -> (r: Vec<String>)
    ensures
        r.deep_view() == enter_line(terminal, target@, script@),
{
    let mut r = command("ssh");
    arg(&mut r, "-A");
    be_quiet(&mut r);
    option(&mut r, "ServerAliveInterval=30");
    option(&mut r, "ServerAliveCountMax=3");
    if terminal {
        arg(&mut r, "-t");
    }
    arg(&mut r, target);
    arg(&mut r, script);
    assert(r.deep_view() =~= enter_line(terminal, target@, script@));
    r
}

/// The files of a running cell, where they are there.
pub struct RuntimeFiles {
    pub ip: Option<String>,
    pub user: Option<String>,
    pub repo: Option<String>,
}

/// The hooks of a session, where it has some.
pub open spec fn hooks_of(config: Option<SessionConfig>) -> Seq<Seq<char>> {
    match config {
        Some(c) => c.hooks.deep_view(),
        None => Seq::<Seq<char>>::empty(),
    }
}

/// What is run after a session.
pub open spec fn on_exit_of(config: Option<SessionConfig>) -> Option<Seq<char>> {
    match config {
        Some(c) => c.on_exit.deep_view(),
        None => None,
    }
}

/// The plan enters the cell `name` as it should.
pub open spec fn shell_planned(
    plan: ShellPlan,
    name: Seq<char>,
    session: Option<Seq<char>>,
    command: Option<Seq<char>>,
    config: Option<SessionConfig>,
    files: RuntimeFiles,
    now: u64,
) -> bool {
    let target = target_of(files.ip->0@, files.user.deep_view());
    let workspace = workspace_of(files.repo.deep_view());
    let sess = session_of(session, now);
    &&& plan.target@ == target
    &&& plan.probe.deep_view() == ssh_within_line(
        "ConnectTimeout=1"@,
        target,
        "test -d "@ + workspace,
    )
    &&& plan.sync_dir@ == sync_dir_of(name)
    &&& plan.sync.deep_view() == sync_line(target, name)
    &&& plan.hooks is Some <==> command is None && hooks_of(config).len() > 0
    &&& plan.hooks matches Some(h) ==> hooks_planned(h, target, workspace, sess, hooks_of(config))
    &&& plan.enter.deep_view() == enter_line(
        true,
        target,
        entered_script(workspace, sess, command, config),
    )
    &&& plan.on_exit.deep_view() == (if command is None && on_exit_of(config) is Some {
        Some(enter_line(false, target, "cd "@ + workspace + " && "@ + on_exit_of(config)->0))
    } else {
        None
    })
    &&& plan.settle == (command is None)
}

/// What is done to enter the cell `name`: in a session, or for one command.
/// `config` is what its repository says of sessions, where it says something,
/// and `files` are those of its runtime directory.
pub fn shell(
    name: &str,
    session: Option<&str>,
    command: Option<&str>,
    config: Option<&SessionConfig>,
    files: &RuntimeFiles,
    now: u64,
) -> (r: Result<ShellPlan, NotRunning>)
    ensures
        r is Ok <==> files.ip is Some,
        r matches Ok(plan) ==> shell_planned(
            plan,
            name@,
            session.deep_view(),
            command.deep_view(),
            match config {
                Some(c) => Some(*c),
                None => None,
            },
            *files,
            now,
        ),
{
    let ghost cfg = match config {
        Some(c) => Some(*c),
        None => None,
    };
    let ip: Option<&str> = match &files.ip {
        Some(i) => Some(i.as_str()),
        None => None,
    };
    let user: Option<&str> = match &files.user {
        Some(u) => Some(u.as_str()),
        None => None,
    };
    let target = match ssh_target(ip, user) {
        Ok((_, t)) => t,
        Err(e) => return Err(e),
    };
    let mut workspace = "/".to_string();
    match &files.repo {
        Some(r) => workspace.append(&trim(r)),
        None => workspace.append("cell"),
    }
    let mut probe = "test -d ".to_string();
    probe.append(&workspace);
    let mut sync_dir = "/var/lib/cella/cells/".to_string();
    sync_dir.append(name);
    sync_dir.append("/sync");
    let mut from = sync_dir.clone();
    from.append("/.");
    let mut to = target.clone();
    to.append(":~/");
    let mut sync = crate::command::command("scp");
    arg(&mut sync, "-r");
    be_quiet(&mut sync);
    arg(&mut sync, &from);
    arg(&mut sync, &to);
    assert(sync.deep_view() =~= sync_line(target@, name@));
    let sess = match session {
        Some(s) => s.to_string(),
        None => {
            let mut s = "s-".to_string();
            s.append(&decimal_text(now));
            s
        },
    };
    let mut script = "cd ".to_string();
    script.append(&workspace);
    match command {
        Some(c) => {
            script.append(" && ");
            script.append(c);
        },
        None => {
            script.append(" && tmux new-session -A -s ");
            script.append(&sess);
            script.append(" '");
            match config {
                Some(cf) => match &cf.command {
                    Some(c) => script.append(c),
                    None => script.append("exec $SHELL -l"),
                },
                None => script.append("exec $SHELL -l"),
            }
            script.append("'");
        },
    }
    assert(script@ == entered_script(workspace@, sess@, command.deep_view(), cfg));
    let hooks = match (command, config) {
        (None, Some(cf)) => if cf.hooks.len() > 0 {
            Some(upload_hooks(&target, &workspace, &sess, &cf.hooks))
        } else {
            None
        },
        _ => None,
    };
    let on_exit = match (command, config) {
        (None, Some(cf)) => match &cf.on_exit {
            Some(o) => {
                let mut s = "cd ".to_string();
                s.append(&workspace);
                s.append(" && ");
                s.append(o);
                Some(enter(false, &target, &s))
            },
            None => None,
        },
        _ => None,
    };
    let settle = command.is_none();
    Ok(
        ShellPlan {
            probe: ssh_within("ConnectTimeout=1", &target, &probe),
            enter: enter(true, &target, &script),
            target,
            sync_dir,
            sync,
            hooks,
            on_exit,
            settle,
        },
    )
}

/// How many times a machine is looked for before it is given up.
pub const PROBES: u32 = 60;

/// Where the entering of a cell stands: what is done now.
#[derive(Clone, Copy, Debug, PartialEq, Eq, Structural)]
pub enum ShellAt {
    /// Look for the machine, after a second if it is not the first time.
    Probe(u32),
    /// Bring files to the machine where there are some, and take a pending
    /// stop back.
    Sync,
    /// Bring the hooks to the machine and start them.
    Hooks,
    /// Run the session or the command.
    Enter,
    /// Run what is run after the session; whether the session went well.
    OnExit(bool),
    /// Set the stop of the cell where no session is left.
    Settle(bool),
    /// Nothing: all is done, and the session went well or not.
    Over(bool),
    /// Nothing: the machine could not be reached.
    Unreachable,
}

/// What is done after it was done what `at` says; `success` says whether it
/// went well.
pub open spec fn shell_next(plan: ShellPlan, at: ShellAt, success: bool) -> ShellAt {
    match at {
        ShellAt::Probe(i) => if success {
            ShellAt::Sync
        } else if i + 1 >= PROBES {
            ShellAt::Unreachable
        } else {
            ShellAt::Probe((i + 1) as u32)
        },
        ShellAt::Sync => if plan.hooks is Some {
            ShellAt::Hooks
        } else {
            ShellAt::Enter
        },
        ShellAt::Hooks => ShellAt::Enter,
        ShellAt::Enter => if plan.on_exit is Some {
            ShellAt::OnExit(success)
        } else if plan.settle {
            ShellAt::Settle(success)
        } else {
            ShellAt::Over(success)
        },
        ShellAt::OnExit(ok) => if plan.settle {
            ShellAt::Settle(ok)
        } else {
            ShellAt::Over(ok)
        },
        ShellAt::Settle(ok) => ShellAt::Over(ok),
        ShellAt::Over(ok) => ShellAt::Over(ok),
        ShellAt::Unreachable => ShellAt::Unreachable,
    }
}

/// What is done next. It begins with `ShellAt::Probe(0)`.
pub fn shell_step(plan: &ShellPlan, at: ShellAt, success: bool) -> (r: ShellAt)
    ensures
        r == shell_next(*plan, at, success),
{
    match at {
        ShellAt::Probe(i) => if success {
            ShellAt::Sync
        } else if i >= PROBES - 1 {
            ShellAt::Unreachable
        } else {
            ShellAt::Probe(i + 1)
        },
        ShellAt::Sync => if plan.hooks.is_some() {
            ShellAt::Hooks
        } else {
            ShellAt::Enter
        },
        ShellAt::Hooks => ShellAt::Enter,
        ShellAt::Enter => if plan.on_exit.is_some() {
            ShellAt::OnExit(success)
        } else if plan.settle {
            ShellAt::Settle(success)
        } else {
            ShellAt::Over(success)
        },
        ShellAt::OnExit(ok) => if plan.settle {
            ShellAt::Settle(ok)
        } else {
            ShellAt::Over(ok)
        },
        ShellAt::Settle(ok) => ShellAt::Over(ok),
        ShellAt::Over(ok) => ShellAt::Over(ok),
        ShellAt::Unreachable => ShellAt::Unreachable,
    }
}

/// How much is left to do.
pub open spec fn shell_left(at: ShellAt) -> int {
    match at {
        ShellAt::Probe(i) => if i < PROBES {
            10 + PROBES - i
        } else {
            10
        },
        ShellAt::Sync => 5,
        ShellAt::Hooks => 4,
        ShellAt::Enter => 3,
        ShellAt::OnExit(_) => 2,
        ShellAt::Settle(_) => 1,
        ShellAt::Over(_) => 0,
        ShellAt::Unreachable => 0,
    }
}

/// Entering a cell comes to an end, whatever goes wrong: the machine is looked
/// for at most sixty times.
pub proof fn law_shell_ends(plan: ShellPlan, at: ShellAt, success: bool)
    requires
        !(at is Over || at is Unreachable),
    ensures
        shell_left(shell_next(plan, at, success)) < shell_left(at),
{
}

/// A cell is entered only after its machine was reached and a pending stop was
/// taken back; where nobody could reach it nothing is run in it.
pub proof fn law_stop_cleared_before_entering(plan: ShellPlan, at: ShellAt, success: bool)
    ensures
        shell_next(plan, at, success) is Enter ==> at is Sync || at is Hooks,
        shell_next(plan, at, success) is Hooks ==> at is Sync,
        shell_next(plan, at, success) is Sync ==> at is Probe && success,
{
}

/// The machine is looked for first, once a second, up to sixty times, and all
/// begins when it was reached. Files are brought to it and the pending stop is
/// taken back; then come the hooks, where there are some, and then the session.
/// After the session its command for the end is run, where there is one, and
/// the stop of the cell is set, where that is wanted. Whatever comes of those,
/// how the session went is what is told in the end.
pub proof fn law_shell_steps(plan: ShellPlan, i: u32, ok: bool, success: bool)
    ensures
        shell_next(plan, ShellAt::Probe(i), true) == ShellAt::Sync,
        i < 59 ==> shell_next(plan, ShellAt::Probe(i), false) == ShellAt::Probe((i + 1) as u32),
        i >= 59 ==> shell_next(plan, ShellAt::Probe(i), false) == ShellAt::Unreachable,
        plan.hooks is Some ==> shell_next(plan, ShellAt::Sync, success) == ShellAt::Hooks,
        plan.hooks is None ==> shell_next(plan, ShellAt::Sync, success) == ShellAt::Enter,
        shell_next(plan, ShellAt::Hooks, success) == ShellAt::Enter,
        plan.on_exit is Some ==> shell_next(plan, ShellAt::Enter, ok) == ShellAt::OnExit(ok),
        plan.on_exit is None && plan.settle ==> shell_next(plan, ShellAt::Enter, ok)
            == ShellAt::Settle(ok),
        plan.on_exit is None && !plan.settle ==> shell_next(plan, ShellAt::Enter, ok)
            == ShellAt::Over(ok),
        plan.settle ==> shell_next(plan, ShellAt::OnExit(ok), success) == ShellAt::Settle(ok),
        !plan.settle ==> shell_next(plan, ShellAt::OnExit(ok), success) == ShellAt::Over(ok),
        shell_next(plan, ShellAt::Settle(ok), success) == ShellAt::Over(ok),
{
}

/// What is done from `at` on where the machine can be reached, with the end of
/// the session told by `ok`.
pub open spec fn shell_course(plan: ShellPlan, at: ShellAt, ok: bool) -> Seq<ShellAt>
    decreases shell_left(at),
{
    if at is Over || at is Unreachable {
        seq![at]
    } else if shell_left(shell_next(plan, at, ok)) < shell_left(at) {
        seq![at] + shell_course(plan, shell_next(plan, at, ok), ok)
    } else {
        seq![at]
    }
}

/// From the session on, the command for its end is run exactly where the plan
/// has one, and the stop is set exactly where the plan says so.
pub proof fn law_nothing_skipped(plan: ShellPlan, ok: bool)
    ensures
        shell_course(plan, ShellAt::Enter, ok).contains(ShellAt::OnExit(ok)) <==> plan.on_exit
            is Some,
        shell_course(plan, ShellAt::Enter, ok).contains(ShellAt::Settle(ok)) <==> plan.settle,
        shell_course(plan, ShellAt::Enter, ok).last() == ShellAt::Over(ok),
        shell_course(plan, ShellAt::Sync, ok).contains(ShellAt::Hooks) <==> plan.hooks is Some,
        shell_course(plan, ShellAt::Sync, ok).contains(ShellAt::Enter),
{
    reveal_with_fuel(shell_course, 6);
    let c = shell_course(plan, ShellAt::Enter, ok);
    let b = shell_course(plan, ShellAt::Sync, ok);
    assert(c[0] == ShellAt::Enter);
    if plan.on_exit is Some {
        assert(c[1] == ShellAt::OnExit(ok));
        if plan.settle {
            assert(c[2] == ShellAt::Settle(ok));
        }
    } else if plan.settle {
        assert(c[1] == ShellAt::Settle(ok));
    }
    if plan.hooks is Some {
        assert(b[1] == ShellAt::Hooks && b[2] == ShellAt::Enter);
    } else {
        assert(b[1] == ShellAt::Enter);
    }
}

/// What a plan holds. It goes to the address of the cell, as the user of the
/// cell where there is one. A command is run in place of a session: then there
/// are no hooks, nothing is run at the end and no stop is set. A session runs
/// what its configuration says, and the hooks and the command for the end are
/// those of the configuration.
pub proof fn law_shell_plan(
    plan: ShellPlan,
    name: Seq<char>,
    session: Option<Seq<char>>,
    command: Option<Seq<char>>,
    config: Option<SessionConfig>,
    files: RuntimeFiles,
    now: u64,
)
    requires
        files.ip is Some,
        shell_planned(plan, name, session, command, config, files, now),
    ensures
        trimmed(files.ip->0@).is_suffix_of(plan.target@),
        files.user is Some && trimmed(files.user->0@).len() > 0 ==> plan.target@ == trimmed(
            files.user->0@,
        ) + "@"@ + trimmed(files.ip->0@),
        plan.enter.deep_view()[plan.enter.deep_view().len() - 2] == plan.target@,
        command matches Some(c) ==> plan.hooks is None && plan.on_exit is None && !plan.settle
            && c.is_suffix_of(plan.enter.deep_view().last()),
        command is None ==> plan.settle && (plan.on_exit is Some <==> (config matches Some(c)
            && c.on_exit is Some)) && (plan.hooks is Some <==> (config matches Some(c)
            && c.hooks@.len() > 0)),
        command is None && (config matches Some(c) && c.on_exit is Some)
            ==> config->0.on_exit->0@.is_suffix_of(plan.on_exit.deep_view()->0.last())
            && plan.on_exit.deep_view()->0[plan.on_exit.deep_view()->0.len() - 2] == plan.target@,
        plan.probe.deep_view()[plan.probe.deep_view().len() - 2] == plan.target@,
        plan.sync.deep_view().last() == plan.target@ + ":~/"@,
{
    let ip = trimmed(files.ip->0@);
    let target = plan.target@;
    assert(target.subrange(target.len() - ip.len(), target.len() as int) =~= ip);
    if let Some(c) = command {
        let script = plan.enter.deep_view().last();
        assert(script.subrange(script.len() - c.len(), script.len() as int) =~= c);
    } else if let Some(cfg) = config {
        if let Some(o) = cfg.on_exit {
            let script = plan.on_exit.deep_view()->0.last();
            assert(script.subrange(script.len() - o@.len(), script.len() as int) =~= o@);
        }
        assert(cfg.hooks.deep_view().len() == cfg.hooks@.len());
    }
}

/// The hooks of a session are started one after the other by the script that
/// is put on the machine for it: the line of each stands in it.
pub proof fn law_every_hook_started(
    workspace: Seq<char>,
    session: Seq<char>,
    hooks: Seq<Seq<char>>,
    i: int,
)
    requires
        0 <= i < hooks.len(),
    ensures
        occurs(
            starter_script(workspace, session, hooks),
            "cd "@ + workspace + " && PATH=\"/tmp:$PATH\" nohup "@ + hooks[i],
        ),
{
    let line = "cd "@ + workspace + " && PATH=\"/tmp:$PATH\" nohup "@ + hooks[i];
    lemma_hook_lines(workspace, hooks, i);
    let lines = hook_lines(workspace, hooks);
    let p = choose|p: int| occurs_at(lines, line, p);
    let all = starter_script(workspace, session, hooks);
    let n = all.len() - lines.len();
    assert(all.subrange(n + p, n + p + line.len()) =~= lines.subrange(p, p + line.len()));
    assert(occurs_at(all, line, n + p));
}

proof fn lemma_hook_lines(workspace: Seq<char>, hooks: Seq<Seq<char>>, i: int)
    requires
        0 <= i < hooks.len(),
    ensures
        occurs(
            hook_lines(workspace, hooks),
            "cd "@ + workspace + " && PATH=\"/tmp:$PATH\" nohup "@ + hooks[i],
        ),
    decreases hooks.len(),
{
    let line = "cd "@ + workspace + " && PATH=\"/tmp:$PATH\" nohup "@ + hooks[i];
    let front = hooks.drop_last();
    let before = hook_lines(workspace, front);
    let all = hook_lines(workspace, hooks);
    if i == hooks.len() - 1 {
        assert(all.subrange(before.len() as int, (before.len() + line.len()) as int) =~= line);
        assert(occurs_at(all, line, before.len() as int));
    } else {
        assert(front[i] == hooks[i]);
        lemma_hook_lines(workspace, front, i);
        let p = choose|p: int| occurs_at(before, line, p);
        assert(all.subrange(p, p + line.len()) =~= before.subrange(p, p + line.len()));
        assert(occurs_at(all, line, p));
    }
}

/// Whether the stop of a cell is set when a session has ended: it still runs,
/// and no session is counted. Sessions that cannot be counted are none.
pub fn settles(running: bool, sessions: Option<usize>) -> (r: bool)
    ensures
        r == (running && (sessions is None || sessions == Some(0usize))),
{
    running && match sessions {
        Some(n) => n == 0,
        None => true,
    }
}

/// The error where a machine cannot be reached.
pub const UNREACHABLE: &'static str = "VM did not become reachable within 60s";

/// What runs in the machine runs in the directory of its repository, or in
/// `/cell` where that is not known. A session is the one asked for, or else one
/// named after the time, and runs the command of the configuration or else a
/// login shell.
pub proof fn law_entered_in_workspace(
    plan: ShellPlan,
    name: Seq<char>,
    session: Option<Seq<char>>,
    command: Option<Seq<char>>,
    config: Option<SessionConfig>,
    files: RuntimeFiles,
    now: u64,
)
    requires
        files.ip is Some,
        shell_planned(plan, name, session, command, config, files, now),
    ensures
        ({
            let dir = "/"@ + (if files.repo is Some {
                trimmed(files.repo->0@)
            } else {
                "cell"@
            });
            let called = if session is Some {
                session->0
            } else {
                "s-"@ + decimal(now as nat)
            };
            let runs = if config is Some && config->0.command is Some {
                config->0.command->0@
            } else {
                "exec $SHELL -l"@
            };
            let enter = plan.enter.deep_view();
            &&& command is Some ==> enter.last() == "cd "@ + dir + " && "@ + command->0
            &&& command is None ==> enter.last() == "cd "@ + dir + " && tmux new-session -A -s "@
                + called + " '"@ + runs + "'"@
            &&& enter[0] == "ssh"@ && enter[1] == "-A"@ && enter[enter.len() - 3] == "-t"@
            &&& enter.contains("ServerAliveInterval=30"@) && enter.contains(
                "ServerAliveCountMax=3"@,
            )
            &&& plan.probe.deep_view().last() == "test -d "@ + dir
            &&& plan.probe.deep_view().contains("ConnectTimeout=1"@)
            &&& plan.sync_dir@ == "/var/lib/cella/cells/"@ + name + "/sync"@
            &&& plan.sync.deep_view().first() == "scp"@ && plan.sync.deep_view()[1] == "-r"@
            &&& plan.sync.deep_view()[plan.sync.deep_view().len() - 2] == plan.sync_dir@ + "/."@
            &&& command is None && config is Some && config->0.on_exit is Some
                ==> plan.on_exit.deep_view()->0.last() == "cd "@ + dir + " && "@
                + config->0.on_exit->0@ && plan.on_exit.deep_view()->0.len() == enter.len() - 1
        }),
{
    let enter = plan.enter.deep_view();
    let probe = plan.probe.deep_view();
    assert(enter[9] == "ServerAliveInterval=30"@);
    assert(enter[11] == "ServerAliveCountMax=3"@);
    assert(probe[probe.len() - 3] == "ConnectTimeout=1"@);
}

/// The hooks of a session get a helper that reads that session and sends to
/// it, and are started by a script that waits for that session. Each file goes
/// under the name of the session; the helper gets the common name as well.
pub proof fn law_hooks_for_session(
    plan: HookPlan,
    target: Seq<char>,
    workspace: Seq<char>,
    session: Seq<char>,
    hooks: Seq<Seq<char>>,
)
    requires
        hooks_planned(plan, target, workspace, session, hooks),
    ensures
        plan.helper.path@ == "/tmp/cella-session-"@ + session,
        plan.starter.path@ == "/tmp/cella-start-hooks-"@ + session + ".sh"@,
        occurs(plan.helper.content@, "tmux capture-pane -p -t '"@ + session + "'"@),
        occurs(plan.helper.content@, "tmux send-keys -t '"@ + session + "'"@),
        occurs(plan.starter.content@, "tmux has-session -t '"@ + session + "'"@),
        plan.link.deep_view().last() == "ln -sf '"@ + plan.helper.path@ + "' /tmp/session"@,
        plan.start.deep_view().last() == "sh -c 'nohup sh "@ + plan.starter.path@
            + " >/dev/null 2>&1 &'"@,
        plan.link.deep_view()[plan.link.deep_view().len() - 2] == target,
        plan.start.deep_view()[plan.start.deep_view().len() - 2] == target,
{
    reveal_strlit("'");
    reveal_strlit("tmux capture-pane -p -t '");
    reveal_strlit("tmux send-keys -t '");
    reveal_strlit("tmux has-session -t '");
    reveal_strlit("#!/bin/sh\ncase \"$1\" in\n  read) tmux capture-pane -p -t '");
    reveal_strlit("' 2>/dev/null ;;\n  send) shift; tmux send-keys -t '");
    reveal_strlit(
        "' \"$*\" Enter ;;\n  *) echo \"usage: session read|send <text>\" >&2; exit 1 ;;\nesac",
    );
    reveal_strlit(
        "#!/bin/sh\n# wait for tmux session to exist\nfor i in $(seq 1 30); do\n  tmux has-session -t '",
    );
    reveal_strlit("' 2>/dev/null && break\n  sleep 0.2\ndone\n");
    let none = Seq::<char>::empty();
    lemma_ends(HELPER_HEAD@, "tmux capture-pane -p -t '"@);
    lemma_begins(HELPER_SEND@, "'"@);
    lemma_ends(HELPER_SEND@, "tmux send-keys -t '"@);
    lemma_begins(HELPER_END@, "'"@);
    lemma_ends(STARTER_HEAD@, "tmux has-session -t '"@);
    lemma_begins(STARTER_WAIT@, "'"@);
    assert(none + HELPER_HEAD@ == HELPER_HEAD@);
    assert(none + STARTER_HEAD@ == STARTER_HEAD@);
    let read = "tmux capture-pane -p -t '"@ + session + "'"@;
    lemma_field(none, HELPER_HEAD@, session, HELPER_SEND@, "tmux capture-pane -p -t '"@, "'"@);
    lemma_occurs_longer(HELPER_HEAD@ + session + HELPER_SEND@, session, read);
    lemma_occurs_longer(HELPER_HEAD@ + session + HELPER_SEND@ + session, HELPER_END@, read);
    lemma_field(
        HELPER_HEAD@ + session,
        HELPER_SEND@,
        session,
        HELPER_END@,
        "tmux send-keys -t '"@,
        "'"@,
    );
    let waits = "tmux has-session -t '"@ + session + "'"@;
    lemma_field(none, STARTER_HEAD@, session, STARTER_WAIT@, "tmux has-session -t '"@, "'"@);
    lemma_occurs_longer(
        STARTER_HEAD@ + session + STARTER_WAIT@,
        hook_lines(workspace, hooks),
        waits,
    );
}

/// A script is put on the machine under its path and made executable there.
pub proof fn law_uploaded_to_path(target: Seq<char>, path: Seq<char>)
    ensures
        upload_line(target, path).last() == "sh -c 'cat > "@ + path + " && chmod +x "@ + path
            + "'"@,
        upload_line(target, path)[upload_line(target, path).len() - 2] == target,
{
}

/// Hooks are started in their order, each with a log of its own, named after
/// it with hyphens for slashes.
pub proof fn law_hooks_in_order(workspace: Seq<char>, a: Seq<Seq<char>>, b: Seq<Seq<char>>)
    ensures
        hook_lines(workspace, a + b) == hook_lines(workspace, a) + hook_lines(workspace, b),
        forall|hook: Seq<char>| #[trigger]
            hook_line(workspace, hook) == "cd "@ + workspace + " && PATH=\"/tmp:$PATH\" nohup "@
                + hook + " >'/tmp/cella-hook-"@ + replaced(hook, '/', "-"@) + ".log' 2>&1 &\n"@,
        forall|hook: Seq<char>| hook_lines(workspace, seq![hook]) == #[trigger] hook_line(
            workspace,
            hook,
        ),
    decreases b.len(),
{
    assert forall|hook: Seq<char>| hook_lines(workspace, seq![hook]) == #[trigger] hook_line(
        workspace,
        hook,
    ) by {
        let one = seq![hook];
        assert(one.drop_last() == Seq::<Seq<char>>::empty());
        assert(hook_lines(workspace, one.drop_last()) == Seq::<char>::empty());
        assert(one.last() == hook);
        assert(Seq::<char>::empty() + hook_line(workspace, hook) == hook_line(workspace, hook));
    }
    if b.len() == 0 {
        assert(a + b == a);
    } else {
        law_hooks_in_order(workspace, a, b.drop_last());
        assert((a + b).drop_last() == a + b.drop_last());
        let front = hook_lines(workspace, a);
        let middle = hook_lines(workspace, b.drop_last());
        let last = hook_line(workspace, b.last());
        assert((front + middle) + last == front + (middle + last));
    }
}

} // verus!
