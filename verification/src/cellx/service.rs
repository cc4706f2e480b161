//! Background services.

use crate::command::{arg, command};
use crate::flow::state::{FileStep, FileStepView};
use crate::path::{join, joined_path};
use crate::text::basic::{before_suffix, strip_suffix, trim, trimmed};
use crate::text::number::{decimal, decimal_text, number_of, parse_number};
use vstd::prelude::*;

verus! {

/// Where the services leave their files.
pub const SERVICES_DIR: &'static str = "/tmp/cellx/services";

/// Where the services leave their files.
pub fn services_dir() -> (r: String)
    ensures
        r@ == SERVICES_DIR@,
{
    SERVICES_DIR.to_string()
}

/// A file of the service `name`.
pub open spec fn service_file(name: Seq<char>, extension: Seq<char>) -> Seq<char> {
    joined_path(SERVICES_DIR@, name + extension)
}

fn file(name: &str, extension: &str) -> (r: String)
    ensures
        r@ == service_file(name@, extension@),
{
    let mut f = name.to_string();
    f.append(extension);
    join(SERVICES_DIR, &f)
}

/// The file that holds the process of the service.
pub fn pid_path(name: &str) -> (r: String)
    ensures
        r@ == service_file(name@, ".pid"@),
{
    file(name, ".pid")
}

/// The file that holds the command of the service.
pub fn cmd_path(name: &str) -> (r: String)
    ensures
        r@ == service_file(name@, ".cmd"@),
{
    file(name, ".cmd")
}

/// The file that the service writes to.
pub fn log_path(name: &str) -> (r: String)
    ensures
        r@ == service_file(name@, ".log"@),
{
    file(name, ".log")
}

/// Why nothing can be done for a service.
pub enum ServiceError {
    NotFound(String),
    InvalidPid,
    NoCommand,
    AlreadyRunning(String),
    NoPreviousCommand(String),
    NoLogs(String),
}

impl ServiceError {
    /// The error in words.
    pub open spec fn words(self) -> Seq<char> {
        match self {
            ServiceError::NotFound(n) => "service '"@ + n@ + "' not found"@,
            ServiceError::InvalidPid => "invalid PID"@,
            ServiceError::NoCommand => "no command specified"@,
            ServiceError::AlreadyRunning(n) => "service '"@ + n@
                + "' already running (use restart)"@,
            ServiceError::NoPreviousCommand(n) => "no previous command for service '"@ + n@ + "'"@,
            ServiceError::NoLogs(n) => "no logs for service '"@ + n@ + "'"@,
        }
    }

    /// The error in words.
    pub fn message(&self) -> (r: String)
        ensures
            r@ == self.words(),
    {
        match self {
            ServiceError::NotFound(n) => around("service '", n, "' not found"),
            ServiceError::InvalidPid => "invalid PID".to_string(),
            ServiceError::NoCommand => "no command specified".to_string(),
            ServiceError::AlreadyRunning(n) => around(
                "service '",
                n,
                "' already running (use restart)",
            ),
            ServiceError::NoPreviousCommand(n) => around(
                "no previous command for service '",
                n,
                "'",
            ),
            ServiceError::NoLogs(n) => around("no logs for service '", n, "'"),
        }
    }
}

fn around(before: &str, name: &str, after: &str) -> (r: String)
    ensures
        r@ == before@ + name@ + after@,
{
    let mut r = before.to_string();
    r.append(name);
    r.append(after);
    r
}

/// The process of the service, from what its file holds where it is there.
pub fn read_pid(name: &str, content: Option<&str>) -> (r: Result<u32, ServiceError>)
    ensures
        match r {
            Ok(pid) => content is Some && number_of(trimmed(content->0@), u32::MAX as nat) == Some(
                pid as nat,
            ),
            Err(ServiceError::NotFound(n)) => content is None && n@ == name@,
            Err(ServiceError::InvalidPid) => content is Some && number_of(
                trimmed(content->0@),
                u32::MAX as nat,
            ) is None,
            Err(_) => false,
        },
{
    match content {
        None => Err(ServiceError::NotFound(name.to_string())),
        Some(text) => match parse_number(&trim(text), u32::MAX as u64) {
            Some(pid) => Ok(pid as u32),
            None => Err(ServiceError::InvalidPid),
        },
    }
}

/// The command that starts the service; `running` says whether it runs
/// already.
pub fn start(name: &str, cmd: &str, running: bool) -> (r: Result<Vec<String>, ServiceError>)
    ensures
        match r {
            Ok(line) => cmd@.len() > 0 && !running && line.deep_view() == seq!["sh"@, "-c"@, cmd@],
            Err(ServiceError::NoCommand) => cmd@.len() == 0,
            Err(ServiceError::AlreadyRunning(n)) => cmd@.len() > 0 && running && n@ == name@,
            Err(_) => false,
        },
{
    if cmd.is_empty() {
        return Err(ServiceError::NoCommand);
    }
    if running {
        return Err(ServiceError::AlreadyRunning(name.to_string()));
    }
    let mut line = command("sh");
    arg(&mut line, "-c");
    arg(&mut line, cmd);
    Ok(line)
}

/// What is kept of a service that was started as the process `pid`.
pub fn started(name: &str, cmd: &str, pid: u32) -> (r: Vec<FileStep>)
    ensures
        r.deep_view() == seq![
            FileStepView::Write {
                path: service_file(name@, ".pid"@),
                text: decimal(pid as nat),
            },
            FileStepView::Write { path: service_file(name@, ".cmd"@), text: cmd@ },
        ],
{
    let r = vec![
        FileStep::Write { path: pid_path(name), text: decimal_text(pid as u64) },
        FileStep::Write { path: cmd_path(name), text: cmd.to_string() },
    ];
    assert(r.deep_view() =~= seq![
        FileStepView::Write { path: service_file(name@, ".pid"@), text: decimal(pid as nat) },
        FileStepView::Write { path: service_file(name@, ".cmd"@), text: cmd@ },
    ]);
    r
}

/// A service that was started is found again as the process it is.
pub proof fn law_pid_reads_back(pid: u32)
    ensures
        number_of(trimmed(decimal(pid as nat)), u32::MAX as nat) == Some(pid as nat),
{
    let s = decimal(pid as nat);
    crate::text::number::lemma_decimal_value(pid as nat);
    crate::text::number::law_decimal_reads_back(pid as nat, u32::MAX as nat);
    assert(crate::text::number::is_digit(s[0]));
    assert(crate::text::number::is_digit(s[s.len() - 1]));
    assert(crate::text::basic::trimmed_start(s) == s);
    assert(trimmed(s) == s);
}

// Stopping

/// Where the stopping of a service stands.
#[derive(Clone, Copy, Debug, PartialEq, Eq, Structural)]
pub enum Stopping {
    /// Nothing was done yet.
    Asked,
    /// The service was told to end, and looked for this many times.
    Waiting(u8),
    /// It is looked for a last time.
    Last,
}

/// What is done to stop a service, before it is looked for again.
#[derive(Clone, Copy, Debug, PartialEq, Eq, Structural)]
pub enum StopAction {
    /// Tell it to end.
    Terminate,
    /// Wait a tenth of a second.
    Wait,
    /// Nothing.
    Look,
    /// Forget the service, killing it first where it says so. Nothing follows.
    Finish { kill: bool, was_running: bool },
}

/// How many times a service is looked for before it is killed.
pub const STOP_TRIES: u8 = 20;

/// What is done, and where it then stands, when the service was found alive or
/// not.
pub open spec fn stop_next(at: Stopping, alive: bool) -> (Stopping, StopAction) {
    match at {
        Stopping::Asked => if alive {
            (Stopping::Waiting(0), StopAction::Terminate)
        } else {
            (at, StopAction::Finish { kill: false, was_running: false })
        },
        Stopping::Waiting(n) => if !alive {
            (Stopping::Last, StopAction::Look)
        } else if n + 1 < STOP_TRIES {
            (Stopping::Waiting((n + 1) as u8), StopAction::Wait)
        } else {
            (Stopping::Last, StopAction::Wait)
        },
        Stopping::Last => (at, StopAction::Finish { kill: alive, was_running: true }),
    }
}

/// What is done to stop a service that was found alive or not.
pub fn stop(at: Stopping, alive: bool) -> (r: (Stopping, StopAction))
    ensures
        r == stop_next(at, alive),
{
    match at {
        Stopping::Asked => if alive {
            (Stopping::Waiting(0), StopAction::Terminate)
        } else {
            (at, StopAction::Finish { kill: false, was_running: false })
        },
        Stopping::Waiting(n) => if !alive {
            (Stopping::Last, StopAction::Look)
        } else if n < STOP_TRIES - 1 {
            (Stopping::Waiting(n + 1), StopAction::Wait)
        } else {
            (Stopping::Last, StopAction::Wait)
        },
        Stopping::Last => (at, StopAction::Finish { kill: alive, was_running: true }),
    }
}

/// What is left to do until the service is forgotten.
pub open spec fn stop_left(at: Stopping) -> int {
    match at {
        Stopping::Asked => STOP_TRIES + 2,
        Stopping::Waiting(n) => if n < STOP_TRIES {
            STOP_TRIES + 1 - n
        } else {
            1
        },
        Stopping::Last => 0,
    }
}

/// The stopping of a service ends: every answer brings it nearer to its end. It
/// is killed only if it is alive at the last look.
pub proof fn law_stop_ends(at: Stopping, alive: bool)
    ensures
        stop_next(at, alive).1 is Finish || stop_left(stop_next(at, alive).0) < stop_left(at),
        stop_next(at, alive).1 matches StopAction::Finish { kill, .. } ==> (kill <==> alive && at
            == Stopping::Last),
{
}

/// The message after a service was stopped.
pub open spec fn stopped_message(name: Seq<char>, was_running: bool) -> Seq<char> {
    if was_running {
        "stopped "@ + name
    } else {
        name + " not running"@
    }
}

/// The message after a service was stopped.
pub fn stop_message(name: &str, was_running: bool) -> (r: String)
    ensures
        r@ == stopped_message(name@, was_running),
{
    if was_running {
        let mut r = "stopped ".to_string();
        r.append(name);
        r
    } else {
        let mut r = name.to_string();
        r.append(" not running");
        r
    }
}

/// The command that a service is restarted with: the one given, or else the
/// one it was started with before.
pub fn restart(name: &str, cmd: Option<&str>, previous: Option<&str>) -> (r: Result<
    String,
    ServiceError,
>)
    ensures
        match r {
            Ok(c) => if cmd is Some && cmd->0@.len() > 0 {
                c@ == cmd->0@
            } else {
                previous is Some && c@ == previous->0@
            },
            Err(ServiceError::NoPreviousCommand(n)) => n@ == name@ && previous is None && !(cmd
                is Some && cmd->0@.len() > 0),
            Err(_) => false,
        },
{
    if let Some(c) = cmd {
        if !c.is_empty() {
            return Ok(c.to_string());
        }
    }
    match previous {
        Some(p) => Ok(p.to_string()),
        None => Err(ServiceError::NoPreviousCommand(name.to_string())),
    }
}

/// The command line that shows the end of a log file.
pub open spec fn tail_line(follow: bool, path: Seq<char>) -> Seq<Seq<char>> {
    if follow {
        seq!["tail"@, "-100"@, "-f"@, path]
    } else {
        seq!["tail"@, "-100"@, path]
    }
}

/// The command line that shows the end of a log file.
pub fn tail(follow: bool, path: &str) -> (r: Vec<String>)
    ensures
        r.deep_view() == tail_line(follow, path@),
{
    let mut r = command("tail");
    arg(&mut r, "-100");
    if follow {
        arg(&mut r, "-f");
    }
    arg(&mut r, path);
    r
}

/// The command that shows the log of the service; `exists` says whether there
/// is one.
pub fn logs(name: &str, exists: bool, follow: bool) -> (r: Result<Vec<String>, ServiceError>)
    ensures
        match r {
            Ok(line) => exists && line.deep_view() == tail_line(
                follow,
                service_file(name@, ".log"@),
            ),
            Err(ServiceError::NoLogs(n)) => !exists && n@ == name@,
            Err(_) => false,
        },
{
    if !exists {
        return Err(ServiceError::NoLogs(name.to_string()));
    }
    Ok(tail(follow, &log_path(name)))
}

/// The service that a file in the directory of the services belongs to: what
/// stands before `.pid`.
pub open spec fn service_in(file_name: Seq<char>) -> Option<Seq<char>> {
    match before_suffix(file_name, ".pid"@) {
        Some(name) => if name.len() > 0 {
            Some(name)
        } else {
            None
        },
        None => None,
    }
}

/// The service that the file `file_name` belongs to.
pub fn service_of(file_name: &str) -> (r: Option<String>)
    ensures
        r.deep_view() == service_in(file_name@),
{
    match strip_suffix(file_name, ".pid") {
        Some(name) => if name.as_str().is_empty() {
            None
        } else {
            Some(name)
        },
        None => None,
    }
}

/// One service and how it stands.
pub struct ServiceRow {
    pub name: String,
    pub running: bool,
    pub cmd: String,
}

/// The line of one service.
pub open spec fn row_line(row: ServiceRow) -> Seq<char> {
    "  "@ + row.name@ + " ["@ + (if row.running {
        "running"@
    } else {
        "stopped"@
    }) + "] "@ + trimmed(row.cmd@)
}

/// The lines that list the services.
pub open spec fn service_lines(rows: Seq<ServiceRow>) -> Seq<Seq<char>> {
    if rows.len() == 0 {
        seq!["no services"@]
    } else {
        rows.map_values(|row: ServiceRow| row_line(row))
    }
}

/// The lines that list the services.
pub fn list(rows: &Vec<ServiceRow>) -> (r: Vec<String>)
    ensures
        r.deep_view() == service_lines(rows@),
{
    if rows.len() == 0 {
        let r = vec!["no services".to_string()];
        assert(r.deep_view() =~= seq!["no services"@]);
        return r;
    }
    let mut r: Vec<String> = Vec::new();
    let mut i: usize = 0;
    while i < rows.len()
        invariant
            i <= rows.len(),
            r.len() == i,
            forall|j: int| 0 <= j < i ==> #[trigger] r.deep_view()[j] == row_line(rows[j]),
        decreases rows.len() - i,
    {
        let row = &rows[i];
        let mut l = "  ".to_string();
        l.append(&row.name);
        l.append(" [");
        if row.running {
            l.append("running");
        } else {
            l.append("stopped");
        }
        l.append("] ");
        l.append(&trim(&row.cmd));
        let ghost before = r.deep_view();
        r.push(l);
        assert(r.deep_view() == before.push(l@));
        i += 1;
    }
    r
}

/// A service that runs is told to end once, at the start, and is then waited
/// for twenty times; at the last look it is killed if it is still alive. One
/// that is found ended is waited for no more, and one that did not run at the
/// start is left alone.
pub proof fn law_told_once_then_killed(n: u8)
    ensures
        stop_next(Stopping::Asked, true) == (Stopping::Waiting(0), StopAction::Terminate),
        stop_next(Stopping::Asked, false).1 == (StopAction::Finish {
            kill: false,
            was_running: false,
        }),
        n < 19 ==> stop_next(Stopping::Waiting(n), true) == (
            Stopping::Waiting((n + 1) as u8),
            StopAction::Wait,
        ),
        n >= 19 ==> stop_next(Stopping::Waiting(n), true) == (Stopping::Last, StopAction::Wait),
        stop_next(Stopping::Waiting(n), false) == (Stopping::Last, StopAction::Look),
        stop_next(Stopping::Last, true).1 == (StopAction::Finish { kill: true, was_running: true }),
        stop_next(Stopping::Last, false).1 == (StopAction::Finish {
            kill: false,
            was_running: true,
        }),
{
}

/// A service is found by the file with its process, and by no other of its
/// files.
pub proof fn law_service_found_by_its_file(name: Seq<char>)
    requires
        name.len() > 0,
    ensures
        service_in(name + ".pid"@) == Some(name),
        service_in(name + ".cmd"@) is None,
        service_in(name + ".log"@) is None,
        service_in(".pid"@) is None,
        forall|other: Seq<char>| #[trigger]
            service_in(other) == Some(name) ==> other == name + ".pid"@,
{
    reveal_strlit(".pid");
    reveal_strlit(".cmd");
    reveal_strlit(".log");
    crate::text::basic::law_affix_and_rest(name, ".pid"@);
    lemma_other_ending(name, ".cmd"@, ".pid"@);
    lemma_other_ending(name, ".log"@, ".pid"@);
    crate::text::basic::law_affix_and_rest(Seq::<char>::empty(), ".pid"@);
    assert(Seq::<char>::empty() + ".pid"@ == ".pid"@);
    assert forall|other: Seq<char>| #[trigger]
        service_in(other) == Some(name) implies other == name + ".pid"@ by {
        crate::text::basic::law_affix_and_rest(other, ".pid"@);
    }
}

proof fn lemma_other_ending(name: Seq<char>, ending: Seq<char>, other: Seq<char>)
    requires
        ending.len() == other.len() == 4,
        ending[1] != other[1],
    ensures
        before_suffix(name + ending, other) is None,
{
    let s = name + ending;
    if other.is_suffix_of(s) {
        assert(s.subrange(s.len() - 4, s.len() as int)[1] == ending[1]);
    }
}

/// The list of the services has one line for each, which says its name, how it
/// stands and its command; a service that runs never reads as stopped.
pub proof fn law_services_listed(rows: Seq<ServiceRow>, i: int)
    requires
        0 <= i < rows.len(),
    ensures
        service_lines(rows).len() == rows.len(),
        rows[i].running ==> service_lines(rows)[i] == "  "@ + rows[i].name@ + " ["@ + "running"@
            + "] "@ + trimmed(rows[i].cmd@),
        !rows[i].running ==> service_lines(rows)[i] == "  "@ + rows[i].name@ + " ["@ + "stopped"@
            + "] "@ + trimmed(rows[i].cmd@),
{
}

/// What is said of a stop tells a service that was stopped from one that did
/// not run, and names it.
pub proof fn law_stop_told(name: Seq<char>)
    ensures
        stopped_message(name, true) == "stopped "@ + name,
        stopped_message(name, false) == name + " not running"@,
        tail_line(true, name) == seq!["tail"@, "-100"@, "-f"@, name],
        tail_line(false, name) == seq!["tail"@, "-100"@, name],
{
}

/// The files of a service stand in one directory and tell services and kinds
/// of file apart.
pub proof fn law_service_files(name: Seq<char>, extension: Seq<char>)
    requires
        name.len() > 0,
        name[0] != '/',
    ensures
        service_file(name, extension) == "/tmp/cellx/services"@ + "/"@ + name + extension,
{
    reveal_strlit("/tmp/cellx/services");
    reveal_strlit("/");
    let part = name + extension;
    assert(part[0] == name[0]);
    if "/"@.is_prefix_of(part) {
        assert(part.subrange(0, 1)[0] == "/"@[0]);
    }
    if "/"@.is_suffix_of(SERVICES_DIR@) {
        let s = SERVICES_DIR@;
        assert(s.subrange(s.len() - 1, s.len() as int)[0] == "/"@[0]);
        assert(s[s.len() - 1] == 's');
    }
    assert(SERVICES_DIR@ + "/"@ + part == SERVICES_DIR@ + "/"@ + name + extension);
}

/// Each reason why nothing can be done for a service is said in words of its
/// own, with the service that it is about.
pub proof fn law_service_errors_said(n: String)
    ensures
        ServiceError::NotFound(n).words() == "service '"@ + n@ + "' not found"@,
        ServiceError::InvalidPid.words() == "invalid PID"@,
        ServiceError::NoCommand.words() == "no command specified"@,
        ServiceError::AlreadyRunning(n).words() == "service '"@ + n@
            + "' already running (use restart)"@,
        ServiceError::NoPreviousCommand(n).words() == "no previous command for service '"@ + n@
            + "'"@,
        ServiceError::NoLogs(n).words() == "no logs for service '"@ + n@ + "'"@,
{
}

} // verus!
