//! What the command line of the executor asks for.

use crate::flow::state::{Decision, DecisionView, CELLX_DIR};
use crate::flow::time::{duration_fits, duration_of, parse_duration};
use crate::json::{json_read, json_tree, read_value};
use crate::path::{parent, parent_of};
use crate::text::split::{join, joined};
use vstd::prelude::*;

verus! {

/// The parameters given on the command line as a JSON text, or why they cannot
/// be read.
pub fn params_of(text: Option<&str>) -> (r: Result<Option<serde_json::Value>, String>)
    ensures
        match text {
            None => r == Ok::<Option<serde_json::Value>, String>(None),
            Some(t) => match json_read(t@) {
                Ok(tree) => r matches Ok(Some(v)) && json_tree(v) == tree,
                Err(m) => r matches Err(e) && e@ == "invalid --params JSON: "@ + m,
            },
        },
{
    match text {
        None => Ok(None),
        Some(t) => match read_value(t) {
            Ok(v) => Ok(Some(v)),
            Err(m) => {
                let mut e = "invalid --params JSON: ".to_string();
                e.append(&m);
                Err(e)
            },
        },
    }
}

/// The decision to run an op again. A delay that is no duration is none.
pub fn retry(after: Option<&str>) -> (r: Decision)
    requires
        after matches Some(a) ==> duration_fits(a@),
    ensures
        match after {
            None => r@ == (DecisionView::Retry { after: None }),
            Some(a) => match duration_of(a@) {
                Some(n) => n <= u64::MAX && r@ == (DecisionView::Retry { after: Some(n as u64) }),
                None => r@ == (DecisionView::Retry { after: None }),
            },
        },
{
    match after {
        None => Decision::Retry { after: None },
        Some(a) => Decision::Retry { after: parse_duration(a) },
    }
}

/// The workspace that an op decides in: the one its environment names.
pub fn workspace_from_env(named: Option<&str>) -> (r: String)
    ensures
        r@ == (match named {
            Some(w) => w@,
            None => CELLX_DIR@,
        }),
{
    match named {
        Some(w) => w.to_string(),
        None => CELLX_DIR.to_string(),
    }
}

/// The search for the root of the repository.
pub enum RootSearch {
    /// It is this one.
    Found(String),
    /// Look in this directory.
    Try(String),
    /// There is none.
    NotFound,
}

/// The message where no root is found.
pub const NO_ROOT: &'static str = "not in a cella repo (no .cella/ found)";

/// How the search goes on from the directory `dir`: it ends there where it
/// holds `.cella`, and else goes up. Since every directory it tries has a
/// shorter path than the one before, it comes to an end.
pub fn detect_repo_root(dir: &str, has_cella: bool) -> (r: RootSearch)
    ensures
        if has_cella {
            r matches RootSearch::Found(d) && d@ == dir@
        } else {
            match parent_of(dir@) {
                Some(p) => r matches RootSearch::Try(d) && d@ == p,
                None => r is NotFound,
            }
        },
        r matches RootSearch::Try(d) ==> d@.len() < dir@.len(),
{
    if has_cella {
        RootSearch::Found(dir.to_string())
    } else {
        match parent(dir) {
            Some(p) => RootSearch::Try(p),
            None => RootSearch::NotFound,
        }
    }
}

/// The command that the words of a command line make.
pub fn service_command(cmd: &Vec<String>) -> (r: String)
    ensures
        r@ == joined(cmd.deep_view(), " "@),
{
    join(cmd, " ")
}

/// The command that a service is restarted with, where one is given.
pub fn restart_command(cmd: &Vec<String>) -> (r: Option<String>)
    ensures
        r.deep_view() == (if cmd.len() == 0 {
            None
        } else {
            Some(joined(cmd.deep_view(), " "@))
        }),
{
    if cmd.len() == 0 {
        None
    } else {
        Some(join(cmd, " "))
    }
}

} // verus!
