//! The services that a server runs for its cells: the control interface, and
//! the sweep that stops stale cells.

use crate::cella::client::{
    follow_after, law_cell_followed, CellStatus, FlowInfo, FollowNext, UpResponse,
};
use crate::cella::exec::{detached, detached_script, quoted, shell_escape};
use crate::command::{ssh, ssh_line, ssh_within, ssh_within_line};
use crate::flow::state::{law_states_told_apart, FlowReport, FlowState};
use crate::http::{
    accepted, bad_request, body_in, body_of, cell_in_path, deregistered_ip, done, done_or,
    missing_body, missing_ip, no_body, unreadable, Reply, ReplyView, Status,
};
use crate::json::{
    add_member, lemma_member_found, members_of, object, printed, render, text, under, Json, Tree,
};
use crate::path::{join, joined_path};
use crate::session::cell::{cell_dir, dir_of};
use crate::text::basic::{contains, occurs, same, starts_with, trim, trimmed};
use crate::text::number::{decimal, decimal_text, hex_text, numeral};
use vstd::prelude::*;

verus! {

// Configuration, shared with the proxy as JSON

/// How the services of a server are set up.
pub struct ProxyConfig {
    pub cells: Vec<CellRules>,
    pub egress: EgressConfig,
    pub http_port: u16,
    pub git_credential_port: u16,
    pub control_port: u16,
    pub log_file: String,
    pub bind_address: String,
    /// The seconds after which a cell is stopped whose op still runs.
    pub sweep_timeout: u64,
    /// The seconds between two sweeps.
    pub sweep_interval: u64,
}

/// Six hours.
pub fn default_sweep_timeout() -> (r: u64)
    ensures
        r == 6 * 3600,
{
    21600
}

/// Five minutes.
pub fn default_sweep_interval() -> (r: u64)
    ensures
        r == 300,
{
    300
}

/// What all cells may reach.
pub struct EgressConfig {
    pub reads: EgressRules,
    pub writes: EgressRules,
    pub credentials: Vec<CredentialRule>,
}

/// Which hosts may and may not be reached by which methods.
pub struct EgressRules {
    pub methods: Vec<String>,
    pub allowed: serde_json::Value,
    pub denied: serde_json::Value,
}

/// A cell and what it may reach.
pub struct CellRules {
    pub cell_ip: String,
    pub branch_id: String,
    pub egress: Option<CellEgress>,
}

/// What one cell may reach.
pub struct CellEgress {
    /// Besides what all cells may reach.
    pub additive: bool,
    pub reads: Option<CellEgressRules>,
    pub writes: Option<CellEgressRules>,
}

/// Which hosts may and may not be reached.
pub struct CellEgressRules {
    pub allowed: Option<Vec<String>>,
    pub denied: Option<Vec<String>>,
}

/// A credential that is put into requests to a host.
pub struct CredentialRule {
    pub host: String,
    pub header: String,
    pub env_var: String,
}

/// The file with the cells.
pub const DYNAMIC_CELLS: &'static str = "/var/lib/cella/cells.json";

// The cells

/// Whether a cell has another address than `ip`.
pub open spec fn elsewhere(ip: Seq<char>) -> spec_fn(CellRules) -> bool {
    |c: CellRules| c.cell_ip@ != ip
}

/// The cells without the one at `ip`.
pub open spec fn without(cells: Seq<CellRules>, ip: Seq<char>) -> Seq<CellRules> {
    cells.filter(elsewhere(ip))
}

/// The cell at `ip`: the first with that address.
pub open spec fn cell_at(cells: Seq<CellRules>, ip: Seq<char>) -> Option<Seq<char>>
    decreases cells.len(),
{
    if cells.len() == 0 {
        None
    } else if cells[0].cell_ip@ == ip {
        Some(cells[0].branch_id@)
    } else {
        cell_at(cells.drop_first(), ip)
    }
}

/// The cells without the one at `ip`.
pub fn deregister_cell(cells: Vec<CellRules>, ip: &str) -> (r: Vec<CellRules>)
    ensures
        r@ == without(cells@, ip@),
{
    let ghost all = cells@;
    let ghost keep = elsewhere(ip@);
    let mut rest = cells;
    let mut r: Vec<CellRules> = Vec::new();
    let ghost mut n: int = 0;
    assert(all.skip(0) == all);
    assert(all.take(0).filter(keep) == Seq::<CellRules>::empty()) by {
        reveal(Seq::filter);
    }
    while rest.len() > 0
        invariant
            0 <= n <= all.len(),
            keep == elsewhere(ip@),
            rest@ == all.skip(n),
            r@ == all.take(n).filter(keep),
        decreases rest.len(),
    {
        let c = rest.remove(0);
        assert(c == all[n]);
        assert(rest@ == all.skip(n + 1));
        assert(all.take(n + 1).drop_last() == all.take(n));
        let ghost before = r@;
        if !same(&c.cell_ip, ip) {
            r.push(c);
        }
        assert(r@ == all.take(n + 1).filter(keep)) by {
            reveal(Seq::filter);
        }
        proof {
            n = n + 1;
        }
    }
    assert(all.take(all.len() as int) == all);
    r
}

/// The cells with one more, in place of the one that had its address.
pub fn register_cell(cells: Vec<CellRules>, rules: CellRules) -> (r: Vec<CellRules>)
    ensures
        r@ == without(cells@, rules.cell_ip@).push(rules),
{
    let ip = rules.cell_ip.clone();
    let mut r = deregister_cell(cells, &ip);
    r.push(rules);
    r
}

/// The cell at `ip`.
pub fn find_cell(cells: &Vec<CellRules>, ip: &str) -> (r: Option<String>)
    ensures
        r.deep_view() == cell_at(cells@, ip@),
{
    let mut i: usize = 0;
    assert(cells@.skip(0) == cells@);
    while i < cells.len()
        invariant
            i <= cells.len(),
            cell_at(cells@, ip@) == cell_at(cells@.skip(i as int), ip@),
        decreases cells.len() - i,
    {
        assert(cells@.skip(i as int)[0] == cells@[i as int]);
        assert(cells@.skip(i as int).drop_first() == cells@.skip(i + 1));
        if same(&cells[i].cell_ip, ip) {
            return Some(cells[i].branch_id.clone());
        }
        i += 1;
    }
    None
}

proof fn lemma_cell_at_absent(cells: Seq<CellRules>, ip: Seq<char>)
    requires
        forall|i: int| 0 <= i < cells.len() ==> (#[trigger] cells[i]).cell_ip@ != ip,
    ensures
        cell_at(cells, ip) is None,
    decreases cells.len(),
{
    if cells.len() > 0 {
        let rest = cells.drop_first();
        assert forall|i: int| 0 <= i < rest.len() implies (#[trigger] rest[i]).cell_ip@ != ip by {
            assert(rest[i] == cells[i + 1]);
        }
        lemma_cell_at_absent(rest, ip);
    }
}

proof fn lemma_cell_at_push(cells: Seq<CellRules>, rules: CellRules, ip: Seq<char>)
    requires
        forall|i: int| 0 <= i < cells.len() ==> (#[trigger] cells[i]).cell_ip@ != rules.cell_ip@,
    ensures
        cell_at(cells.push(rules), ip) == (if ip == rules.cell_ip@ {
            Some(rules.branch_id@)
        } else {
            cell_at(cells, ip)
        }),
    decreases cells.len(),
{
    let all = cells.push(rules);
    if cells.len() > 0 {
        let rest = cells.drop_first();
        assert(all.drop_first() == rest.push(rules));
        assert forall|i: int| 0 <= i < rest.len() implies (#[trigger] rest[i]).cell_ip@
            != rules.cell_ip@ by {
            assert(rest[i] == cells[i + 1]);
        }
        lemma_cell_at_push(rest, rules, ip);
        assert(all[0] == cells[0]);
    } else {
        assert(all.drop_first() == Seq::<CellRules>::empty());
        assert(cell_at(Seq::<CellRules>::empty(), ip) is None);
        assert(all[0] == rules);
    }
}

proof fn lemma_without(cells: Seq<CellRules>, ip: Seq<char>)
    ensures
        forall|i: int|
            0 <= i < without(cells, ip).len() ==> (#[trigger] without(cells, ip)[i]).cell_ip@ != ip,
{
    let keep = elsewhere(ip);
    assert forall|i: int| 0 <= i < without(cells, ip).len() implies (
    #[trigger] without(cells, ip)[i]).cell_ip@ != ip by {
        cells.lemma_filter_pred(keep, i);
        assert(keep(cells.filter(keep)[i]));
    }
}

proof fn lemma_cell_at_without(cells: Seq<CellRules>, ip: Seq<char>, other: Seq<char>)
    requires
        other != ip,
    ensures
        cell_at(without(cells, ip), other) == cell_at(cells, other),
    decreases cells.len(),
{
    let keep = elsewhere(ip);
    if cells.len() == 0 {
        reveal(Seq::filter);
    } else {
        let rest = cells.drop_first();
        lemma_cell_at_without(rest, ip, other);
        assert(cells == seq![cells[0]] + rest);
        Seq::filter_distributes_over_add(seq![cells[0]], rest, keep);
        assert(seq![cells[0]].filter(keep) == (if keep(cells[0]) {
            seq![cells[0]]
        } else {
            Seq::<CellRules>::empty()
        })) by {
            reveal(Seq::filter);
            assert(seq![cells[0]].drop_last() == Seq::<CellRules>::empty());
            assert(seq![cells[0]].last() == cells[0]);
            assert(Seq::<CellRules>::empty().filter(keep) == Seq::<CellRules>::empty());
        }
        let w = without(cells, ip);
        if keep(cells[0]) {
            assert(w == seq![cells[0]] + without(rest, ip));
            assert(w.drop_first() == without(rest, ip));
            assert(w[0] == cells[0]);
        } else {
            assert(w == without(rest, ip));
        }
    }
}

/// A cell that was registered is the one found at its address, and the only
/// one there. What is found at other addresses stays.
pub proof fn law_registered_cell_found(cells: Seq<CellRules>, rules: CellRules, other: Seq<char>)
    ensures
        cell_at(without(cells, rules.cell_ip@).push(rules), rules.cell_ip@) == Some(
            rules.branch_id@,
        ),
        forall|i: int|
            0 <= i < without(cells, rules.cell_ip@).len() ==> (#[trigger] without(
                cells,
                rules.cell_ip@,
            )[i]).cell_ip@ != rules.cell_ip@,
        other != rules.cell_ip@ ==> cell_at(
            without(cells, rules.cell_ip@).push(rules),
            other,
        ) == cell_at(cells, other),
{
    let rest = without(cells, rules.cell_ip@);
    lemma_without(cells, rules.cell_ip@);
    lemma_cell_at_push(rest, rules, rules.cell_ip@);
    lemma_cell_at_push(rest, rules, other);
    if other != rules.cell_ip@ {
        lemma_cell_at_without(cells, rules.cell_ip@, other);
    }
}

/// Nothing is found at an address whose cell was deregistered. What is found
/// at other addresses stays.
pub proof fn law_deregistered_cell_gone(cells: Seq<CellRules>, ip: Seq<char>, other: Seq<char>)
    ensures
        cell_at(without(cells, ip), ip) is None,
        other != ip ==> cell_at(without(cells, ip), other) == cell_at(cells, other),
{
    lemma_without(cells, ip);
    lemma_cell_at_absent(without(cells, ip), ip);
    if other != ip {
        lemma_cell_at_without(cells, ip, other);
    }
}

// The control interface

/// What a request to the control interface is about.
#[derive(Clone, Copy, Debug, PartialEq, Eq, Structural)]
pub enum Route {
    /// The output of a flow, as it comes.
    FlowLogsFollow,
    FlowStart,
    FlowStop,
    FlowPause,
    FlowLogs,
    RegisterCell,
    DeregisterCell,
    ListCells,
    Prepare,
    Up,
    Down,
    Delete,
    FlowStatus,
    List,
    Unknown,
}

/// The body asks for output as it comes.
pub open spec fn asks_follow(body: Seq<char>) -> bool {
    occurs(body, "\"follow\":true"@) || occurs(body, "\"follow\": true"@)
}

/// What a request is about: the first of these that it begins with.
pub open spec fn route_of(req: Seq<char>) -> Route {
    if "POST /flow/logs"@.is_prefix_of(req) && (body_in(req) matches Some(b) && asks_follow(b)) {
        Route::FlowLogsFollow
    } else if "POST /flow/start"@.is_prefix_of(req) {
        Route::FlowStart
    } else if "POST /flow/stop"@.is_prefix_of(req) {
        Route::FlowStop
    } else if "POST /flow/pause"@.is_prefix_of(req) {
        Route::FlowPause
    } else if "POST /flow/logs"@.is_prefix_of(req) {
        Route::FlowLogs
    } else if "POST /cells"@.is_prefix_of(req) {
        Route::RegisterCell
    } else if "DELETE /cells/"@.is_prefix_of(req) {
        Route::DeregisterCell
    } else if "GET /cells"@.is_prefix_of(req) {
        Route::ListCells
    } else if "POST /prepare"@.is_prefix_of(req) {
        Route::Prepare
    } else if "POST /up"@.is_prefix_of(req) {
        Route::Up
    } else if "POST /down"@.is_prefix_of(req) {
        Route::Down
    } else if "POST /delete"@.is_prefix_of(req) {
        Route::Delete
    } else if "POST /flow-status"@.is_prefix_of(req) {
        Route::FlowStatus
    } else if "GET /list"@.is_prefix_of(req) {
        Route::List
    } else {
        Route::Unknown
    }
}

/// Every request is served for what its method and path say, and a request for
/// output as it comes is told from one for the last lines by its body. Any
/// other request is unknown.
pub proof fn law_requests_routed(req: Seq<char>)
    ensures
        "POST /flow/start"@.is_prefix_of(req) ==> route_of(req) == Route::FlowStart,
        "POST /flow/stop"@.is_prefix_of(req) ==> route_of(req) == Route::FlowStop,
        "POST /flow/pause"@.is_prefix_of(req) ==> route_of(req) == Route::FlowPause,
        "POST /flow/logs"@.is_prefix_of(req) ==> (route_of(req) == Route::FlowLogsFollow <==> (
        body_in(req) matches Some(b) && asks_follow(b))) && (route_of(req) == Route::FlowLogsFollow
            || route_of(req) == Route::FlowLogs),
        "POST /cells"@.is_prefix_of(req) ==> route_of(req) == Route::RegisterCell,
        "DELETE /cells/"@.is_prefix_of(req) ==> route_of(req) == Route::DeregisterCell,
        "GET /cells"@.is_prefix_of(req) ==> route_of(req) == Route::ListCells,
        "POST /prepare"@.is_prefix_of(req) ==> route_of(req) == Route::Prepare,
        "POST /up"@.is_prefix_of(req) ==> route_of(req) == Route::Up,
        "POST /down"@.is_prefix_of(req) ==> route_of(req) == Route::Down,
        "POST /delete"@.is_prefix_of(req) ==> route_of(req) == Route::Delete,
        "POST /flow-status"@.is_prefix_of(req) ==> route_of(req) == Route::FlowStatus,
        "GET /list"@.is_prefix_of(req) ==> route_of(req) == Route::List,
        !"POST /flow/start"@.is_prefix_of(req)
            && !"POST /flow/stop"@.is_prefix_of(req)
            && !"POST /flow/pause"@.is_prefix_of(req)
            && !"POST /flow/logs"@.is_prefix_of(req)
            && !"POST /cells"@.is_prefix_of(req)
            && !"DELETE /cells/"@.is_prefix_of(req)
            && !"GET /cells"@.is_prefix_of(req)
            && !"POST /prepare"@.is_prefix_of(req)
            && !"POST /up"@.is_prefix_of(req)
            && !"POST /down"@.is_prefix_of(req)
            && !"POST /delete"@.is_prefix_of(req)
            && !"POST /flow-status"@.is_prefix_of(req)
            && !"GET /list"@.is_prefix_of(req) ==> route_of(req)
            == Route::Unknown,
{
    reveal_strlit("POST /flow/start");
    reveal_strlit("POST /flow/stop");
    reveal_strlit("POST /flow/pause");
    reveal_strlit("POST /flow/logs");
    reveal_strlit("POST /cells");
    reveal_strlit("DELETE /cells/");
    reveal_strlit("GET /cells");
    reveal_strlit("POST /prepare");
    reveal_strlit("POST /up");
    reveal_strlit("POST /down");
    reveal_strlit("POST /delete");
    reveal_strlit("POST /flow-status");
    reveal_strlit("GET /list");
    lemma_prefix_chars(req, "POST /flow/start"@);
    lemma_prefix_chars(req, "POST /flow/stop"@);
    lemma_prefix_chars(req, "POST /flow/pause"@);
    lemma_prefix_chars(req, "POST /flow/logs"@);
    lemma_prefix_chars(req, "POST /cells"@);
    lemma_prefix_chars(req, "DELETE /cells/"@);
    lemma_prefix_chars(req, "GET /cells"@);
    lemma_prefix_chars(req, "POST /prepare"@);
    lemma_prefix_chars(req, "POST /up"@);
    lemma_prefix_chars(req, "POST /down"@);
    lemma_prefix_chars(req, "POST /delete"@);
    lemma_prefix_chars(req, "POST /flow-status"@);
    lemma_prefix_chars(req, "GET /list"@);
    assert("POST /flow/start"@[11] == 's' && "POST /flow/start"@[13] == 'a');
    assert("POST /flow/stop"@[11] == 's' && "POST /flow/stop"@[13] == 'o');
    assert("POST /flow/pause"@[11] == 'p' && "POST /flow/logs"@[11] == 'l');
    assert("POST /flow-status"@[10] == '-' && "POST /flow/start"@[10] == '/');
    assert("POST /flow/start"@[6] == 'f' && "POST /flow/stop"@[6] == 'f');
    assert("POST /flow/pause"@[6] == 'f' && "POST /flow/logs"@[6] == 'f');
    assert("POST /flow-status"@[6] == 'f' && "POST /cells"@[6] == 'c');
    assert("POST /prepare"@[6] == 'p' && "POST /up"@[6] == 'u');
    assert("POST /down"@[6] == 'd' && "POST /delete"@[6] == 'd');
    assert("POST /down"@[7] == 'o' && "POST /delete"@[7] == 'e');
    assert("DELETE /cells/"@[0] == 'D' && "GET /cells"@[0] == 'G' && "GET /list"@[0] == 'G');
    assert("GET /cells"@[5] == 'c' && "GET /list"@[5] == 'l');
    assert("POST /cells"@[0] == 'P' && "POST /flow/logs"@[0] == 'P');
    assert("POST /flow/start"@[0] == 'P' && "POST /flow/stop"@[0] == 'P');
    assert("POST /flow/pause"@[0] == 'P' && "POST /flow-status"@[0] == 'P');
    assert("POST /prepare"@[0] == 'P' && "POST /up"@[0] == 'P');
    assert("POST /down"@[0] == 'P' && "POST /delete"@[0] == 'P');
}

/// What begins a text gives its first characters.
pub proof fn lemma_prefix_chars(s: Seq<char>, p: Seq<char>)
    ensures
        p.is_prefix_of(s) ==> p.len() <= s.len() && forall|i: int|
            0 <= i < p.len() ==> s[i] == #[trigger] p[i],
{
    if p.is_prefix_of(s) {
        assert forall|i: int| 0 <= i < p.len() implies s[i] == #[trigger] p[i] by {
            assert(s.subrange(0, p.len() as int)[i] == s[i]);
        }
    }
}

/// What a request to the control interface is about.
pub fn serve_control_api(req: &str) -> (r: Route)
    ensures
        r == route_of(req@),
{
    if starts_with(req, "POST /flow/logs") {
        if let Some(body) = body_of(req) {
            if contains(&body, "\"follow\":true") || contains(&body, "\"follow\": true") {
                return Route::FlowLogsFollow;
            }
        }
    }
    if starts_with(req, "POST /flow/start") {
        Route::FlowStart
    } else if starts_with(req, "POST /flow/stop") {
        Route::FlowStop
    } else if starts_with(req, "POST /flow/pause") {
        Route::FlowPause
    } else if starts_with(req, "POST /flow/logs") {
        Route::FlowLogs
    } else if starts_with(req, "POST /cells") {
        Route::RegisterCell
    } else if starts_with(req, "DELETE /cells/") {
        Route::DeregisterCell
    } else if starts_with(req, "GET /cells") {
        Route::ListCells
    } else if starts_with(req, "POST /prepare") {
        Route::Prepare
    } else if starts_with(req, "POST /up") {
        Route::Up
    } else if starts_with(req, "POST /down") {
        Route::Down
    } else if starts_with(req, "POST /delete") {
        Route::Delete
    } else if starts_with(req, "POST /flow-status") {
        Route::FlowStatus
    } else if starts_with(req, "GET /list") {
        Route::List
    } else {
        Route::Unknown
    }
}

/// What becomes of a request about the cells.
pub struct CellsReply {
    pub reply: Reply,
    /// The cells that are kept from then on, where they change.
    pub cells: Option<Vec<CellRules>>,
}

/// What becomes of a request to register a cell; `asked` is what its body
/// says, where it has one.
pub fn handle_register(cells: Vec<CellRules>, asked: Option<Result<CellRules, String>>) -> (r:
    CellsReply)
    ensures
        match asked {
            None => r.reply@ == missing_body() && r.cells is None,
            Some(Err(e)) => r.reply@ == bad_request(e@) && r.cells is None,
            Some(Ok(rules)) => r.reply@ == (ReplyView { status: Status::Fine, body: "ok"@ }) && (
            r.cells matches Some(v) && v@ == without(cells@, rules.cell_ip@).push(rules)),
        },
{
    match asked {
        None => CellsReply { reply: no_body(), cells: None },
        Some(Err(e)) => CellsReply { reply: unreadable(&e), cells: None },
        Some(Ok(rules)) => CellsReply {
            reply: accepted(),
            cells: Some(register_cell(cells, rules)),
        },
    }
}

/// What becomes of the request `req` to deregister a cell.
pub fn handle_deregister(cells: Vec<CellRules>, req: &str) -> (r: CellsReply)
    ensures
        if cell_in_path(req@).len() == 0 {
            r.reply@ == (ReplyView { status: Status::BadRequest, body: "missing ip"@ })
                && r.cells is None
        } else {
            r.reply@ == (ReplyView { status: Status::Fine, body: "ok"@ }) && (r.cells matches Some(v)
                && v@ == without(cells@, cell_in_path(req@)))
        },
{
    let ip = deregistered_ip(req);
    if ip.as_str().is_empty() {
        return CellsReply { reply: missing_ip(), cells: None };
    }
    CellsReply { reply: accepted(), cells: Some(deregister_cell(cells, &ip)) }
}

/// The answer about a cell that was started and has the address in its file
/// `ip`, or could not be started.
pub fn handle_up(result: Result<Option<String>, String>) -> (r: (Status, UpResponse))
    ensures
        match result {
            Ok(ip) => r.0 == Status::Fine && r.1.ok && r.1.error is None && (r.1.ip matches Some(i)
                && i@ == (match ip {
                Some(t) => trimmed(t@),
                None => Seq::<char>::empty(),
            })),
            Err(e) => r.0 == Status::ServerError && !r.1.ok && r.1.ip is None && (r.1.error
                matches Some(m) && m@ == e@),
        },
{
    match result {
        Ok(ip) => {
            let address = match ip {
                Some(t) => trim(&t),
                None => String::new(),
            };
            (Status::Fine, UpResponse { ok: true, ip: Some(address), error: None })
        },
        Err(e) => (Status::ServerError, UpResponse { ok: false, ip: None, error: Some(e) }),
    }
}

/// The repository of a request that does not name one.
pub fn repo_or_unknown(repo: Option<&str>) -> (r: String)
    ensures
        r@ == (match repo {
            Some(n) => n@,
            None => "unknown"@,
        }),
{
    match repo {
        Some(n) => n.to_string(),
        None => "unknown".to_string(),
    }
}

/// `running` or `stopped`.
pub open spec fn run_word(running: bool) -> Seq<char> {
    if running {
        "running"@
    } else {
        "stopped"@
    }
}

/// `running` or `stopped`.
pub fn run_text(running: bool) -> (r: String)
    ensures
        r@ == run_word(running),
{
    if running {
        "running".to_string()
    } else {
        "stopped".to_string()
    }
}

/// What a file holds, without white space at its ends.
pub open spec fn trimmed_file(content: Option<Seq<char>>) -> Option<Seq<char>> {
    match content {
        Some(c) => Some(trimmed(c)),
        None => None,
    }
}

fn trim_file(content: Option<&str>) -> (r: Option<String>)
    ensures
        r.deep_view() == trimmed_file(content.deep_view()),
{
    match content {
        Some(c) => Some(trim(c)),
        None => None,
    }
}

/// The cell `name` in a listing, from the contents of its files where they are
/// there. Its address is shown only while it runs.
pub fn handle_list(
    name: &str,
    running: bool,
    ip: Option<&str>,
    repo: Option<&str>,
    flow: Option<FlowInfo>,
) -> (r: CellStatus)
    ensures
        r.name@ == name@,
        r.status@ == run_word(running),
        r.ip.deep_view() == (if running {
            trimmed_file(ip.deep_view())
        } else {
            None
        }),
        r.repo.deep_view() == trimmed_file(repo.deep_view()),
        r.flow == flow,
{
    CellStatus {
        name: name.to_string(),
        status: run_text(running),
        ip: if running {
            trim_file(ip)
        } else {
            None
        },
        repo: trim_file(repo),
        flow,
    }
}

// Flows

/// Where a flow writes to.
pub const FLOW_LOG: &'static str = "/tmp/cellx/flow.log";

/// The command that runs a flow.
pub open spec fn flow_command(flow: Seq<char>, params: Option<Seq<char>>) -> Seq<char> {
    match params {
        Some(p) => "cellx flow run "@ + flow + " --params "@ + quoted(p),
        None => "cellx flow run "@ + flow,
    }
}

/// The script that runs a flow on, when nobody is connected any more.
pub open spec fn flow_script(flow: Seq<char>, params: Option<Seq<char>>) -> Seq<char> {
    detached_script(flow_command(flow, params), FLOW_LOG@)
}

/// The script that runs a flow on, when nobody is connected any more.
pub fn flow_detached(flow: &str, params: Option<&str>) -> (r: String)
    ensures
        r@ == flow_script(flow@, params.deep_view()),
{
    let mut inner = "cellx flow run ".to_string();
    inner.append(flow);
    if let Some(p) = params {
        inner.append(" --params ");
        inner.append(&shell_escape(p));
    }
    detached(&inner, FLOW_LOG)
}

/// The directory of the repository in a cell.
pub open spec fn flow_workspace(repo: Option<Seq<char>>) -> Seq<char> {
    "/"@ + (match repo {
        Some(r) => trimmed(r),
        None => "cell"@,
    })
}

/// The command that starts a flow in the cell at `target`; `repo` is the
/// content of its file with the repository, where it is there.
pub fn handle_flow_start(
    target: &str,
    repo: Option<&str>,
    flow: &str,
    params: Option<&str>,
) -> (r: Vec<String>)
    ensures
        r.deep_view() == ssh_line(
            target@,
            "cd "@ + quoted(flow_workspace(repo.deep_view())) + " && "@ + flow_script(
                flow@,
                params.deep_view(),
            ),
        ),
{
    let mut workspace = "/".to_string();
    match repo {
        Some(t) => workspace.append(&trim(t)),
        None => workspace.append("cell"),
    }
    let mut script = "cd ".to_string();
    script.append(&shell_escape(&workspace));
    script.append(" && ");
    script.append(&flow_detached(flow, params));
    ssh(target, &script)
}

/// The command that stops the flow in the cell at `target`.
pub fn handle_flow_stop(target: &str) -> (r: Vec<String>)
    ensures
        r.deep_view() == ssh_within_line("ConnectTimeout=5"@, target@, "cellx flow done"@),
{
    ssh_within("ConnectTimeout=5", target, "cellx flow done")
}

/// The command that pauses the flow in the cell at `target`.
pub fn handle_flow_pause(target: &str) -> (r: Vec<String>)
    ensures
        r.deep_view() == ssh_within_line("ConnectTimeout=5"@, target@, "cellx flow pause"@),
{
    ssh_within("ConnectTimeout=5", target, "cellx flow pause")
}

/// How many lines of the output of a flow are shown where nobody says.
pub fn default_lines() -> (r: u32)
    ensures
        r == 100,
{
    100
}

/// The command that shows the last lines of the output of a flow.
pub fn handle_flow_logs(target: &str, count: u32) -> (r: Vec<String>)
    ensures
        r.deep_view() == ssh_line(
            target@,
            "tail -"@ + decimal(count as nat) + " /tmp/cellx/flow.log 2>/dev/null"@,
        ),
{
    let mut script = "tail -".to_string();
    script.append(&decimal_text(count as u64));
    script.append(" /tmp/cellx/flow.log 2>/dev/null");
    ssh(target, &script)
}

/// The output of a flow as it is sent.
pub open spec fn logs_tree(content: Seq<char>) -> Tree {
    Tree::Object(seq![("ok"@, Tree::Bool(true)), ("content"@, Tree::Text(content))])
}

/// The answer with the output of a flow, or why there is none.
pub fn logs_reply(result: Result<String, String>) -> (r: Reply)
    ensures
        match result {
            Ok(content) => r@ == (ReplyView {
                status: Status::Fine,
                body: printed(logs_tree(content@)),
            }),
            Err(e) => r@ == done_or(Some(e@)),
        },
{
    match result {
        Ok(content) => {
            let mut m: Vec<(String, Json)> = Vec::new();
            assert(members_of(m@) == Seq::<(Seq<char>, Tree)>::empty());
            add_member(&mut m, "ok", Json::Bool(true));
            add_member(&mut m, "content", text(&content));
            assert(members_of(m@) == logs_tree(content@)->Object_0);
            Reply { status: Status::Fine, body: render(&object(m)) }
        },
        Err(e) => done(Some(e.as_str())),
    }
}

/// The script that shows the output of a flow until it ends.
pub const FOLLOW_SCRIPT: &'static str =
    "tail -f /tmp/cellx/flow.log 2>/dev/null & TAIL=$!; while kill -0 $TAIL 2>/dev/null; do if [ ! -f /tmp/cellx/flow.json ]; then kill $TAIL 2>/dev/null; break; fi; sleep 1; done; wait $TAIL 2>/dev/null";

/// How far a request to follow the output of a flow has come.
pub enum Follow {
    /// It has no body.
    NoBody,
    /// Its body cannot be read.
    Unreadable,
    /// The cell cannot be reached.
    Unreachable,
    /// The cell is reached at this target.
    Reached(String),
}

/// What is done for a request to follow the output of a flow.
pub struct FollowPlan {
    /// Send this.
    pub head: String,
    /// Then run this and send what it prints in chunks, and the last chunk at
    /// its end.
    pub command: Option<Vec<String>>,
}

/// What is done for a request to follow the output of a flow.
pub fn handle_flow_logs_follow(request: &Follow) -> (r: FollowPlan)
    ensures
        match *request {
            Follow::NoBody => r.command is None && r.head@
                == "HTTP/1.1 400 Bad Request\r\ncontent-length: 12\r\n\r\nmissing body"@,
            Follow::Unreadable => r.command is None && r.head@
                == "HTTP/1.1 400 Bad Request\r\ncontent-length: 11\r\n\r\nbad request"@,
            Follow::Unreachable => r.command is None && r.head@
                == "HTTP/1.1 500 Internal Server Error\r\ncontent-length: 16\r\n\r\ncannot reach cell"@,
            Follow::Reached(target) => r.command.deep_view() == Some(
                ssh_line(target@, FOLLOW_SCRIPT@),
            ) && r.head@ == "HTTP/1.1 200 OK\r\ntransfer-encoding: chunked\r\n\r\n"@,
        },
{
    match request {
        Follow::NoBody => FollowPlan {
            head: "HTTP/1.1 400 Bad Request\r\ncontent-length: 12\r\n\r\nmissing body".to_string(),
            command: None,
        },
        Follow::Unreadable => FollowPlan {
            head: "HTTP/1.1 400 Bad Request\r\ncontent-length: 11\r\n\r\nbad request".to_string(),
            command: None,
        },
        Follow::Unreachable => FollowPlan {
            head:
                "HTTP/1.1 500 Internal Server Error\r\ncontent-length: 16\r\n\r\ncannot reach cell".to_string(),
            command: None,
        },
        Follow::Reached(target) => FollowPlan {
            head: "HTTP/1.1 200 OK\r\ntransfer-encoding: chunked\r\n\r\n".to_string(),
            command: Some(ssh(target, FOLLOW_SCRIPT)),
        },
    }
}

/// What is sent before a chunk of `size` bytes: its size in hexadecimal.
pub fn chunk_head(size: usize) -> (r: String)
    ensures
        r@ == numeral(size as nat, 16) + "\r\n"@,
{
    let mut r = hex_text(size as u64);
    r.append("\r\n");
    r
}

/// What is sent after a chunk.
pub const CHUNK_END: &'static str = "\r\n";

/// What is sent after the last chunk.
pub const LAST_CHUNK: &'static str = "0\r\n\r\n";

/// The file with the status of the flow of the cell `name`.
pub open spec fn flow_status_file(name: Seq<char>) -> Seq<char> {
    joined_path(dir_of(name), "flow-status.json"@)
}

/// The file with the status of the flow of the cell `name`.
pub fn flow_status_path(name: &str) -> (r: String)
    ensures
        r@ == flow_status_file(name@),
{
    join(&cell_dir(name), "flow-status.json")
}

/// What is kept is what the report says.
pub open spec fn keeps(info: FlowInfo, report: FlowReport) -> bool {
    &&& info.flow_name@ == report.flow_name@
    &&& info.current_op@ == report.current_op@
    &&& info.state@ == report.state.written()
    &&& info.started_at == report.started_at
    &&& info.op_started_at == report.op_started_at
}

/// What is kept of the report of a flow, and in which file: nothing where no
/// cell has the address that it comes from.
pub fn handle_flow_status(cells: &Vec<CellRules>, report: &FlowReport) -> (r: Option<
    (String, FlowInfo),
>)
    ensures
        match cell_at(cells@, report.cell_ip@) {
            None => r is None,
            Some(name) => r matches Some(kept) && kept.0@ == flow_status_file(name)
                && kept.1.flow_name@ == report.flow_name@ && kept.1.current_op@
                == report.current_op@ && kept.1.state@ == report.state.written()
                && kept.1.started_at == report.started_at && kept.1.op_started_at
                == report.op_started_at,
        },
{
    match find_cell(cells, &report.cell_ip) {
        None => None,
        Some(name) => Some(
            (
                flow_status_path(&name),
                FlowInfo {
                    flow_name: report.flow_name.clone(),
                    current_op: report.current_op.clone(),
                    state: report.state.text(),
                    started_at: report.started_at,
                    op_started_at: report.op_started_at,
                },
            ),
        ),
    }
}

// The sweep

/// The seconds that the op of a flow has run.
pub open spec fn op_elapsed(info: FlowInfo, now: u64) -> u64 {
    if now >= info.op_started_at {
        (now - info.op_started_at) as u64
    } else {
        0
    }
}

/// The cell is stale: it runs, and so does an op in it, for longer than
/// `timeout` seconds.
pub open spec fn is_stale(running: bool, info: Option<FlowInfo>, now: u64, timeout: u64) -> bool {
    running && (info matches Some(i) && i.state@ == "running"@ && i.op_started_at > 0 && op_elapsed(
        i,
        now,
    ) > timeout)
}

/// What is said when a stale cell is stopped.
pub open spec fn stale_message(name: Seq<char>, op: Seq<char>, elapsed: u64, timeout: u64) -> Seq<
    char,
> {
    "sweep: stopping stale cell '"@ + name + "' (op '"@ + op + "' running for "@ + decimal(
        elapsed as nat,
    ) + "s, timeout "@ + decimal(timeout as nat) + "s)"@
}

/// What is said when the cell `name` is stopped, which it is only if it is
/// stale.
pub fn sweep_stale_cells(
    name: &str,
    running: bool,
    info: &Option<FlowInfo>,
    now: u64,
    timeout: u64,
) -> (r: Option<String>)
    ensures
        r.deep_view() == (if is_stale(running, *info, now, timeout) {
            Some(stale_message(name@, info->0.current_op@, op_elapsed(info->0, now), timeout))
        } else {
            None
        }),
{
    if !running {
        return None;
    }
    match info {
        None => None,
        Some(i) => {
            let elapsed: u64 = if now >= i.op_started_at {
                now - i.op_started_at
            } else {
                0
            };
            if same(&i.state, "running") && i.op_started_at > 0 && elapsed > timeout {
                let mut m = "sweep: stopping stale cell '".to_string();
                m.append(name);
                m.append("' (op '");
                m.append(&i.current_op);
                m.append("' running for ");
                m.append(&decimal_text(elapsed));
                m.append("s, timeout ");
                m.append(&decimal_text(timeout));
                m.append("s)");
                Some(m)
            } else {
                None
            }
        },
    }
}

/// A cell is never stopped by the sweep whose flow is paused or done, or whose
/// op has not run longer than the timeout.
pub proof fn law_sweep_spares_others(info: FlowInfo, now: u64, timeout: u64)
    requires
        info.state@ != "running"@ || now <= info.op_started_at + timeout,
    ensures
        !is_stale(true, Some(info), now, timeout),
{
}

/// A cell that runs is stopped by the sweep when the op that its flow reported
/// as running began longer ago than the timeout, and for no other report. Its
/// output is followed while the report says that the flow runs or is paused.
pub proof fn law_report_acted_on(
    report: FlowReport,
    info: FlowInfo,
    cell: CellStatus,
    now: u64,
    timeout: u64,
)
    requires
        keeps(info, report),
        cell.flow == Some(info),
    ensures
        info.flow_name@ == report.flow_name@ && info.current_op@ == report.current_op@,
        is_stale(true, Some(info), now, timeout) <==> report.state == FlowState::Running
            && report.op_started_at > 0 && now > report.op_started_at + timeout,
        !is_stale(false, Some(info), now, timeout),
        !is_stale(true, None, now, timeout),
        follow_after(seq![cell], cell.name@) == FollowNext::Again <==> report.state
            == FlowState::Running || report.state == FlowState::Paused,
{
    law_states_told_apart(report.state, FlowState::Running);
    law_cell_followed(seq![cell], cell.name@, 0);
}

/// What is said of a stale cell names it and its op.
pub proof fn law_stale_cell_named(name: Seq<char>, op: Seq<char>, elapsed: u64, timeout: u64)
    ensures
        occurs(stale_message(name, op, elapsed, timeout), "'"@ + name + "' (op '"@ + op + "'"@),
{
    reveal_strlit("sweep: stopping stale cell '");
    reveal_strlit("'");
    reveal_strlit("' running for ");
    let m = stale_message(name, op, elapsed, timeout);
    let part = "'"@ + name + "' (op '"@ + op + "'"@;
    let n = "sweep: stopping stale cell '"@.len() - 1;
    assert(m.subrange(n, n + part.len()) =~= part);
    assert(crate::text::basic::occurs_at(m, part, n));
}

/// The addresses of the services: an address and a port.
pub open spec fn socket_of(address: Seq<char>, port: u16) -> Seq<char> {
    address + ":"@ + decimal(port as nat)
}

/// An address and a port.
pub fn socket(address: &str, port: u16) -> (r: String)
    ensures
        r@ == socket_of(address@, port),
{
    let mut r = address.to_string();
    r.append(":");
    r.append(&decimal_text(port as u64));
    r
}

/// A flow is run by its name; its parameters come behind `--params` as one
/// word of the shell.
pub proof fn law_flow_run_with_params(flow: Seq<char>, params: Seq<char>)
    ensures
        flow_command(flow, None) == "cellx flow run "@ + flow,
        ({
            let front = "cellx flow run "@ + flow + " --params "@;
            &&& flow_command(flow, Some(params)) == front + quoted(params)
            &&& crate::cella::exec::read_word(
                flow_command(flow, Some(params)).skip(front.len() as int),
            ).word == params
        }),
{
    let front = "cellx flow run "@ + flow + " --params "@;
    assert(flow_command(flow, Some(params)).skip(front.len() as int) == quoted(params));
    crate::cella::exec::law_escape_reads_back(params);
}

/// The workspace of a flow is the directory of its repository, or `/cell`
/// where the repository is not known, and its status stands in the directory
/// of its cell.
pub proof fn law_flow_places(repo: Seq<char>, name: Seq<char>)
    ensures
        flow_workspace(Some(repo)) == "/"@ + trimmed(repo),
        flow_workspace(None) == "/"@ + "cell"@,
        flow_status_file(name) == joined_path(
            joined_path("/var/lib/cella/cells"@, name),
            "flow-status.json"@,
        ),
        trimmed_file(Some(repo)) == Some(trimmed(repo)),
        trimmed_file(None) is None,
{
}

/// The output of a flow is sent as it is, marked as good.
pub proof fn law_logs_sent(content: Seq<char>)
    ensures
        under(logs_tree(content), "ok"@) == Tree::Bool(true),
        under(logs_tree(content), "content"@) == Tree::Text(content),
{
    reveal_strlit("ok");
    reveal_strlit("content");
    let m = logs_tree(content)->Object_0;
    assert("ok"@.len() == 2 && "content"@.len() == 7);
    assert(m[0].0 == "ok"@ && m[1].0 == "content"@);
    lemma_member_found(m, 0);
    lemma_member_found(m, 1);
}

/// A request asks for output as it comes where, and only where, its body says
/// so, with or without a space.
pub proof fn law_follow_asked(before: Seq<char>, after: Seq<char>)
    ensures
        asks_follow(before + "\"follow\":true"@ + after),
        asks_follow(before + "\"follow\": true"@ + after),
        !occurs(before, "\"follow\":true"@) && !occurs(before, "\"follow\": true"@)
            ==> !asks_follow(before),
{
    let n = before.len() as int;
    let a = before + "\"follow\":true"@ + after;
    let b = before + "\"follow\": true"@ + after;
    assert(a.subrange(n, n + "\"follow\":true"@.len()) == "\"follow\":true"@);
    assert(b.subrange(n, n + "\"follow\": true"@.len()) == "\"follow\": true"@);
    assert(crate::text::basic::occurs_at(a, "\"follow\":true"@, n));
    assert(crate::text::basic::occurs_at(b, "\"follow\": true"@, n));
}

/// A cell that runs never reads as stopped, and the address of a service ends
/// with its port.
pub proof fn law_running_told(address: Seq<char>, port: u16)
    ensures
        run_word(true) == "running"@,
        run_word(false) == "stopped"@,
        socket_of(address, port) == address + ":"@ + decimal(port as nat),
{
}

/// A report belongs to the first cell that is registered at its address, and
/// to none where no cell is.
pub proof fn law_cell_found_by_address(cells: Seq<CellRules>, ip: Seq<char>, i: int)
    requires
        0 <= i < cells.len(),
        forall|j: int| 0 <= j < i ==> (#[trigger] cells[j]).cell_ip@ != ip,
    ensures
        cells[i].cell_ip@ == ip ==> cell_at(cells, ip) == Some(cells[i].branch_id@),
        i + 1 == cells.len() && cells[i].cell_ip@ != ip ==> cell_at(cells, ip) is None,
    decreases i,
{
    if i > 0 {
        let rest = cells.drop_first();
        assert(cells[0].cell_ip@ != ip);
        assert forall|j: int| 0 <= j < i - 1 implies (#[trigger] rest[j]).cell_ip@ != ip by {
            assert(rest[j] == cells[j + 1]);
        }
        law_cell_found_by_address(rest, ip, i - 1);
    } else {
        reveal_with_fuel(cell_at, 2);
    }
}

/// What is said of a stale cell gives the cell, its op, how long that has run
/// and how long it may.
pub proof fn law_stale_cell_said(name: Seq<char>, op: Seq<char>, elapsed: u64, timeout: u64)
    ensures
        stale_message(name, op, elapsed, timeout) == "sweep: stopping stale cell '"@ + name
            + "' (op '"@ + op + "' running for "@ + decimal(elapsed as nat) + "s, timeout "@
            + decimal(timeout as nat) + "s)"@,
{
}

} // verus!
