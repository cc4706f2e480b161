//! The services that a host with sessions runs for its cells.

use crate::cella::proxy::lemma_prefix_chars;
use crate::http::{
    accepted, bad_request, cell_in_path, deregistered_ip, missing_body, missing_ip, no_body,
    unreadable, Reply, ReplyView, Status,
};
use crate::text::basic::{same, starts_with, trim, trimmed};
use vstd::prelude::*;

verus! {

// Configuration, shared with the proxy as JSON

/// How the services of a host are set up.
pub struct ProxyConfig {
    pub cells: Vec<CellRules>,
    pub egress: EgressConfig,
    pub http_port: u16,
    pub git_credential_port: u16,
    pub control_port: u16,
    pub log_file: String,
    pub bind_address: String,
    pub nucleus_enabled: bool,
}

/// What all cells may reach.
pub struct EgressConfig {
    pub reads: EgressRules,
    pub writes: EgressRules,
    pub credentials: Vec<CredentialRule>,
}

/// Which hosts may and may not be reached by which methods.
pub struct EgressRules {
    pub methods: Vec<String>,
    pub allowed: serde_json::Value,
    pub denied: serde_json::Value,
}

/// A cell and what those may reach who look at its commits.
pub struct CellRules {
    pub cell_ip: String,
    pub branch_id: String,
    pub nucleus_allowed_domains: Vec<String>,
}

/// A credential that is put into requests to a host.
pub struct CredentialRule {
    pub host: String,
    pub header: String,
    pub env_var: String,
}

/// The file with the cells.
pub const DYNAMIC_CELLS: &'static str = "/var/lib/cella/cells.json";

/// Whether a cell has another address than `ip`.
pub open spec fn elsewhere(ip: Seq<char>) -> spec_fn(CellRules) -> bool {
    |c: CellRules| c.cell_ip@ != ip
}

/// The cells without the one at `ip`.
pub open spec fn without(cells: Seq<CellRules>, ip: Seq<char>) -> Seq<CellRules> {
    cells.filter(elsewhere(ip))
}

/// The cells without the one at `ip`.
pub fn deregister_cell(cells: Vec<CellRules>, ip: &str) -> (r: Vec<CellRules>)
    ensures
        r@ == without(cells@, ip@),
{
    let ghost all = cells@;
    let ghost keep = elsewhere(ip@);
    let mut rest = cells;
    let mut r: Vec<CellRules> = Vec::new();
    let ghost mut n: int = 0;
    assert(all.skip(0) == all);
    assert(all.take(0).filter(keep) == Seq::<CellRules>::empty()) by {
        reveal(Seq::filter);
    }
    while rest.len() > 0
        invariant
            0 <= n <= all.len(),
            keep == elsewhere(ip@),
            rest@ == all.skip(n),
            r@ == all.take(n).filter(keep),
        decreases rest.len(),
    {
        let c = rest.remove(0);
        assert(rest@ == all.skip(n + 1));
        assert(all.take(n + 1).drop_last() == all.take(n));
        if !same(&c.cell_ip, ip) {
            r.push(c);
        }
        assert(r@ == all.take(n + 1).filter(keep)) by {
            reveal(Seq::filter);
        }
        proof {
            n = n + 1;
        }
    }
    assert(all.take(all.len() as int) == all);
    r
}

/// The cells with one more, in place of the one that had its address.
pub fn register_cell(cells: Vec<CellRules>, rules: CellRules) -> (r: Vec<CellRules>)
    ensures
        r@ == without(cells@, rules.cell_ip@).push(rules),
{
    let ip = rules.cell_ip.clone();
    let mut r = deregister_cell(cells, &ip);
    r.push(rules);
    r
}

/// After a cell was registered no other has its address, and after one was
/// deregistered none has.
pub proof fn law_one_cell_per_address(cells: Seq<CellRules>, ip: Seq<char>, i: int)
    requires
        0 <= i < without(cells, ip).len(),
    ensures
        without(cells, ip)[i].cell_ip@ != ip,
{
    cells.lemma_filter_pred(elsewhere(ip), i);
    assert(elsewhere(ip)(without(cells, ip)[i]));
}

/// Registering or deregistering at an address leaves the cells at the others
/// as they are.
pub proof fn law_other_cells_stay(cells: Seq<CellRules>, rules: CellRules, i: int)
    requires
        0 <= i < cells.len(),
        cells[i].cell_ip@ != rules.cell_ip@,
    ensures
        without(cells, rules.cell_ip@).contains(cells[i]),
        without(cells, rules.cell_ip@).push(rules).contains(cells[i]),
{
    let rest = without(cells, rules.cell_ip@);
    cells.lemma_filter_contains(elsewhere(rules.cell_ip@), i);
    let j = choose|j: int| 0 <= j < rest.len() && rest[j] == cells[i];
    assert(rest.push(rules)[j] == cells[i]);
}

// The control interface

/// What a request to the control interface is about.
#[derive(Clone, Copy, Debug, PartialEq, Eq, Structural)]
pub enum Route {
    RegisterCell,
    DeregisterCell,
    ListCells,
    Prepare,
    Up,
    Down,
    Delete,
    List,
    Unknown,
}

/// What a request is about: the first of these that it begins with.
pub open spec fn route_of(req: Seq<char>) -> Route {
    if "POST /cells"@.is_prefix_of(req) {
        Route::RegisterCell
    } else if "DELETE /cells/"@.is_prefix_of(req) {
        Route::DeregisterCell
    } else if "GET /cells"@.is_prefix_of(req) {
        Route::ListCells
    } else if "POST /prepare"@.is_prefix_of(req) {
        Route::Prepare
    } else if "POST /up"@.is_prefix_of(req) {
        Route::Up
    } else if "POST /down"@.is_prefix_of(req) {
        Route::Down
    } else if "POST /delete"@.is_prefix_of(req) {
        Route::Delete
    } else if "GET /list"@.is_prefix_of(req) {
        Route::List
    } else {
        Route::Unknown
    }
}

/// What a request to the control interface is about.
pub fn serve_control_api(req: &str) -> (r: Route)
    ensures
        r == route_of(req@),
{
    if starts_with(req, "POST /cells") {
        Route::RegisterCell
    } else if starts_with(req, "DELETE /cells/") {
        Route::DeregisterCell
    } else if starts_with(req, "GET /cells") {
        Route::ListCells
    } else if starts_with(req, "POST /prepare") {
        Route::Prepare
    } else if starts_with(req, "POST /up") {
        Route::Up
    } else if starts_with(req, "POST /down") {
        Route::Down
    } else if starts_with(req, "POST /delete") {
        Route::Delete
    } else if starts_with(req, "GET /list") {
        Route::List
    } else {
        Route::Unknown
    }
}

/// What becomes of a request about the cells.
pub struct CellsReply {
    pub reply: Reply,
    /// The cells that are kept from then on, where they change.
    pub cells: Option<Vec<CellRules>>,
}

/// What becomes of a request to register a cell; `asked` is what its body
/// says, where it has one.
pub fn handle_register(cells: Vec<CellRules>, asked: Option<Result<CellRules, String>>) -> (r:
    CellsReply)
    ensures
        match asked {
            None => r.reply@ == missing_body() && r.cells is None,
            Some(Err(e)) => r.reply@ == bad_request(e@) && r.cells is None,
            Some(Ok(rules)) => r.reply@ == (ReplyView { status: Status::Fine, body: "ok"@ }) && (
            r.cells matches Some(v) && v@ == without(cells@, rules.cell_ip@).push(rules)),
        },
{
    match asked {
        None => CellsReply { reply: no_body(), cells: None },
        Some(Err(e)) => CellsReply { reply: unreadable(&e), cells: None },
        Some(Ok(rules)) => CellsReply {
            reply: accepted(),
            cells: Some(register_cell(cells, rules)),
        },
    }
}

/// What becomes of the request `req` to deregister a cell.
pub fn handle_deregister(cells: Vec<CellRules>, req: &str) -> (r: CellsReply)
    ensures
        if cell_in_path(req@).len() == 0 {
            r.reply@ == (ReplyView { status: Status::BadRequest, body: "missing ip"@ })
                && r.cells is None
        } else {
            r.reply@ == (ReplyView { status: Status::Fine, body: "ok"@ }) && (r.cells matches Some(v)
                && v@ == without(cells@, cell_in_path(req@)))
        },
{
    let ip = deregistered_ip(req);
    if ip.as_str().is_empty() {
        return CellsReply { reply: missing_ip(), cells: None };
    }
    CellsReply { reply: accepted(), cells: Some(deregister_cell(cells, &ip)) }
}

/// A cell in a listing.
pub struct CellStatus {
    pub name: String,
    pub status: String,
    pub ip: Option<String>,
}

/// The cell `name` in a listing, from the content of the file with its address
/// where it is there. The address is shown only while the cell runs.
pub fn handle_list(name: &str, running: bool, ip: Option<&str>) -> (r: CellStatus)
    ensures
        r.name@ == name@,
        r.status@ == (if running {
            "running"@
        } else {
            "stopped"@
        }),
        r.ip.deep_view() == (match ip {
            Some(t) if running => Some(trimmed(t@)),
            _ => None,
        }),
{
    CellStatus {
        name: name.to_string(),
        status: if running {
            "running".to_string()
        } else {
            "stopped".to_string()
        },
        ip: match ip {
            Some(t) if running => Some(trim(t)),
            _ => None,
        },
    }
}

/// Every request is served for what its method and path say, and any other is
/// unknown.
pub proof fn law_requests_routed(req: Seq<char>)
    ensures
        "POST /cells"@.is_prefix_of(req) ==> route_of(req) == Route::RegisterCell,
        "DELETE /cells/"@.is_prefix_of(req) ==> route_of(req) == Route::DeregisterCell,
        "GET /cells"@.is_prefix_of(req) ==> route_of(req) == Route::ListCells,
        "POST /prepare"@.is_prefix_of(req) ==> route_of(req) == Route::Prepare,
        "POST /up"@.is_prefix_of(req) ==> route_of(req) == Route::Up,
        "POST /down"@.is_prefix_of(req) ==> route_of(req) == Route::Down,
        "POST /delete"@.is_prefix_of(req) ==> route_of(req) == Route::Delete,
        "GET /list"@.is_prefix_of(req) ==> route_of(req) == Route::List,
        !"POST /cells"@.is_prefix_of(req)
            && !"DELETE /cells/"@.is_prefix_of(req)
            && !"GET /cells"@.is_prefix_of(req)
            && !"POST /prepare"@.is_prefix_of(req)
            && !"POST /up"@.is_prefix_of(req)
            && !"POST /down"@.is_prefix_of(req)
            && !"POST /delete"@.is_prefix_of(req)
            && !"GET /list"@.is_prefix_of(req) ==> route_of(req)
            == Route::Unknown,
{
    reveal_strlit("POST /cells");
    reveal_strlit("DELETE /cells/");
    reveal_strlit("GET /cells");
    reveal_strlit("POST /prepare");
    reveal_strlit("POST /up");
    reveal_strlit("POST /down");
    reveal_strlit("POST /delete");
    reveal_strlit("GET /list");
    lemma_prefix_chars(req, "POST /cells"@);
    lemma_prefix_chars(req, "DELETE /cells/"@);
    lemma_prefix_chars(req, "GET /cells"@);
    lemma_prefix_chars(req, "POST /prepare"@);
    lemma_prefix_chars(req, "POST /up"@);
    lemma_prefix_chars(req, "POST /down"@);
    lemma_prefix_chars(req, "POST /delete"@);
    lemma_prefix_chars(req, "GET /list"@);
    assert("POST /cells"@[0] == 'P' && "POST /prepare"@[0] == 'P' && "POST /up"@[0] == 'P');
    assert("POST /down"@[0] == 'P' && "POST /delete"@[0] == 'P');
    assert("DELETE /cells/"@[0] == 'D' && "GET /cells"@[0] == 'G' && "GET /list"@[0] == 'G');
    assert("POST /cells"@[6] == 'c' && "POST /prepare"@[6] == 'p' && "POST /up"@[6] == 'u');
    assert("POST /down"@[6] == 'd' && "POST /delete"@[6] == 'd');
    assert("POST /down"@[7] == 'o' && "POST /delete"@[7] == 'e');
    assert("GET /cells"@[5] == 'c' && "GET /list"@[5] == 'l');
}

} // verus!
