//! The state of a cell, the addresses of cells and their directories.

use crate::flow::state::{FileStep, FileStepView};
use crate::flow::time::{clock, seconds_of};
use crate::names::NameMap;
use crate::path::{join, joined_path};
use crate::text::basic::same;
use crate::text::number::{decimal, decimal_text, lemma_decimal_value};
use crate::text::order::{ordered, sort};
use vstd::prelude::*;

verus! {

/// Where the cells are kept.
pub const CELLS_PATH: &'static str = "/var/lib/cella/cells";

/// Where the addresses of the cells are kept.
pub const IP_POOL: &'static str = "/var/lib/cella/ip-pool.json";

/// How a cell stands.
#[derive(Clone, Copy, Debug, PartialEq, Eq, Structural)]
pub enum CellState {
    Created,
    Running,
    Stopped,
}

/// When a cell stops by itself.
#[derive(Clone, Copy, Debug, PartialEq, Eq, Structural)]
pub struct AutostopState {
    /// The seconds from the last session to the stop.
    pub timeout: u64,
    /// The time of the stop.
    pub stop_at: Option<u64>,
}

impl Default for AutostopState {
    /// No stop.
    fn default() -> (r: Self)
        ensures
            r == (AutostopState { timeout: 0, stop_at: None }),
    {
        AutostopState { timeout: 0, stop_at: None }
    }
}

/// A cell.
pub struct Cell {
    pub name: String,
    pub state: CellState,
    pub ip: Option<String>,
    pub repo: String,
    pub user: String,
    pub autostop: AutostopState,
    pub started_at: Option<u64>,
}

/// What is known of a cell.
pub struct CellView {
    pub name: Seq<char>,
    pub state: CellState,
    pub ip: Option<Seq<char>>,
    pub repo: Seq<char>,
    pub user: Seq<char>,
    pub autostop: AutostopState,
    pub started_at: Option<u64>,
}

impl View for Cell {
    type V = CellView;

    open spec fn view(&self) -> CellView {
        CellView {
            name: self.name@,
            state: self.state,
            ip: self.ip.deep_view(),
            repo: self.repo@,
            user: self.user@,
            autostop: self.autostop,
            started_at: self.started_at,
        }
    }
}

/// A cell that has just been created.
pub open spec fn new_cell(name: Seq<char>, repo: Seq<char>) -> CellView {
    CellView {
        name,
        state: CellState::Created,
        ip: None,
        repo,
        user: Seq::<char>::empty(),
        autostop: AutostopState { timeout: 0, stop_at: None },
        started_at: None,
    }
}

/// A cell that has been started at the time `now`.
pub open spec fn running(c: CellView, ip: Seq<char>, user: Seq<char>, now: Option<u64>) -> CellView {
    CellView { state: CellState::Running, ip: Some(ip), user, started_at: now, ..c }
}

/// A cell that has been stopped. It keeps its address.
pub open spec fn stopped(c: CellView) -> CellView {
    CellView {
        state: CellState::Stopped,
        autostop: AutostopState { stop_at: None, ..c.autostop },
        ..c
    }
}

/// A cell that has been deleted.
pub open spec fn deleted(c: CellView) -> CellView {
    CellView { ip: None, ..stopped(c) }
}

/// The time of a stop scheduled at the time `now` is one that there is.
pub open spec fn schedulable(c: CellView, now: Option<u64>) -> bool {
    now matches Some(n) ==> n + c.autostop.timeout <= u64::MAX
}

/// A cell whose stop has been scheduled at the time `now`. Without a time
/// nothing is scheduled.
pub open spec fn scheduled(c: CellView, now: Option<u64>) -> CellView {
    match now {
        Some(n) => CellView {
            autostop: AutostopState {
                stop_at: Some((n + c.autostop.timeout) as u64),
                ..c.autostop
            },
            ..c
        },
        None => c,
    }
}

/// The seconds from `now` to the stop, where one is scheduled.
pub open spec fn remaining(autostop: AutostopState, now: Option<u64>) -> Option<u64> {
    match (autostop.stop_at, now) {
        (Some(at), Some(n)) => if at > n {
            Some((at - n) as u64)
        } else {
            Some(0)
        },
        _ => None,
    }
}

/// The file with the state of the cell `name`.
pub open spec fn state_file(name: Seq<char>) -> Seq<char> {
    joined_path(joined_path(CELLS_PATH@, name), "cell.json"@)
}

/// What is written for programs that look into the runtime directory `rt`.
pub open spec fn runtime_steps(c: CellView, rt: Seq<char>) -> Seq<FileStepView> {
    seq![FileStepView::MakeDir(rt)] + (match c.ip {
        Some(ip) => seq![FileStepView::Write { path: joined_path(rt, "ip"@), text: ip }],
        None => Seq::<FileStepView>::empty(),
    }) + (if c.repo.len() > 0 {
        seq![FileStepView::Write { path: joined_path(rt, "repo"@), text: c.repo }]
    } else {
        Seq::<FileStepView>::empty()
    }) + (if c.user.len() > 0 {
        seq![FileStepView::Write { path: joined_path(rt, "user"@), text: c.user }]
    } else {
        Seq::<FileStepView>::empty()
    }) + seq![
        FileStepView::Write {
            path: joined_path(rt, "autostop.timeout"@),
            text: decimal(c.autostop.timeout as nat),
        },
        match c.autostop.stop_at {
            Some(at) => FileStepView::Write {
                path: joined_path(rt, "autostop.at"@),
                text: decimal(at as nat),
            },
            None => FileStepView::Remove(joined_path(rt, "autostop.at"@)),
        },
    ]
}

fn write_to(steps: &mut Vec<FileStep>, dir: &str, name: &str, text: &str)
    ensures
        final(steps).deep_view() == old(steps).deep_view().push(
            FileStepView::Write { path: joined_path(dir@, name@), text: text@ },
        ),
{
    let ghost before = steps.deep_view();
    let step = FileStep::Write { path: join(dir, name), text: text.to_string() };
    steps.push(step);
    assert(steps.deep_view() == before.push(step.deep_view()));
}

impl Cell {
    /// A cell that has just been created.
    pub fn new(name: &str, repo: &str) -> (r: Self)
        ensures
            r@ == new_cell(name@, repo@),
    {
        Cell {
            name: name.to_string(),
            state: CellState::Created,
            ip: None,
            repo: repo.to_string(),
            user: String::new(),
            autostop: AutostopState { timeout: 0, stop_at: None },
            started_at: None,
        }
    }

    /// The file with the state of the cell `name`.
    pub fn state_path(name: &str) -> (r: String)
        ensures
            r@ == state_file(name@),
    {
        join(&join(CELLS_PATH, name), "cell.json")
    }

    /// The file that the state of the cell `name` is loaded from.
    pub fn load(name: &str) -> (r: String)
        ensures
            r@ == state_file(name@),
    {
        Self::state_path(name)
    }

    /// The cell that was loaded, or a new one where none could be.
    pub fn load_or_new(loaded: Option<Cell>, name: &str, repo: &str) -> (r: Self)
        ensures
            r@ == (match loaded {
                Some(c) => c@,
                None => new_cell(name@, repo@),
            }),
    {
        match loaded {
            Some(c) => c,
            None => Self::new(name, repo),
        }
    }

    /// What is done to save the cell, whose text is `json`: its file is
    /// replaced as a whole.
    pub fn save(&self, json: &str) -> (r: Vec<FileStep>)
        ensures
            r.deep_view() == seq![
                FileStepView::MakeDir(joined_path(CELLS_PATH@, self.name@)),
                FileStepView::Write {
                    path: joined_path(joined_path(CELLS_PATH@, self.name@), "cell.json.tmp"@),
                    text: json@,
                },
                FileStepView::Rename {
                    from: joined_path(joined_path(CELLS_PATH@, self.name@), "cell.json.tmp"@),
                    to: state_file(self.name@),
                },
            ],
    {
        let dir = cell_dir(&self.name);
        let tmp = join(&dir, "cell.json.tmp");
        let path = Self::state_path(&self.name);
        let r = vec![
            FileStep::MakeDir(dir),
            FileStep::Write { path: tmp.clone(), text: json.to_string() },
            FileStep::Rename { from: tmp, to: path },
        ];
        assert(r.deep_view() =~= seq![
            FileStepView::MakeDir(dir@),
            FileStepView::Write { path: tmp@, text: json@ },
            FileStepView::Rename { from: tmp@, to: path@ },
        ]);
        r
    }

    /// What is written for programs that look into the runtime directory `rt`.
    pub fn write_runtime_compat(&self, rt: &str) -> (r: Vec<FileStep>)
        ensures
            r.deep_view() == runtime_steps(self@, rt@),
    {
        let mut r: Vec<FileStep> = vec![FileStep::MakeDir(rt.to_string())];
        assert(r.deep_view() =~= seq![FileStepView::MakeDir(rt@)]);
        if let Some(ip) = &self.ip {
            write_to(&mut r, rt, "ip", ip);
        }
        if !self.repo.as_str().is_empty() {
            write_to(&mut r, rt, "repo", &self.repo);
        }
        if !self.user.as_str().is_empty() {
            write_to(&mut r, rt, "user", &self.user);
        }
        write_to(&mut r, rt, "autostop.timeout", &decimal_text(self.autostop.timeout));
        if let Some(at) = self.autostop.stop_at {
            write_to(&mut r, rt, "autostop.at", &decimal_text(at));
        } else {
            let ghost before = r.deep_view();
            let step = FileStep::Remove(join(rt, "autostop.at"));
            r.push(step);
            assert(r.deep_view() == before.push(step.deep_view()));
        }
        assert(r.deep_view() =~= runtime_steps(self@, rt@));
        r
    }

    // State transitions

    /// The cell has been started at the time `now`.
    pub fn mark_running_at(&mut self, ip: &str, user: &str, now: Option<u64>)
        ensures
            final(self)@ == running(old(self)@, ip@, user@, now),
    {
        self.state = CellState::Running;
        self.ip = Some(ip.to_string());
        self.user = user.to_string();
        self.started_at = now;
    }

    /// The cell has been started just now.
    pub fn mark_running(&mut self, ip: &str, user: &str)
        ensures
            exists|t: std::time::SystemTime|
                final(self)@ == running(old(self)@, ip@, user@, #[trigger] seconds_of(t)),
    {
        let now = clock();
        self.mark_running_at(ip, user, now);
    }

    /// The cell has been stopped. It keeps its address.
    pub fn mark_stopped(&mut self)
        ensures
            final(self)@ == stopped(old(self)@),
    {
        self.state = CellState::Stopped;
        self.autostop = AutostopState { timeout: self.autostop.timeout, stop_at: None };
    }

    /// The cell has been deleted.
    pub fn mark_deleted(&mut self)
        ensures
            final(self)@ == deleted(old(self)@),
    {
        self.mark_stopped();
        self.ip = None;
    }

    // Autostop

    /// Sets the seconds from the last session to the stop.
    pub fn set_autostop_timeout(&mut self, timeout: u64)
        ensures
            final(self)@ == (CellView {
                autostop: AutostopState { timeout, ..old(self)@.autostop },
                ..old(self)@
            }),
    {
        self.autostop = AutostopState { timeout, stop_at: self.autostop.stop_at };
    }

    /// Schedules the stop at the time `now`.
    pub fn schedule_autostop_at(&mut self, now: Option<u64>)
        requires
            schedulable(old(self)@, now),
        ensures
            final(self)@ == scheduled(old(self)@, now),
    {
        if let Some(n) = now {
            let at: u64 = n + self.autostop.timeout;
            self.autostop = AutostopState { timeout: self.autostop.timeout, stop_at: Some(at) };
        }
    }

    /// Schedules the stop just now. Past the last time there is, nothing is
    /// scheduled.
    pub fn schedule_autostop(&mut self)
        ensures
            exists|t: std::time::SystemTime|
                final(self)@ == (if schedulable(old(self)@, #[trigger] seconds_of(t)) {
                    scheduled(old(self)@, seconds_of(t))
                } else {
                    old(self)@
                }),
    {
        let now = clock();
        let fits = match now {
            Some(n) => n <= u64::MAX - self.autostop.timeout,
            None => true,
        };
        assert(fits == schedulable(old(self)@, now));
        if fits {
            self.schedule_autostop_at(now);
        }
        assert(self@ == (if schedulable(old(self)@, now) {
            scheduled(old(self)@, now)
        } else {
            old(self)@
        }));
    }

    /// Takes a scheduled stop back.
    pub fn clear_autostop(&mut self)
        ensures
            final(self)@ == (CellView {
                autostop: AutostopState { stop_at: None, ..old(self)@.autostop },
                ..old(self)@
            }),
    {
        self.autostop = AutostopState { timeout: self.autostop.timeout, stop_at: None };
    }

    /// The seconds from `now` to the stop, where one is scheduled.
    pub fn autostop_remaining_at(&self, now: Option<u64>) -> (r: Option<u64>)
        ensures
            r == remaining(self@.autostop, now),
    {
        match (self.autostop.stop_at, now) {
            (Some(at), Some(n)) => if at > n {
                Some(at - n)
            } else {
                Some(0)
            },
            _ => None,
        }
    }

    /// The seconds to the stop, where one is scheduled.
    pub fn autostop_remaining(&self) -> (r: Option<u64>)
        ensures
            exists|t: std::time::SystemTime|
                r == remaining(self@.autostop, #[trigger] seconds_of(t)),
    {
        let now = clock();
        self.autostop_remaining_at(now)
    }

    /// Whether the time of the stop has come at `now`.
    pub fn is_autostop_expired_at(&self, now: Option<u64>) -> (r: bool)
        ensures
            r == (remaining(self@.autostop, now) == Some(0u64)),
    {
        match self.autostop_remaining_at(now) {
            Some(n) => n == 0,
            None => false,
        }
    }

    /// Whether the time of the stop has come.
    pub fn is_autostop_expired(&self) -> (r: bool)
        ensures
            exists|t: std::time::SystemTime|
                r == (remaining(self@.autostop, #[trigger] seconds_of(t)) == Some(0u64)),
    {
        let now = clock();
        self.is_autostop_expired_at(now)
    }
}

/// A stop that was scheduled comes after the timeout, and not before: at the
/// time `later` the seconds left are what the time passed leaves of the
/// timeout.
pub proof fn law_autostop_counts_down(c: CellView, now: u64, later: u64)
    requires
        now <= later,
        schedulable(c, Some(now)),
    ensures
        remaining(scheduled(c, Some(now)).autostop, Some(later)) == (if later - now
            < c.autostop.timeout {
            Some((c.autostop.timeout - (later - now)) as u64)
        } else {
            Some(0u64)
        }),
{
}

/// A cell that has been stopped or deleted has no stop scheduled. A stopped
/// cell keeps its address, and a deleted one has none.
pub proof fn law_stopped_cell_has_no_autostop(c: CellView, now: Option<u64>)
    ensures
        remaining(stopped(c).autostop, now) is None,
        remaining(deleted(c).autostop, now) is None,
        stopped(c).ip == c.ip,
        deleted(c).ip is None,
{
}

// Addresses

/// The lowest and the highest last number of an address.
pub const FIRST_HOST: u64 = 11;

pub const LAST_HOST: u64 = 254;

/// The address with the last number `i`.
pub open spec fn address(i: nat) -> Seq<char> {
    "192.168.83."@ + decimal(i)
}

/// Some cell has the address.
pub open spec fn taken(pool: Map<Seq<char>, Seq<char>>, ip: Seq<char>) -> bool {
    exists|name: Seq<char>| pool.dom().contains(name) && #[trigger] pool[name] == ip
}

/// The lowest number from `i` on whose address no cell has.
pub open spec fn free_from(pool: Map<Seq<char>, Seq<char>>, i: nat) -> Option<nat>
    decreases LAST_HOST + 1 - i,
{
    if i > LAST_HOST {
        None
    } else if !taken(pool, address(i)) {
        Some(i)
    } else {
        free_from(pool, i + 1)
    }
}

/// The address that the cell `name` gets: the one it has, or the first free
/// one.
pub open spec fn allocation(pool: Map<Seq<char>, Seq<char>>, name: Seq<char>) -> Option<Seq<char>> {
    if pool.dom().contains(name) {
        Some(pool[name])
    } else {
        match free_from(pool, FIRST_HOST as nat) {
            Some(i) => Some(address(i)),
            None => None,
        }
    }
}

/// All addresses are taken.
pub struct PoolExhausted;

impl PoolExhausted {
    /// The error in words.
    pub fn message(&self) -> (r: String)
        ensures
            r@ == "IP pool exhausted (244 cells max)"@,
    {
        "IP pool exhausted (244 cells max)".to_string()
    }
}

fn is_taken(pool: &NameMap<String>, ip: &str) -> (r: bool)
    ensures
        r == taken(pool.deep_view(), ip@),
{
    let names = pool.names();
    let ghost all = names.deep_view();
    let mut i: usize = 0;
    while i < names.len()
        invariant
            i <= names.len(),
            all == names.deep_view(),
            forall|n: Seq<char>| #[trigger] all.contains(n) <==> pool@.dom().contains(n),
            forall|j: int| 0 <= j < i ==> pool.deep_view()[#[trigger] all[j]] != ip@,
        decreases names.len() - i,
    {
        assert(all.contains(all[i as int]));
        if let Some(other) = pool.get(&names[i]) {
            if same(other, ip) {
                assert(pool.deep_view()[all[i as int]] == ip@);
                return true;
            }
        }
        i += 1;
    }
    assert(!taken(pool.deep_view(), ip@)) by {
        if taken(pool.deep_view(), ip@) {
            let n = choose|n: Seq<char>|
                pool.deep_view().dom().contains(n) && #[trigger] pool.deep_view()[n] == ip@;
            assert(all.contains(n));
            let j = choose|j: int| 0 <= j < all.len() && all[j] == n;
            assert(pool.deep_view()[all[j]] != ip@);
        }
    }
    false
}

/// The address of the cell `name`, which is entered in the pool.
pub fn allocate_ip(pool: &mut NameMap<String>, name: &str) -> (r: Result<String, PoolExhausted>)
    ensures
        match r {
            Ok(ip) => allocation(old(pool).deep_view(), name@) == Some(ip@)
                && final(pool).deep_view() == old(pool).deep_view().insert(name@, ip@),
            Err(_) => allocation(old(pool).deep_view(), name@) is None && final(pool).deep_view()
                == old(pool).deep_view(),
        },
{
    if let Some(ip) = pool.get(name) {
        let r = ip.clone();
        assert(pool.deep_view() == pool.deep_view().insert(name@, r@));
        return Ok(r);
    }
    let ghost before = pool.deep_view();
    let mut i: u64 = FIRST_HOST;
    while i <= LAST_HOST
        invariant
            FIRST_HOST <= i <= LAST_HOST + 1,
            pool.deep_view() == before,
            before == old(pool).deep_view(),
            !before.dom().contains(name@),
            free_from(before, FIRST_HOST as nat) == free_from(before, i as nat),
        decreases LAST_HOST + 1 - i,
    {
        let mut ip = "192.168.83.".to_string();
        ip.append(&decimal_text(i));
        assert(ip@ == address(i as nat));
        if !is_taken(pool, &ip) {
            pool.insert(name.to_string(), ip.clone());
            assert(pool.deep_view() == before.insert(name@, ip@));
            return Ok(ip);
        }
        i += 1;
    }
    Err(PoolExhausted)
}

/// Takes the address of the cell `name` back.
pub fn release_ip(pool: &mut NameMap<String>, name: &str)
    ensures
        final(pool).deep_view() == old(pool).deep_view().remove(name@),
{
    let ghost before = pool.deep_view();
    let _ = pool.remove(name);
    assert(pool.deep_view() == before.remove(name@));
}

/// No two cells have the same address.
pub open spec fn one_each(pool: Map<Seq<char>, Seq<char>>) -> bool {
    forall|a: Seq<char>, b: Seq<char>|
        pool.dom().contains(a) && pool.dom().contains(b) && #[trigger] pool[a]
            == #[trigger] pool[b] ==> a == b
}

proof fn lemma_free_from(pool: Map<Seq<char>, Seq<char>>, i: nat)
    ensures
        match free_from(pool, i) {
            Some(k) => i <= k <= LAST_HOST && !taken(pool, address(k)) && forall|j: nat|
                i <= j < k ==> #[trigger] taken(pool, address(j)),
            None => forall|j: nat| i <= j <= LAST_HOST ==> #[trigger] taken(pool, address(j)),
        },
    decreases LAST_HOST + 1 - i,
{
    if i <= LAST_HOST && taken(pool, address(i)) {
        lemma_free_from(pool, i + 1);
    }
}

/// No cell ever shares its address: if no two cells have the same one, that is
/// still so after one more got its own, and after one gave it back.
pub proof fn law_addresses_unique(pool: Map<Seq<char>, Seq<char>>, name: Seq<char>)
    requires
        one_each(pool),
    ensures
        allocation(pool, name) matches Some(ip) ==> one_each(pool.insert(name, ip)),
        one_each(pool.remove(name)),
{
    lemma_free_from(pool, FIRST_HOST as nat);
}

/// A cell that has an address gets the same one again.
pub proof fn law_allocation_stable(pool: Map<Seq<char>, Seq<char>>, name: Seq<char>)
    requires
        allocation(pool, name) is Some,
    ensures
        allocation(pool.insert(name, allocation(pool, name)->0), name) == allocation(pool, name),
{
}

/// A new cell gets the lowest address that no cell has, from the eleventh on.
pub proof fn law_first_free_address(pool: Map<Seq<char>, Seq<char>>, name: Seq<char>, i: nat)
    requires
        !pool.dom().contains(name),
        FIRST_HOST <= i <= LAST_HOST,
        !taken(pool, address(i)),
        forall|j: nat| FIRST_HOST <= j < i ==> #[trigger] taken(pool, address(j)),
    ensures
        allocation(pool, name) == Some(address(i)),
{
    lemma_free_from(pool, FIRST_HOST as nat);
}

/// The address that a cell gave back can be had again, where no other has it.
pub proof fn law_released_address_free(pool: Map<Seq<char>, Seq<char>>, name: Seq<char>)
    requires
        one_each(pool),
        pool.dom().contains(name),
    ensures
        !taken(pool.remove(name), pool[name]),
{
}

/// The names of the cells with one of the `k` lowest addresses.
spec fn holders(pool: Map<Seq<char>, Seq<char>>, k: nat) -> Set<Seq<char>> {
    pool.dom().filter(
        |n: Seq<char>|
            exists|j: nat| FIRST_HOST <= j < FIRST_HOST + k && #[trigger] address(j) == pool[n],
    )
}

proof fn lemma_address_injective(i: nat, j: nat)
    requires
        address(i) == address(j),
    ensures
        i == j,
{
    let p = "192.168.83."@;
    assert(address(i).skip(p.len() as int) == decimal(i));
    assert(address(j).skip(p.len() as int) == decimal(j));
    lemma_decimal_value(i);
    lemma_decimal_value(j);
}

proof fn lemma_holders(pool: Map<Seq<char>, Seq<char>>, k: nat)
    requires
        pool.dom().finite(),
        forall|j: nat| FIRST_HOST <= j < FIRST_HOST + k ==> #[trigger] taken(pool, address(j)),
    ensures
        holders(pool, k).finite(),
        holders(pool, k).len() >= k,
    decreases k,
{
    if k > 0 {
        let less = (k - 1) as nat;
        lemma_holders(pool, less);
        let top = (FIRST_HOST + less) as nat;
        assert(taken(pool, address(top)));
        let n = choose|n: Seq<char>|
            pool.dom().contains(n) && #[trigger] pool[n] == address(top);
        assert(!holders(pool, less).contains(n)) by {
            if holders(pool, less).contains(n) {
                let j = choose|j: nat|
                    FIRST_HOST <= j < FIRST_HOST + less && #[trigger] address(j) == pool[n];
                lemma_address_injective(j, top);
            }
        }
        let more = holders(pool, less).insert(n);
        assert(more.subset_of(holders(pool, k))) by {
            assert forall|m: Seq<char>| more.contains(m) implies holders(pool, k).contains(m) by {
                if m == n {
                    assert(address(top) == pool[m]);
                } else {
                    let j = choose|j: nat|
                        FIRST_HOST <= j < FIRST_HOST + less && #[trigger] address(j) == pool[m];
                    assert(address(j) == pool[m]);
                }
            }
        }
        assert(holders(pool, k).subset_of(pool.dom()));
        vstd::set_lib::lemma_len_subset(more, holders(pool, k));
    }
}

/// There are addresses for 244 cells: while fewer have one, a new cell gets
/// one.
pub proof fn law_room_for_244_cells(pool: Map<Seq<char>, Seq<char>>, name: Seq<char>)
    requires
        pool.dom().finite(),
        pool.dom().len() < 244,
    ensures
        allocation(pool, name) is Some,
{
    lemma_free_from(pool, FIRST_HOST as nat);
    if allocation(pool, name) is None {
        assert forall|j: nat| FIRST_HOST <= j < FIRST_HOST + 244 implies #[trigger] taken(
            pool,
            address(j),
        ) by {}
        lemma_holders(pool, 244);
        vstd::set_lib::lemma_len_subset(holders(pool, 244), pool.dom());
    }
}

// Directories

/// The directory of the cell `name`.
pub open spec fn dir_of(name: Seq<char>) -> Seq<char> {
    joined_path(CELLS_PATH@, name)
}

/// The directory of the cell `name`.
pub fn cell_dir(name: &str) -> (r: String)
    ensures
        r@ == dir_of(name@),
{
    join(CELLS_PATH, name)
}

/// The repository of the cell `name`.
pub fn cell_repo_dir(name: &str) -> (r: String)
    ensures
        r@ == joined_path(dir_of(name@), "repo"@),
{
    join(&cell_dir(name), "repo")
}

/// The flake of the cell `name`.
pub fn cell_flake_dir(name: &str) -> (r: String)
    ensures
        r@ == joined_path(dir_of(name@), "flake"@),
{
    join(&cell_dir(name), "flake")
}

/// The directory of the cell `name` among the runtime directories in `base`.
pub open spec fn runtime_in(base: Seq<char>, name: Seq<char>) -> Seq<char> {
    joined_path(joined_path(base, "cella"@), name)
}

/// The runtime directory of the cell `name`, in `base` or else in `/tmp`.
/// `here` and `fallback` say whether the file `ip` is in the one or the other:
/// where it is in the second only, that one is used.
pub fn runtime_dir(name: &str, base: Option<&str>, here: bool, fallback: bool) -> (r: String)
    ensures
        r@ == (if !here && fallback {
            runtime_in("/tmp"@, name@)
        } else {
            runtime_in(
                match base {
                    Some(b) => b@,
                    None => "/tmp"@,
                },
                name@,
            )
        }),
{
    let dir = match base {
        Some(b) => join(&join(b, "cella"), name),
        None => join(&join("/tmp", "cella"), name),
    };
    if !here && fallback {
        join(&join("/tmp", "cella"), name)
    } else {
        dir
    }
}

/// The cells, by name; `names` are the directories there are.
pub fn list_cells(names: Vec<String>) -> (r: Vec<String>)
    ensures
        ordered(r.deep_view()),
        r.deep_view().to_multiset() == names.deep_view().to_multiset(),
{
    sort(names)
}

/// A cell goes from created to running to stopped. Each change touches what it
/// is about and nothing else: the name, the repository and the timeout of a
/// cell stay, and what a start enters is what it was given.
pub proof fn law_changes_keep_the_cell(
    c: CellView,
    ip: Seq<char>,
    user: Seq<char>,
    now: Option<u64>,
)
    ensures
        ({
            let up = running(c, ip, user, now);
            &&& up.state == CellState::Running
            &&& up.ip == Some(ip) && up.user == user && up.started_at == now
            &&& up.name == c.name && up.repo == c.repo && up.autostop == c.autostop
        }),
        ({
            let down = stopped(c);
            &&& down.state == CellState::Stopped
            &&& down.name == c.name && down.repo == c.repo && down.user == c.user
            &&& down.started_at == c.started_at
            &&& down.autostop.timeout == c.autostop.timeout
        }),
        ({
            let gone = deleted(c);
            &&& gone.state == CellState::Stopped
            &&& gone.name == c.name && gone.repo == c.repo && gone.user == c.user
            &&& gone.started_at == c.started_at
            &&& gone.autostop.timeout == c.autostop.timeout
        }),
        ({
            let set = scheduled(c, now);
            &&& set.state == c.state && set.ip == c.ip && set.user == c.user
            &&& set.name == c.name && set.repo == c.repo && set.started_at == c.started_at
            &&& set.autostop.timeout == c.autostop.timeout
            &&& now is None ==> set == c
        }),
{
}

/// A new cell has the name and the repository it was made for, no address and
/// no stop; it has not been started.
pub proof fn law_new_cell_is_blank(name: Seq<char>, repo: Seq<char>, now: Option<u64>)
    ensures
        ({
            let c = new_cell(name, repo);
            &&& c.name == name && c.repo == repo
            &&& c.state == CellState::Created
            &&& c.ip is None && c.started_at is None && c.user.len() == 0
            &&& c.autostop.timeout == 0
            &&& remaining(c.autostop, now) is None
        }),
{
}

/// Whoever looks into the runtime directory finds the cell as it is: its
/// address where it has one, its repository and its user where they are known,
/// its timeout, and the time of its stop, whose file goes where none is
/// scheduled.
pub proof fn law_runtime_directory_tells(c: CellView, rt: Seq<char>)
    ensures
        ({
            let steps = runtime_steps(c, rt);
            let at = joined_path(rt, "autostop.at"@);
            &&& steps.first() == FileStepView::MakeDir(rt)
            &&& c.ip matches Some(ip) ==> steps.contains(
                FileStepView::Write { path: joined_path(rt, "ip"@), text: ip },
            )
            &&& c.repo.len() > 0 ==> steps.contains(
                FileStepView::Write { path: joined_path(rt, "repo"@), text: c.repo },
            )
            &&& c.user.len() > 0 ==> steps.contains(
                FileStepView::Write { path: joined_path(rt, "user"@), text: c.user },
            )
            &&& steps.contains(
                FileStepView::Write {
                    path: joined_path(rt, "autostop.timeout"@),
                    text: decimal(c.autostop.timeout as nat),
                },
            )
            &&& c.autostop.stop_at matches Some(t) ==> steps.last() == (FileStepView::Write {
                path: at,
                text: decimal(t as nat),
            })
            &&& c.autostop.stop_at is None ==> steps.last() == FileStepView::Remove(at)
            &&& steps.len() == 3 + (if c.ip is Some { 1int } else { 0 }) + (if c.repo.len() > 0 {
                1int
            } else {
                0
            }) + (if c.user.len() > 0 { 1int } else { 0 })
        }),
{
    let steps = runtime_steps(c, rt);
    let n = steps.len() as int;
    let a: int = if c.ip is Some { 1 } else { 0 };
    let b: int = if c.repo.len() > 0 { 1 } else { 0 };
    if c.ip is Some {
        assert(steps[1] == (FileStepView::Write { path: joined_path(rt, "ip"@), text: c.ip->0 }));
    }
    if c.repo.len() > 0 {
        assert(steps[1 + a] == (FileStepView::Write {
            path: joined_path(rt, "repo"@),
            text: c.repo,
        }));
    }
    if c.user.len() > 0 {
        assert(steps[1 + a + b] == (FileStepView::Write {
            path: joined_path(rt, "user"@),
            text: c.user,
        }));
    }
    assert(steps[n - 2] == (FileStepView::Write {
        path: joined_path(rt, "autostop.timeout"@),
        text: decimal(c.autostop.timeout as nat),
    }));
}

/// Every cell has one directory among all of them, with its state in it, and
/// one runtime directory.
pub proof fn law_cell_directories(name: Seq<char>, base: Seq<char>)
    ensures
        dir_of(name) == joined_path("/var/lib/cella/cells"@, name),
        state_file(name) == joined_path(joined_path("/var/lib/cella/cells"@, name), "cell.json"@),
        runtime_in(base, name) == joined_path(joined_path(base, "cella"@), name),
{
}

/// An address is a number from 11 to 254 behind 192.168.83, and an address
/// that is given out is the cell's own or was nobody's.
pub proof fn law_address_in_range(pool: Map<Seq<char>, Seq<char>>, name: Seq<char>)
    ensures
        allocation(pool, name) matches Some(ip) ==> pool.dom().contains(name) && ip == pool[name]
            || !taken(pool, ip) && exists|i: nat|
            11 <= i <= 254 && ip == #[trigger] ("192.168.83."@ + decimal(i)),
        allocation(pool, name) is None ==> !pool.dom().contains(name) && forall|i: nat|
            11 <= i <= 254 ==> taken(pool, #[trigger] ("192.168.83."@ + decimal(i))),
{
    lemma_free_from(pool, FIRST_HOST as nat);
    if !pool.dom().contains(name) && allocation(pool, name) is Some {
        let k = free_from(pool, FIRST_HOST as nat)->0;
        assert(address(k) == "192.168.83."@ + decimal(k));
    }
    if allocation(pool, name) is None {
        assert forall|i: nat| 11 <= i <= 254 implies taken(
            pool,
            #[trigger] ("192.168.83."@ + decimal(i)),
        ) by {
            assert(taken(pool, address(i)));
        }
    }
}

} // verus!
