//! The removal of cells that nobody has used for long.

use crate::flow::time::{duration_of, fits, parse_duration};
use crate::json::{as_whole, json_read, parse, under, whole_under, Json};
use crate::text::basic::{before_suffix, strip_suffix};
use crate::text::number::{decimal, decimal_text, number_of, parse_number};
use vstd::prelude::*;

verus! {

/// The seconds of a day.
pub const DAY: u64 = 86400;

/// The number of days that a text such as "7d" writes.
pub open spec fn days_in(s: Seq<char>) -> Option<nat> {
    match before_suffix(s, "d"@) {
        Some(n) => number_of(n, u64::MAX as nat),
        None => None,
    }
}

/// The seconds of an age such as "7d", "24h" or "1h".
pub open spec fn age_of(s: Seq<char>) -> Option<nat> {
    match days_in(s) {
        Some(n) => Some(n * 86400),
        None => duration_of(s),
    }
}

/// The seconds of the age fit 64 bits.
pub open spec fn age_fits(s: Seq<char>) -> bool {
    age_of(s) matches Some(n) ==> n <= u64::MAX
}

fn days(s: &str) -> (r: Option<u64>)
    ensures
        match r {
            Some(n) => days_in(s@) == Some(n as nat),
            None => days_in(s@) is None,
        },
{
    match strip_suffix(s, "d") {
        Some(n) => parse_number(&n, u64::MAX),
        None => None,
    }
}

/// Whether the seconds of the age fit 64 bits.
pub fn threshold_fits(s: &str) -> (r: bool)
    ensures
        r == age_fits(s@),
{
    match days(s) {
        Some(n) => n <= u64::MAX / DAY,
        None => fits(s),
    }
}

/// The seconds after which a cell is removed, from an age such as "7d", "24h"
/// or "1h"; else the error.
pub fn threshold(older_than: &str) -> (r: Result<u64, String>)
    requires
        age_fits(older_than@),
    ensures
        match age_of(older_than@) {
            Some(n) => r matches Ok(t) && t == n,
            None => r matches Err(e) && e@ == "invalid duration '"@ + older_than@
                + "' — use e.g. 7d, 24h, 1h"@,
        },
{
    let t = match days(older_than) {
        Some(n) => Some(n * DAY),
        None => parse_duration(older_than),
    };
    match t {
        Some(n) => Ok(n),
        None => {
            let mut e = "invalid duration '".to_string();
            e.append(older_than);
            e.append("' — use e.g. 7d, 24h, 1h");
            Err(e)
        },
    }
}

/// When an op was last started in a cell, from the status of its flow.
pub fn op_started(status: &Json) -> (r: Option<u64>)
    ensures
        r == as_whole(under(status.deep_view(), "op_started_at"@)),
{
    whole_under(status, "op_started_at")
}

/// When an op was last started in a cell, from the text of the status of its
/// flow where it is there.
pub open spec fn started_in(status: Option<Seq<char>>) -> Option<u64> {
    match status {
        Some(s) => match json_read(s) {
            Ok(t) => as_whole(under(t, "op_started_at"@)),
            Err(_) => None,
        },
        None => None,
    }
}

/// When a cell was last used: when an op was started in it, or else when its
/// directory was changed. Zero where neither is known.
pub open spec fn last_used(op_started: Option<u64>, modified: Option<u64>) -> u64 {
    match op_started {
        Some(t) if t > 0 => t,
        _ => match modified {
            Some(t) => t,
            None => 0,
        },
    }
}

/// The seconds since a cell was last used, where it is to be removed: it does
/// not run, it is known when it was used, and that is long ago.
pub open spec fn stale_age(running: bool, used: u64, now: u64, threshold: u64) -> Option<u64> {
    let age: u64 = if now >= used {
        (now - used) as u64
    } else {
        0
    };
    if running || used == 0 || age < threshold {
        None
    } else {
        Some(age)
    }
}

/// When a cell was last used.
pub fn used_at(op_started: Option<u64>, modified: Option<u64>) -> (r: u64)
    ensures
        r == last_used(op_started, modified),
{
    match op_started {
        Some(t) if t > 0 => t,
        _ => match modified {
            Some(t) => t,
            None => 0,
        },
    }
}

/// The seconds since a cell was last used, where it is to be removed.
pub fn stale(running: bool, used: u64, now: u64, threshold: u64) -> (r: Option<u64>)
    ensures
        r == stale_age(running, used, now, threshold),
{
    if running || used == 0 {
        return None;
    }
    let age: u64 = if now >= used {
        now - used
    } else {
        0
    };
    if age < threshold {
        None
    } else {
        Some(age)
    }
}

/// The seconds since a cell was last used, where it is to be removed. `status`
/// is the text of the status of its flow, and `modified` the time at which its
/// directory was changed.
pub fn cmd_gc(
    running: bool,
    status: Option<&str>,
    modified: Option<u64>,
    now: u64,
    threshold: u64,
) -> (r: Option<u64>)
    ensures
        r == stale_age(running, last_used(started_in(status.deep_view()), modified), now, threshold),
{
    let started = match status {
        Some(s) => match parse(s) {
            Ok(j) => op_started(&j),
            Err(_) => None,
        },
        None => None,
    };
    stale(running, used_at(started, modified), now, threshold)
}

/// A cell that runs is never removed, nor one of which nothing is known, nor
/// one that was used within the threshold.
pub proof fn law_gc_spares_used_cells(running: bool, used: u64, now: u64, threshold: u64)
    ensures
        running ==> stale_age(running, used, now, threshold) is None,
        used == 0 ==> stale_age(running, used, now, threshold) is None,
        threshold > 0 && used + threshold > now ==> stale_age(running, used, now, threshold) is None,
{
}

/// Any other cell is removed.
pub proof fn law_gc_removes_stale_cells(used: u64, now: u64, threshold: u64)
    requires
        used > 0,
        used + threshold <= now,
    ensures
        stale_age(false, used, now, threshold) == Some((now - used) as u64),
{
}

/// An age in words: days, hours or minutes.
pub open spec fn age_words(age: u64) -> Seq<char> {
    if age >= DAY {
        decimal((age / 86400) as nat) + "d"@
    } else if age >= 3600 {
        decimal((age / 3600) as nat) + "h"@
    } else {
        decimal((age / 60) as nat) + "m"@
    }
}

/// An age in words.
pub fn age_text(age: u64) -> (r: String)
    ensures
        r@ == age_words(age),
{
    if age >= DAY {
        let mut r = decimal_text(age / 86400);
        r.append("d");
        r
    } else if age >= 3600 {
        let mut r = decimal_text(age / 3600);
        r.append("h");
        r
    } else {
        let mut r = decimal_text(age / 60);
        r.append("m");
        r
    }
}

/// What is said at the end.
pub open spec fn gc_summary(dry_run: bool, deleted: u64) -> Seq<char> {
    if dry_run {
        "dry run — no cells deleted"@
    } else if deleted == 0 {
        "no stale cells to clean up"@
    } else if deleted == 1 {
        "cleaned up 1 cell"@
    } else {
        "cleaned up "@ + decimal(deleted as nat) + " cells"@
    }
}

/// What is said at the end.
pub fn summary(dry_run: bool, deleted: u64) -> (r: String)
    ensures
        r@ == gc_summary(dry_run, deleted),
{
    if dry_run {
        "dry run — no cells deleted".to_string()
    } else if deleted == 0 {
        "no stale cells to clean up".to_string()
    } else if deleted == 1 {
        "cleaned up 1 cell".to_string()
    } else {
        let mut r = "cleaned up ".to_string();
        r.append(&decimal_text(deleted));
        r.append(" cells");
        r
    }
}

/// Days count twenty-four hours; other units count as they do elsewhere.
pub proof fn law_ages_count(n: nat)
    requires
        n <= u64::MAX,
    ensures
        age_of(decimal(n) + seq!['d']) == Some(24 * (60 * (60 * n))),
        age_of(decimal(n) + seq!['h']) == Some(60 * (60 * n)),
        age_of(decimal(n) + seq!['m']) == Some(60 * n),
        age_of(decimal(n) + seq!['s']) == Some(n),
        age_of(decimal(n)) == Some(n),
{
    let d = decimal(n);
    reveal_strlit("d");
    assert("d"@ == seq!['d']);
    crate::text::number::law_decimal_reads_back(n, u64::MAX as nat);
    crate::text::number::lemma_decimal_value(n);
    crate::flow::time::law_units_count(n);
    crate::flow::time::lemma_unit_behind(d, 'd');
    crate::flow::time::lemma_unit_behind(d, 'h');
    crate::flow::time::lemma_unit_behind(d, 'm');
    crate::flow::time::lemma_unit_behind(d, 's');
    if "d"@.is_suffix_of(d) {
        assert(d.subrange(d.len() - 1, d.len() as int)[0] == d.last());
        assert("d"@[0] == 'd');
        assert(crate::text::number::is_digit(d[d.len() - 1]));
    }
}

/// A cell that does not run is kept or removed by the time of its last op,
/// where there was one, and else by the time its directory was changed.
pub proof fn law_last_use_decides(started: u64, modified: u64, other: Option<u64>)
    requires
        started > 0,
    ensures
        last_used(Some(started), other) == started,
        last_used(Some(0), Some(modified)) == modified,
        last_used(None, Some(modified)) == modified,
        last_used(None, None) == 0,
        last_used(Some(0), None) == 0,
{
}

/// The start of the last op is the whole number under `op_started_at` in the
/// status, where the status can be read.
pub proof fn law_last_op_read(status: Seq<char>)
    ensures
        json_read(status) matches Ok(t) ==> started_in(Some(status)) == as_whole(
            under(t, "op_started_at"@),
        ),
        json_read(status) is Err ==> started_in(Some(status)) is None,
        started_in(None) is None,
{
}

/// An age is said in the largest unit that it fills, in whole units.
pub proof fn law_age_said(age: u64, n: u64)
    requires
        n > 0,
    ensures
        86400 * n <= age < 86400 * (n + 1) ==> age_words(age) == decimal(n as nat) + "d"@,
        n < 24 && 3600 * n <= age < 3600 * (n + 1) ==> age_words(age) == decimal(n as nat) + "h"@,
        n < 60 && 60 * n <= age < 60 * (n + 1) ==> age_words(age) == decimal(n as nat) + "m"@,
        age < 60 ==> age_words(age) == decimal(0) + "m"@,
{
}

/// A dry run never says that cells were removed; any other run says how many
/// were.
pub proof fn law_removals_told(deleted: u64, other: u64)
    requires
        deleted > 1,
    ensures
        gc_summary(true, deleted) == gc_summary(true, other),
        gc_summary(true, deleted) == "dry run — no cells deleted"@,
        gc_summary(false, deleted) == "cleaned up "@ + decimal(deleted as nat) + " cells"@,
        gc_summary(false, 1) == "cleaned up 1 cell"@,
        gc_summary(false, 0) == "no stale cells to clean up"@,
{
}

/// An age that is no number of days and no duration is none, and one fits
/// where its seconds are a number of 64 bits.
pub proof fn law_ages_that_fit(n: nat, s: Seq<char>)
    requires
        n <= u64::MAX,
    ensures
        age_fits(decimal(n) + seq!['d']) <==> 86400 * n <= u64::MAX,
        age_fits(decimal(n)),
        !"d"@.is_suffix_of(s) ==> age_of(s) == duration_of(s),
{
    law_ages_count(n);
}

} // verus!
