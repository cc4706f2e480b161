//! Durations, timeouts and the clock.

use crate::flow::config::FlowMeta;
use crate::flow::op::OpFrontmatter;
use crate::text::basic::{before_suffix, law_affix_and_rest, strip_suffix};
use crate::text::number::{
    decimal, is_digit, law_decimal_reads_back, law_only_digits_write_numbers, number_of, parse_number,
};
use vstd::prelude::*;

verus! {

/// The seconds of the unit at the end of a duration.
pub open spec fn unit_seconds(s: Seq<char>) -> Option<(nat, Seq<char>)> {
    if let Some(n) = before_suffix(s, "m"@) {
        Some((60, n))
    } else if let Some(n) = before_suffix(s, "h"@) {
        Some((3600, n))
    } else if let Some(n) = before_suffix(s, "s"@) {
        Some((1, n))
    } else {
        None
    }
}

/// The seconds of a duration: a number of seconds, or a number followed by
/// `s`, `m` or `h` for seconds, minutes and hours.
pub open spec fn duration_of(s: Seq<char>) -> Option<nat> {
    match number_of(s, u64::MAX as nat) {
        Some(n) => Some(n),
        None => match unit_seconds(s) {
            Some((unit, digits)) => match number_of(digits, u64::MAX as nat) {
                Some(n) => Some(n * unit),
                None => None,
            },
            None => None,
        },
    }
}

/// The seconds of the duration fit 64 bits.
pub open spec fn duration_fits(s: Seq<char>) -> bool {
    duration_of(s) matches Some(n) ==> n <= u64::MAX
}

/// The number before a unit, and the seconds of the unit.
fn with_unit(s: &str) -> (r: Option<(u64, u64)>)
    ensures
        match r {
            Some((n, unit)) => duration_of(s@) == Some((n * unit) as nat) && (unit == 1 || unit == 60
                || unit == 3600),
            None => duration_of(s@) is None,
        },
{
    if let Some(n) = parse_number(s, u64::MAX) {
        assert(n * 1u64 == n);
        return Some((n, 1));
    }
    let (digits, unit): (String, u64) = if let Some(d) = strip_suffix(s, "m") {
        (d, 60)
    } else if let Some(d) = strip_suffix(s, "h") {
        (d, 3600)
    } else if let Some(d) = strip_suffix(s, "s") {
        (d, 1)
    } else {
        return None;
    };
    assert(unit_seconds(s@) == Some((unit as nat, digits@)));
    match parse_number(&digits, u64::MAX) {
        Some(n) => Some((n, unit)),
        None => None,
    }
}

/// Whether the seconds of the duration fit 64 bits.
pub fn fits(s: &str) -> (r: bool)
    ensures
        r == duration_fits(s@),
{
    match with_unit(s) {
        Some((n, unit)) => {
            let r = n <= u64::MAX / unit;
            assert(r == (n * unit <= u64::MAX)) by (nonlinear_arith)
                requires
                    unit == 1 || unit == 60 || unit == 3600,
                    r == (n <= u64::MAX / unit),
            ;
            r
        },
        None => true,
    }
}

/// The seconds of a duration such as "30", "30s", "5m" or "1h".
pub fn parse_duration(s: &str) -> (r: Option<u64>)
    requires
        duration_fits(s@),
    ensures
        match r {
            Some(n) => duration_of(s@) == Some(n as nat),
            None => duration_of(s@) is None,
        },
{
    match with_unit(s) {
        Some((n, unit)) => Some(n * unit),
        None => None,
    }
}

/// The timeout that holds for an op: its own, or that of the flow.
pub open spec fn timeout_text(op: OpFrontmatter, flow: FlowMeta) -> Seq<char> {
    match op.timeout {
        Some(t) => t@,
        None => flow.timeout@,
    }
}

/// Resolve effective timeout in seconds: op override > flow default.
pub fn resolve_timeout(op: &OpFrontmatter, flow: &FlowMeta) -> (r: Option<u64>)
    requires
        duration_fits(timeout_text(*op, *flow)),
    ensures
        match r {
            Some(n) => duration_of(timeout_text(*op, *flow)) == Some(n as nat),
            None => duration_of(timeout_text(*op, *flow)) is None,
        },
{
    match &op.timeout {
        Some(t) => parse_duration(t),
        None => parse_duration(&flow.timeout),
    }
}

/// An op that has a timeout of its own goes by it, whatever the flow says.
pub proof fn law_op_timeout_wins(op: OpFrontmatter, a: FlowMeta, b: FlowMeta)
    requires
        op.timeout is Some,
    ensures
        timeout_text(op, a) == op.timeout->0@,
        timeout_text(op, a) == timeout_text(op, b),
{
}

// The clock

/// `std::time::SystemTime`, a point in time.
#[verifier::external_type_specification]
#[verifier::external_body]
pub struct ExSystemTime(std::time::SystemTime);

/// `SystemTime::now` reads the clock of the machine. Nothing is claimed of
/// what it shows.
pub assume_specification[ std::time::SystemTime::now ]() -> (r: std::time::SystemTime)
;

/// The whole seconds of a duration.
pub uninterp spec fn whole_seconds(d: std::time::Duration) -> u64;

/// `Duration::as_secs` gives the whole seconds of a duration: what is less than
/// a second is left out. The number depends on the duration alone.
pub assume_specification[ std::time::Duration::as_secs ](d: &std::time::Duration) -> (r: u64)
    ensures
        r == whole_seconds(*d),
;

/// The time passed from the beginning of 1970 to a point in time, where it is
/// not before that.
pub uninterp spec fn passed_at(t: std::time::SystemTime) -> Option<std::time::Duration>;

/// `SystemTime::duration_since` with `UNIX_EPOCH`: the time passed since then,
/// or nothing for a point in time before it. It depends on the point in time
/// alone.
#[verifier::external_body]
fn since_epoch(t: &std::time::SystemTime) -> (r: Option<std::time::Duration>)
    ensures
        r == passed_at(*t),
{
    t.duration_since(std::time::UNIX_EPOCH).ok()
}

/// The whole seconds from the beginning of 1970 to a point in time, where it is
/// not before that.
pub open spec fn seconds_of(t: std::time::SystemTime) -> Option<u64> {
    match passed_at(t) {
        Some(d) => Some(whole_seconds(d)),
        None => None,
    }
}

/// The whole seconds from the beginning of 1970 to a point in time, where it is
/// not before that.
pub fn seconds_at(t: &std::time::SystemTime) -> (r: Option<u64>)
    ensures
        r == seconds_of(*t),
{
    match since_epoch(t) {
        Some(d) => Some(d.as_secs()),
        None => None,
    }
}

/// The seconds that the clock shows: those of the point in time that it is at.
/// Which one that is the machine decides.
pub fn clock() -> (r: Option<u64>)
    ensures
        exists|t: std::time::SystemTime| r == #[trigger] seconds_of(t),
{
    let t = std::time::SystemTime::now();
    seconds_at(&t)
}

/// The seconds shown, or zero where none are.
pub fn or_zero(shown: Option<u64>) -> (r: u64)
    ensures
        r == (match shown {
            Some(n) => n,
            None => 0,
        }),
{
    match shown {
        Some(n) => n,
        None => 0,
    }
}

/// The seconds since 1970 that the clock shows, or zero where it shows none.
pub fn now_secs() -> (r: u64)
    ensures
        exists|t: std::time::SystemTime|
            r == (match #[trigger] seconds_of(t) {
                Some(n) => n,
                None => 0,
            }),
{
    or_zero(clock())
}

/// A number of seconds is written with or without `s`; with `m` or `h` behind
/// it, a number counts minutes or hours.
pub proof fn law_units_count(n: nat)
    requires
        n <= u64::MAX,
    ensures
        duration_of(decimal(n)) == Some(n),
        duration_of(decimal(n) + seq!['s']) == Some(n),
        duration_of(decimal(n) + seq!['m']) == Some(60 * n),
        duration_of(decimal(n) + seq!['h']) == Some(60 * (60 * n)),
{
    let d = decimal(n);
    law_decimal_reads_back(n, u64::MAX as nat);
    reveal_strlit("s");
    reveal_strlit("m");
    reveal_strlit("h");
    assert("s"@ == seq!['s']);
    assert("m"@ == seq!['m']);
    assert("h"@ == seq!['h']);
    lemma_unit_behind(d, 's');
    lemma_unit_behind(d, 'm');
    lemma_unit_behind(d, 'h');
    assert(before_suffix(d + seq!['s'], seq!['m']) is None);
    assert(before_suffix(d + seq!['s'], seq!['h']) is None);
    assert(before_suffix(d + seq!['h'], seq!['m']) is None);
    assert(unit_seconds(d + seq!['s']) == Some((1nat, d)));
    assert(n * 1nat == n);
    assert(unit_seconds(d + seq!['m']) == Some((60nat, d)));
}

pub proof fn lemma_unit_behind(d: Seq<char>, unit: char)
    requires
        !is_digit(unit),
        d.len() > 0,
    ensures
        number_of(d + seq![unit], u64::MAX as nat) is None,
        before_suffix(d + seq![unit], seq![unit]) == Some(d),
        forall|c: char| c != unit ==> #[trigger] before_suffix(d + seq![unit], seq![c]) is None,
{
    let s = d + seq![unit];
    law_affix_and_rest(d, seq![unit]);
    law_only_digits_write_numbers(s, u64::MAX as nat);
    assert(s[s.len() - 1] == unit);
    assert forall|c: char| c != unit implies #[trigger] before_suffix(s, seq![c]) is None by {
        if seq![c].is_suffix_of(s) {
            assert(s.subrange(s.len() - 1, s.len() as int)[0] == unit);
            assert(seq![c][0] == c);
        }
    }
}

/// A text that writes no number, with or without a unit, is no duration.
pub proof fn law_other_texts_are_no_durations(s: Seq<char>)
    requires
        number_of(s, u64::MAX as nat) is None,
        s.len() == 0 || (s.last() != 's' && s.last() != 'm' && s.last() != 'h'),
    ensures
        duration_of(s) is None,
        duration_fits(s),
{
    reveal_strlit("s");
    reveal_strlit("m");
    reveal_strlit("h");
    lemma_ends_otherwise(s, "s"@);
    lemma_ends_otherwise(s, "m"@);
    lemma_ends_otherwise(s, "h"@);
}

proof fn lemma_ends_otherwise(s: Seq<char>, unit: Seq<char>)
    requires
        unit.len() == 1,
        s.len() == 0 || s.last() != unit[0],
    ensures
        before_suffix(s, unit) is None,
{
    if unit.is_suffix_of(s) {
        assert(s.subrange(s.len() - 1, s.len() as int)[0] == unit[0]);
    }
}

/// A duration fits where, and only where, its seconds are a number of 64 bits.
pub proof fn law_durations_that_fit(n: nat)
    requires
        n <= u64::MAX,
    ensures
        duration_fits(decimal(n)) && duration_fits(decimal(n) + seq!['s']),
        duration_fits(decimal(n) + seq!['m']) <==> 60 * n <= u64::MAX,
        duration_fits(decimal(n) + seq!['h']) <==> 3600 * n <= u64::MAX,
{
    law_units_count(n);
}

/// A point in time has the whole seconds of what has passed since the
/// beginning of 1970, and none before it.
pub proof fn law_seconds_of_a_point(t: std::time::SystemTime)
    ensures
        passed_at(t) is None <==> seconds_of(t) is None,
        passed_at(t) is Some ==> seconds_of(t) == Some(whole_seconds(passed_at(t)->0)),
{
}

} // verus!
