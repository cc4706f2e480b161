//! Requests about the life of a cell: what a server does for them, step by
//! step.

use vstd::prelude::*;

verus! {

/// What is asked for.
#[derive(Clone, Copy, Debug, PartialEq, Eq, Structural)]
pub enum Ask {
    /// The clone of a cell.
    Prepare,
    /// A cell that runs.
    Up,
    /// A cell that does not run.
    Down,
    /// That a cell is no more.
    Delete,
}

/// One thing that a server does for a request.
#[derive(Clone, Copy, Debug, PartialEq, Eq, Structural)]
pub enum LifeStep {
    /// Set up the clone of the cell.
    Clone,
    /// See whether the cell runs.
    Look,
    /// Start its machine.
    Start,
    /// Stop its machine.
    Stop,
    /// Delete it.
    Delete,
}

/// How far a request has come.
pub enum Progress {
    /// This is done next.
    Next(LifeStep),
    /// All is done.
    Done,
    /// A step went wrong.
    Failed(String),
}

/// What is done first.
pub open spec fn first_of(ask: Ask) -> LifeStep {
    match ask {
        Ask::Prepare | Ask::Up => LifeStep::Clone,
        Ask::Down => LifeStep::Look,
        Ask::Delete => LifeStep::Delete,
    }
}

/// What is done after a step that went well. `running` is what was seen by
/// looking; nothing more is done where the cell is as it is asked to be.
pub open spec fn next_of(ask: Ask, step: LifeStep, running: bool) -> Option<LifeStep> {
    match (ask, step) {
        (Ask::Up, LifeStep::Clone) => Some(LifeStep::Look),
        (Ask::Up, LifeStep::Look) => if running {
            None
        } else {
            Some(LifeStep::Start)
        },
        (Ask::Down, LifeStep::Look) => if running {
            Some(LifeStep::Stop)
        } else {
            None
        },
        _ => None,
    }
}

/// What is done first for a request.
pub fn first_step(ask: Ask) -> (r: LifeStep)
    ensures
        r == first_of(ask),
{
    match ask {
        Ask::Prepare => LifeStep::Clone,
        Ask::Up => LifeStep::Clone,
        Ask::Down => LifeStep::Look,
        Ask::Delete => LifeStep::Delete,
    }
}

/// How far a request has come after a step. `outcome` says whether the cell
/// was seen to run, where it was looked for, or what went wrong.
pub fn after_step(ask: Ask, step: LifeStep, outcome: Result<bool, String>) -> (r: Progress)
    ensures
        match outcome {
            Err(e) => r matches Progress::Failed(m) && m@ == e@,
            Ok(running) => match next_of(ask, step, running) {
                Some(n) => r matches Progress::Next(s) && s == n,
                None => r is Done,
            },
        },
{
    match outcome {
        Err(e) => Progress::Failed(e),
        Ok(running) => match (ask, step) {
            (Ask::Up, LifeStep::Clone) => Progress::Next(LifeStep::Look),
            (Ask::Up, LifeStep::Look) => if running {
                Progress::Done
            } else {
                Progress::Next(LifeStep::Start)
            },
            (Ask::Down, LifeStep::Look) => if running {
                Progress::Next(LifeStep::Stop)
            } else {
                Progress::Done
            },
            _ => Progress::Done,
        },
    }
}

/// How many steps can still follow.
pub open spec fn steps_left(step: LifeStep) -> nat {
    match step {
        LifeStep::Clone => 2,
        LifeStep::Look => 1,
        _ => 0,
    }
}

/// The steps from `step` on, where all goes well and the cell runs or not.
pub open spec fn steps_from(ask: Ask, step: LifeStep, running: bool) -> Seq<LifeStep>
    decreases steps_left(step),
{
    match next_of(ask, step, running) {
        Some(n) => seq![step] + steps_from(ask, n, running),
        None => seq![step],
    }
}

/// All steps of a request where all goes well: a clone is set up before a
/// machine is started, a cell that runs is not started again, and one that does
/// not run is not stopped.
pub proof fn law_steps_of_requests(ask: Ask, running: bool)
    ensures
        steps_from(ask, first_of(ask), running) == (match (ask, running) {
            (Ask::Prepare, _) => seq![LifeStep::Clone],
            (Ask::Up, true) => seq![LifeStep::Clone, LifeStep::Look],
            (Ask::Up, false) => seq![LifeStep::Clone, LifeStep::Look, LifeStep::Start],
            (Ask::Down, true) => seq![LifeStep::Look, LifeStep::Stop],
            (Ask::Down, false) => seq![LifeStep::Look],
            (Ask::Delete, _) => seq![LifeStep::Delete],
        }),
{
    reveal_with_fuel(steps_from, 4);
}

/// A request comes to an end: every step leaves fewer that can follow.
pub proof fn law_request_ends(ask: Ask, step: LifeStep, running: bool)
    ensures
        next_of(ask, step, running) matches Some(n) ==> steps_left(n) < steps_left(step),
{
}

} // verus!
