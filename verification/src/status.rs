//! Outcomes of tests and the rule that folds the outcomes of a group's
//! children into one.

use vstd::prelude::*;

verus! {

/// The status of a test or of a group of tests.
#[derive(Clone, Copy, Debug, PartialEq, Eq, Structural)]
pub enum Status {
    /// The test has not run yet.
    Init,
    /// The test is running.
    Running,
    /// The test has passed.
    Passed,
    /// The test has failed.
    Failed,
    /// The input does not allow the test to run.
    NotApplicable,
    /// The test was cancelled by its runner.
    Aborted,
}

/// How much the rest of a pass depends on a test.
#[derive(Clone, Copy, Debug, PartialEq, Eq, Structural)]
pub enum Criticality {
    /// A bad outcome of the test cancels what has not run yet.
    Critical,
    /// The pass goes on whatever the outcome.
    Normal,
}

impl Default for Criticality {
    fn default() -> (c: Self)
        ensures
            c == Criticality::Normal,
    {
        Criticality::Normal
    }
}

/// A status that counts as a bad outcome: `Failed` or `Aborted`.
pub open spec fn is_bad(status: Status) -> bool {
    status == Status::Failed || status == Status::Aborted
}

/// The abort policy: a pass stops exactly when a critical test ends with a
/// bad outcome.
pub open spec fn trips(criticality: Criticality, status: Status) -> bool {
    criticality == Criticality::Critical && is_bad(status)
}

/// Whether every status of `statuses` is `Passed`.
pub open spec fn all_passed(statuses: Seq<Status>) -> bool {
    forall|i: int| 0 <= i < statuses.len() ==> statuses[i] == Status::Passed
}

/// The status of a group whose children have the given statuses.
///
/// A child that has not run keeps the group at `Init`. Otherwise the group has
/// passed if all children have, is `Aborted` if any child is, and has `Failed`
/// in every other case, so a cancelled child outweighs a failed one and a
/// mixture without either still counts as a failure.
pub open spec fn aggregate(statuses: Seq<Status>) -> Status {
    if statuses.contains(Status::Init) {
        Status::Init
    } else if all_passed(statuses) {
        Status::Passed
    } else if statuses.contains(Status::Aborted) {
        Status::Aborted
    } else {
        Status::Failed
    }
}

/// Decides whether a test of the given criticality that ended with `status`
/// stops the pass.
pub fn should_abort(criticality: Criticality, status: Status) -> (b: bool)
    ensures
        b == trips(criticality, status),
{
    match (criticality, status) {
        (Criticality::Critical, Status::Failed) => true,
        (Criticality::Critical, Status::Aborted) => true,
        _ => false,
    }
}

/// Folds the statuses of a group's children into the status of the group.
pub fn aggregate_statuses(statuses: &Vec<Status>) -> (r: Status)
    ensures
        r == aggregate(statuses@),
{
    let mut any_init = false;
    let mut every_passed = true;
    let mut any_aborted = false;
    let mut i: usize = 0;
    while i < statuses.len()
        invariant
            i <= statuses.len(),
            any_init == statuses@.take(i as int).contains(Status::Init),
            every_passed == all_passed(statuses@.take(i as int)),
            any_aborted == statuses@.take(i as int).contains(Status::Aborted),
        decreases statuses.len() - i,
    {
        let s = statuses[i];
        let ghost before = statuses@.take(i as int);
        let ghost after = statuses@.take(i + 1);
        proof {
            assert(after =~= before.push(s));
            assert forall|x: Status| after.contains(x) == (before.contains(x) || x == s) by {
                if before.contains(x) {
                    let j = choose|j: int| 0 <= j < before.len() && before[j] == x;
                    assert(after[j] == x);
                }
                if x == s {
                    assert(after[i as int] == x);
                }
            }
            if all_passed(before) && s == Status::Passed {
                assert(all_passed(after));
            }
            if all_passed(after) {
                assert(after[i as int] == Status::Passed);
                assert forall|j: int| 0 <= j < before.len() implies before[j] == Status::Passed by {
                    assert(after[j] == before[j]);
                }
            }
        }
        match s {
            Status::Init => {
                any_init = true;
                every_passed = false;
            },
            Status::Passed => {},
            Status::Aborted => {
                any_aborted = true;
                every_passed = false;
            },
            _ => {
                every_passed = false;
            },
        }
        i = i + 1;
    }
    proof {
        assert(statuses@.take(i as int) =~= statuses@);
    }
    if any_init {
        Status::Init
    } else if every_passed {
        Status::Passed
    } else if any_aborted {
        Status::Aborted
    } else {
        Status::Failed
    }
}

} // verus!
