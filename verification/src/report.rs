//! What a pass reports: one record for every single check.

use vstd::prelude::*;
use crate::entity::{height, max_height, Entity, Test, TestGroup};
use crate::facts::lemma_height_bound;
use crate::status::{aggregate, aggregate_statuses, Criticality, Status};

verus! {

/// What is reported of a single check.
#[derive(Debug, PartialEq, Eq)]
pub struct TestResult {
    pub criticality: Criticality,
    pub name: String,
    pub status: Status,
}

/// What is reported of a test: the record of a single check, or the records
/// of the checks of a group, in order and at any depth.
#[derive(Debug, PartialEq, Eq)]
pub enum RunResult {
    TestResult(TestResult),
    GroupResult(Vec<TestResult>),
}

impl Clone for TestResult {
    fn clone(&self) -> (copy: Self)
        ensures
            copy == *self,
    {
        TestResult { criticality: self.criticality, name: self.name.clone(), status: self.status }
    }
}

impl Clone for RunResult {
    fn clone(&self) -> (copy: Self)
        ensures
            match *self {
                RunResult::TestResult(r) => copy == RunResult::TestResult(r),
                RunResult::GroupResult(rs) => {
                    &&& copy matches RunResult::GroupResult(found)
                    &&& found@ == rs@
                },
            },
    {
        match self {
            RunResult::TestResult(result) => RunResult::TestResult(result.clone()),
            RunResult::GroupResult(results) => {
                let mut found: Vec<TestResult> = Vec::new();
                let mut i: usize = 0;
                while i < results.len()
                    invariant
                        i <= results.len(),
                        found@ == results@.take(i as int),
                    decreases results.len() - i,
                {
                    found.push(results[i].clone());
                    proof {
                        assert(found@ =~= results@.take(i + 1));
                    }
                    i = i + 1;
                }
                proof {
                    assert(found@ =~= results@);
                }
                RunResult::GroupResult(found)
            },
        }
    }
}

/// The statuses of the given records, in order.
pub open spec fn reported(records: Seq<TestResult>) -> Seq<Status> {
    Seq::new(records.len(), |i: int| records[i].status)
}

/// The record of a single check.
pub open spec fn record<F>(test: Test<F>) -> TestResult {
    TestResult { criticality: test.criticality, name: test.name, status: test.status }
}

/// The records of the checks of `test`, in order and at any depth.
pub open spec fn records<F>(test: Entity<F>) -> Seq<TestResult>
    decreases test, 0nat,
{
    match test {
        Entity::Single(t) => seq![record(t)],
        Entity::Group(g) => records_of(g.tests@, g.tests@.len() as int),
    }
}

/// The records of the checks of the first `upto` tests.
pub open spec fn records_of<F>(tests: Seq<Entity<F>>, upto: int) -> Seq<TestResult>
    decreases tests, upto,
{
    if 0 < upto <= tests.len() {
        records_of(tests, upto - 1) + records(tests[upto - 1])
    } else {
        Seq::empty()
    }
}

/// Whether `result` is what is reported of `test`: the record of a single
/// check, or the records of the checks of a group.
pub open spec fn reports<F>(result: RunResult, test: Entity<F>) -> bool {
    match test {
        Entity::Single(t) => result == RunResult::TestResult(record(t)),
        Entity::Group(_) => {
            &&& result matches RunResult::GroupResult(found)
            &&& found@ == records(test)
        },
    }
}

impl RunResult {
    /// The status that the result stands for: the status of a single check,
    /// or the aggregate of the statuses of the checks of a group.
    pub fn status(&self) -> (status: Option<Status>)
        ensures
            status == match *self {
                RunResult::TestResult(r) => Some(r.status),
                RunResult::GroupResult(rs) => Some(aggregate(reported(rs@))),
            },
    {
        match self {
            RunResult::TestResult(result) => Some(result.status),
            RunResult::GroupResult(results) => {
                let mut found: Vec<Status> = Vec::new();
                let mut i: usize = 0;
                while i < results.len()
                    invariant
                        i <= results.len(),
                        found@ == reported(results@).take(i as int),
                    decreases results.len() - i,
                {
                    found.push(results[i].status);
                    proof {
                        assert(found@ =~= reported(results@).take(i + 1));
                    }
                    i = i + 1;
                }
                proof {
                    assert(found@ =~= reported(results@));
                }
                Some(aggregate_statuses(&found))
            },
        }
    }
}

impl<F> Test<F> {
    /// What is reported of the check.
    pub fn result(&self) -> (result: TestResult)
        ensures
            result == record(*self),
    {
        TestResult { criticality: self.criticality, name: self.name.clone(), status: self.status }
    }
}

impl<F> TestGroup<F> {
    /// Appends the records of the checks of the group to `into`.
    pub fn collect(&self, into: &mut Vec<TestResult>)
        ensures
            final(into)@ == old(into)@ + records(Entity::Group(*self)),
        decreases 1 + max_height(self.tests@, 0), 0nat,
    {
        let mut i: usize = 0;
        while i < self.tests.len()
            invariant
                i <= self.tests.len(),
                into@ == old(into)@ + records_of(self.tests@, i as int),
            decreases self.tests.len() - i,
        {
            proof {
                lemma_height_bound(self.tests@, 0, i as int);
            }
            self.tests[i].collect(into);
            proof {
                assert(into@ =~= old(into)@ + records_of(self.tests@, i + 1));
            }
            i = i + 1;
        }
    }
}

impl<F> TestGroup<F> {
    /// What is reported of the group: the records of its checks, in order and
    /// at any depth.
    pub fn result(&self) -> (result: RunResult)
        ensures
            reports(result, Entity::Group(*self)),
    {
        let mut found: Vec<TestResult> = Vec::new();
        self.collect(&mut found);
        proof {
            assert(found@ =~= records(Entity::Group(*self)));
        }
        RunResult::GroupResult(found)
    }
}

impl<F> Entity<F> {
    /// Appends the records of the checks of the test to `into`.
    pub fn collect(&self, into: &mut Vec<TestResult>)
        ensures
            final(into)@ == old(into)@ + records(*self),
        decreases height(*self), 1nat,
    {
        match self {
            Entity::Single(t) => {
                into.push(t.result());
                proof {
                    assert(into@ =~= old(into)@ + records(*self));
                }
            },
            Entity::Group(g) => g.collect(into),
        }
    }

    /// What is reported of the test.
    pub fn result(&self) -> (result: RunResult)
        ensures
            reports(result, *self),
    {
        match self {
            Entity::Single(t) => RunResult::TestResult(t.result()),
            Entity::Group(g) => g.result(),
        }
    }
}

} // verus!
