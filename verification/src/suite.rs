//! A suite: a flat list of checks that stops at the first check that does
//! not go through.

use vstd::prelude::*;
use crate::entity::{answers_on, copied, ran_by, Entity, Test};
use crate::status::{Criticality, Status};

verus! {

/// A list of checks that are run in order until one of them fails, cannot be
/// applied or is cancelled.
#[derive(Debug)]
pub struct TestSuite<F> {
    pub tests: Vec<Test<F>>,
    pub level: Criticality,
    pub result: Option<Status>,
}

/// Whether a check that ends with `status` halts its suite.
pub open spec fn halts(status: Status) -> bool {
    status == Status::Failed || status == Status::NotApplicable || status == Status::Aborted
}

/// Whether `after` is `before` with the first `upto` checks run, each once,
/// and the others untouched.
pub open spec fn ran_first<F>(
    before: Seq<Test<F>>,
    after: Seq<Test<F>>,
    answers: spec_fn(F, Status) -> bool,
    upto: int,
) -> bool {
    &&& after.len() == before.len()
    &&& forall|i: int|
        0 <= i < upto ==> ran_by(
            Entity::Single(before[i]),
            Entity::Single(#[trigger] after[i]),
            answers,
        )
    &&& forall|i: int| upto <= i < before.len() ==> #[trigger] after[i] == before[i]
}

impl<F> TestSuite<F> {
    /// Whether running the suite on `input` can take it from `self` to
    /// `after` and answer `status`.
    ///
    /// The checks are run in order. The first one that halts the suite is the
    /// last one to run: its status is recorded as the result of the suite and
    /// answered. If none halts the suite, all are run, the answer is `Passed`
    /// and the recorded result stays as it was.
    pub open spec fn runs_to<T>(self, input: T, after: Self, status: Status) -> bool where
        F: Fn(&T) -> Status,
     {
        let answers = answers_on::<T, F>(input);
        &&& after.level == self.level
        &&& if status == Status::Passed {
            &&& ran_first(self.tests@, after.tests@, answers, self.tests@.len() as int)
            &&& forall|i: int|
                0 <= i < after.tests@.len() ==> !halts(#[trigger] after.tests@[i].status)
            &&& after.result == self.result
        } else {
            exists|k: int|
                {
                    &&& 0 <= k < self.tests@.len()
                    &&& ran_first(self.tests@, after.tests@, answers, k + 1)
                    &&& forall|i: int| 0 <= i < k ==> !halts(#[trigger] after.tests@[i].status)
                    &&& #[trigger] after.tests@[k].status == status
                    &&& halts(status)
                    &&& after.result == Some(status)
                }
        }
    }

    /// A suite without checks.
    pub fn new(level: Criticality) -> (suite: Self)
        ensures
            suite.tests@ == Seq::<Test<F>>::empty(),
            suite.level == level,
            suite.result is None,
    {
        TestSuite { tests: Vec::new(), level, result: None }
    }

    /// Appends a check to the suite.
    pub fn add_test(&mut self, test: Test<F>)
        ensures
            final(self).tests@ == old(self).tests@.push(test),
            final(self).level == old(self).level,
            final(self).result == old(self).result,
    {
        self.tests.push(test);
    }

    /// Runs the checks in order up to the first that halts the suite, and
    /// answers the status of that check, or `Passed` if there is none.
    pub fn run<T>(&mut self, data: &T) -> (status: Status) where F: Fn(&T) -> Status
        requires
            forall|i: int|
                0 <= i < old(self).tests@.len() ==> call_requires(
                    (#[trigger] old(self).tests@[i]).cb,
                    (data,),
                ),
        ensures
            old(self).runs_to(*data, *final(self), status),
    {
        let ghost answers = answers_on::<T, F>(*data);
        let mut i: usize = 0;
        while i < self.tests.len()
            invariant
                i <= self.tests.len(),
                self.level == old(self).level,
                self.result == old(self).result,
                answers == answers_on::<T, F>(*data),
                ran_first(old(self).tests@, self.tests@, answers, i as int),
                forall|j: int| 0 <= j < i ==> !halts(#[trigger] self.tests@[j].status),
                forall|j: int|
                    0 <= j < self.tests@.len() ==> call_requires(
                        (#[trigger] old(self).tests@[j]).cb,
                        (data,),
                    ),
            decreases self.tests.len() - i,
        {
            let status = self.tests[i].run(data);
            match status {
                Status::Failed | Status::NotApplicable | Status::Aborted => {
                    self.result = Some(status);
                    proof {
                        assert(ran_first(old(self).tests@, self.tests@, answers, i + 1));
                        assert(self.tests@[i as int].status == status);
                    }
                    return status;
                },
                _ => {},
            }
            i = i + 1;
        }
        Status::Passed
    }

    /// The level of the suite.
    pub fn level(&self) -> (level: Criticality)
        ensures
            level == self.level,
    {
        self.level
    }

    /// Records `issue` as the result of the suite.
    pub fn set_issue(&mut self, issue: Status)
        ensures
            *final(self) == (TestSuite { result: Some(issue), ..*old(self) }),
    {
        self.result = Some(issue);
    }

    /// The recorded result of the suite, if there is one.
    pub fn result(&self) -> (result: Option<Status>)
        ensures
            result == self.result,
    {
        self.result
    }
}

impl<F: Clone> Clone for TestSuite<F> {
    /// A copy of the suite, with a copy of every check.
    fn clone(&self) -> (copy: Self)
        ensures
            copy.level == self.level,
            copy.result == self.result,
            copy.tests@.len() == self.tests@.len(),
            forall|i: int|
                0 <= i < self.tests@.len() ==> copied(
                    Entity::Single(self.tests@[i]),
                    Entity::Single(#[trigger] copy.tests@[i]),
                ),
    {
        let mut tests: Vec<Test<F>> = Vec::new();
        let mut i: usize = 0;
        while i < self.tests.len()
            invariant
                i <= self.tests.len(),
                tests@.len() == i,
                forall|j: int|
                    0 <= j < i ==> copied(
                        Entity::Single(self.tests@[j]),
                        Entity::Single(#[trigger] tests@[j]),
                    ),
            decreases self.tests.len() - i,
        {
            let copy = self.tests[i].duplicate();
            tests.push(copy);
            i = i + 1;
        }
        TestSuite { tests, level: self.level, result: self.result }
    }
}

} // verus!
