//! The runner: it owns the tests and the shared input, and walks the tests
//! through the states `Init`, `Testing`, then `Finish` or `Aborting`.

use vstd::prelude::*;
use crate::clock::Timestamp;
use crate::entity::{
    accepts, answers_on, cancelled, copied, fit_for, max_height, passed_over, pending,
    stopped_before, Entity, TestGroup,
};
use crate::facts::{
    lemma_cancelled, lemma_pass_cancels, lemma_pass_runs, lemma_pass_whole, lemma_ran_settles,
    lemma_ran_shape, lemma_step_keeps, passed_up_to,
};
use crate::fsm::{ResourceState, State, StateHolder, Transition};
use crate::states::{
    cancels_first, first_pending, none_pending, runs_first, InitState, RunnerPhase,
};
use crate::status::Status;

verus! {

/// The status of a runner.
#[derive(Clone, Copy, Debug, PartialEq, Eq, Structural)]
pub enum TestsRunnerStatus {
    /// The runner has tests to run.
    Init,
    /// The runner is running its tests.
    Testing,
    /// A critical test stopped the runner.
    Aborted,
    /// The runner has run all its tests.
    Completed,
}

/// Runs tests and groups of tests on one shared input.
pub struct TestsRunner<'a, T, F> {
    pub start: Option<Timestamp>,
    pub end: Option<Timestamp>,
    pub status: TestsRunnerStatus,
    pub tests: Vec<Entity<F>>,
    pub data: &'a T,
}

impl<'a, T, F> ResourceState for TestsRunner<'a, T, F> {
    type Status = Status;

    type Phase = RunnerPhase;
}

/// How far a state is from the end of a pass that has nothing left to do.
pub open spec fn rank(phase: RunnerPhase) -> nat {
    match phase {
        RunnerPhase::Init(_) => 3,
        RunnerPhase::Testing(_) => 2,
        RunnerPhase::Aborting(_) => 1,
        RunnerPhase::Finish(_) => 0,
    }
}

/// Whether every test of `tests` accepts `input`.
pub open spec fn all_accept<T, F: Fn(&T) -> Status>(tests: Seq<Entity<F>>, input: T) -> bool {
    forall|i: int| 0 <= i < tests.len() ==> accepts(#[trigger] tests[i], input)
}

impl<'a, T, F> TestsRunner<'a, T, F> {
    /// Whether `run` can take the runner from `self` to `after`.
    ///
    /// A runner that is not at `Init` is left as it is. Otherwise the runner
    /// makes one pass over its tests and ends `Aborted` if a test stopped the
    /// pass, `Completed` if none did.
    pub open spec fn runs_to(self, after: Self) -> bool where F: Fn(&T) -> Status {
        if self.status != TestsRunnerStatus::Init {
            after == self
        } else {
            &&& after.data == self.data
            &&& after.start is Some
            &&& after.end is Some
            &&& passed_over(self.tests@, *self.data, after.tests@)
            &&& after.status == if stopped_before(
                self.tests@,
                after.tests@,
                self.tests@.len() as int,
            ) {
                TestsRunnerStatus::Aborted
            } else {
                TestsRunnerStatus::Completed
            }
        }
    }

    /// Whether appending `test` can take the runner from `self` to `after`.
    ///
    /// A runner that was stopped stays `Aborted` and holds the test cancelled.
    /// Any other runner holds the test as it was given and is back at `Init`.
    pub open spec fn adds(self, test: Entity<F>, after: Self) -> bool {
        &&& after.data == self.data
        &&& after.start == self.start
        &&& after.end == self.end
        &&& after.tests@ == self.tests@.push(after.tests@.last())
        &&& if self.status == TestsRunnerStatus::Aborted {
            &&& after.status == TestsRunnerStatus::Aborted
            &&& cancelled(test, after.tests@.last())
        } else {
            &&& after.status == TestsRunnerStatus::Init
            &&& after.tests@.last() == test
        }
    }

    /// Creates a runner without tests for the given input.
    pub fn new(data: &'a T) -> (runner: Self)
        ensures
            runner.start is None,
            runner.end is None,
            runner.status == TestsRunnerStatus::Init,
            runner.tests@ == Seq::<Entity<F>>::empty(),
            runner.data == data,
    {
        TestsRunner {
            start: None,
            end: None,
            status: TestsRunnerStatus::Init,
            tests: Vec::new(),
            data,
        }
    }

    /// Replaces the input. A runner that was not stopped is back at `Init`.
    pub fn set_data(self, data: &'a T) -> (runner: Self)
        ensures
            runner.data == data,
            runner.start == self.start,
            runner.end == self.end,
            runner.tests == self.tests,
            runner.status == if self.status == TestsRunnerStatus::Aborted {
                TestsRunnerStatus::Aborted
            } else {
                TestsRunnerStatus::Init
            },
    {
        let mut runner = self;
        runner.data = data;
        runner.try_update_status(TestsRunnerStatus::Init);
        runner
    }

    /// Sets the status unless the runner was stopped: `Aborted` is kept.
    fn try_update_status(&mut self, status: TestsRunnerStatus)
        ensures
            final(self).status == if old(self).status == TestsRunnerStatus::Aborted {
                TestsRunnerStatus::Aborted
            } else {
                status
            },
            final(self).start == old(self).start,
            final(self).end == old(self).end,
            final(self).tests == old(self).tests,
            final(self).data == old(self).data,
    {
        if self.status != TestsRunnerStatus::Aborted {
            self.status = status;
        }
    }

    /// Appends a test. A runner that was stopped cancels the test at once and
    /// stays `Aborted`; any other runner is back at `Init`.
    pub fn add_test(self, test: Entity<F>) -> (runner: Self)
        ensures
            self.adds(test, runner),
    {
        let mut runner = self;
        if runner.status == TestsRunnerStatus::Aborted {
            let mut test = test;
            test.abort();
            runner.tests.push(test);
        } else {
            runner.try_update_status(TestsRunnerStatus::Init);
            runner.tests.push(test);
        }
        runner
    }

    /// Appends a group of tests, as `add_test` does.
    pub fn add_group(self, group: TestGroup<F>) -> (runner: Self)
        ensures
            self.adds(Entity::Group(group), runner),
    {
        self.add_test(Entity::Group(group))
    }

    /// Runs the tests that are pending and returns the status of the runner.
    ///
    /// A runner at `Init` goes through its states until the machine ends; any
    /// other runner is left as it is, so that no function is called twice.
    pub fn run(&mut self) -> (status: TestsRunnerStatus) where F: Fn(&T) -> Status
        requires
            old(self).status == TestsRunnerStatus::Init ==> all_accept(
                old(self).tests@,
                *old(self).data,
            ),
        ensures
            old(self).runs_to(*final(self)),
            status == final(self).status,
        decreases max_height(old(self).tests@, 0), 4nat,
    {
        if self.status == TestsRunnerStatus::Init {
            self.end = None;
            let mut fsm: StateHolder<TestsRunner<'a, T, F>> = StateHolder {
                state: RunnerPhase::Init(InitState),
            };
            let ghost before = self.tests@;
            let ghost input = *self.data;
            let ghost answers = answers_on::<T, F>(input);
            let ghost mut done: int = 0;
            loop
                invariant_except_break
                    self.data == old(self).data,
                    passed_up_to(before, answers, self.tests@, done),
                    all_accept(self.tests@, input),
                    max_height(self.tests@, 0) == max_height(before, 0),
                    match fsm.state {
                        RunnerPhase::Init(_) => done == 0,
                        RunnerPhase::Testing(_) => {
                            &&& self.start is Some
                            &&& !stopped_before(before, self.tests@, done)
                        },
                        RunnerPhase::Aborting(_) => {
                            &&& self.start is Some
                            &&& stopped_before(before, self.tests@, done)
                        },
                        RunnerPhase::Finish(_) => {
                            &&& self.start is Some
                            &&& none_pending(self.tests@)
                            &&& !stopped_before(before, self.tests@, done)
                        },
                    },
                invariant
                    before == old(self).tests@,
                    input == *old(self).data,
                    answers == answers_on::<T, F>(input),
                ensures
                    self.data == old(self).data,
                    self.start is Some,
                    self.end is Some,
                    passed_over(before, input, self.tests@),
                    self.status == if stopped_before(before, self.tests@, before.len() as int) {
                        TestsRunnerStatus::Aborted
                    } else {
                        TestsRunnerStatus::Completed
                    },
                decreases before.len() - done, rank(fsm.state),
            {
                let ghost now = self.tests@;
                let ghost phase = fsm.state;
                let ghost held = *self;
                assert(phase.ready(&held));
                let transition = State::next(fsm.state, self);
                proof {
                    assert(phase.acts(&held, self, transition));
                    match phase {
                        RunnerPhase::Init(_) => {},
                        RunnerPhase::Testing(_) => {
                            if !none_pending(now) {
                                let k = choose|k: int|
                                    runs_first(now, input, self.tests@, transition, k);
                                lemma_ran_settles(now[k], self.tests@[k], answers, fit_for(input));
                                lemma_pass_runs(before, answers, now, self.tests@, done, k);
                                lemma_ran_shape(now[k], self.tests@[k], answers);
                                lemma_step_keeps(now, self.tests@, fit_for(input), k);
                                done = k + 1;
                            }
                        },
                        RunnerPhase::Aborting(_) => {
                            if !none_pending(now) {
                                let k = choose|k: int| cancels_first(now, self.tests@, k);
                                lemma_pass_cancels(before, answers, now, self.tests@, done, k);
                                lemma_cancelled(now[k], self.tests@[k]);
                                lemma_step_keeps(now, self.tests@, fit_for(input), k);
                                done = k + 1;
                            } else {
                                lemma_pass_whole(before, answers, now, done);
                            }
                        },
                        RunnerPhase::Finish(_) => {
                            lemma_pass_whole(before, answers, now, done);
                        },
                    }
                }
                match transition {
                    Transition::Next(next) => {
                        fsm = next;
                    },
                    Transition::Complete(_) => {
                        break ;
                    },
                }
            }
        }
        self.status
    }

    /// The position of the first test that has not run yet, if there is one.
    pub fn first_pending(&self) -> (found: Option<usize>)
        ensures
            match found {
                Some(k) => first_pending(self.tests@, k as int),
                None => none_pending(self.tests@),
            },
    {
        let mut i: usize = 0;
        while i < self.tests.len()
            invariant
                i <= self.tests.len(),
                forall|j: int| 0 <= j < i ==> !pending(#[trigger] self.tests@[j]),
            decreases self.tests.len() - i,
        {
            let s = self.tests[i].status();
            if s == Status::Init {
                return Some(i);
            }
            i = i + 1;
        }
        None
    }
}

impl<'a, T, F: Clone> Clone for TestsRunner<'a, T, F> {
    /// A copy of the runner on the same input, with a copy of every test.
    fn clone(&self) -> (copy: Self)
        ensures
            copy.start == self.start,
            copy.end == self.end,
            copy.status == self.status,
            copy.data == self.data,
            copy.tests@.len() == self.tests@.len(),
            forall|i: int|
                0 <= i < self.tests@.len() ==> copied(self.tests@[i], #[trigger] copy.tests@[i]),
    {
        let mut tests: Vec<Entity<F>> = Vec::new();
        let mut i: usize = 0;
        while i < self.tests.len()
            invariant
                i <= self.tests.len(),
                tests@.len() == i,
                forall|j: int| 0 <= j < i ==> copied(self.tests@[j], #[trigger] tests@[j]),
            decreases self.tests.len() - i,
        {
            let copy = self.tests[i].duplicate();
            tests.push(copy);
            i = i + 1;
        }
        TestsRunner {
            start: self.start,
            end: self.end,
            status: self.status,
            tests,
            data: self.data,
        }
    }
}

} // verus!
