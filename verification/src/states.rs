//! The states of a runner's machine and the transitions between them.

use vstd::prelude::*;
use crate::clock::{now, Timestamp};
use crate::entity::{answers_on, cancelled, max_height, pending, ran, stops, Entity};
use crate::facts::{lemma_accepts_runnable, lemma_height_bound, lemma_ran_shape};
use crate::fsm::{PhaseOf, State, StateHolder, Transition, TransitionTo};
use crate::runner::{all_accept, TestsRunner, TestsRunnerStatus};
use crate::status::{should_abort, Status};

verus! {

/// The runner is about to start a pass.
#[derive(Clone, Copy, Debug, PartialEq, Eq, Structural)]
pub struct InitState;

/// The runner runs its tests one after the other.
#[derive(Clone, Copy, Debug, PartialEq, Eq, Structural)]
pub struct TestingState;

/// The runner cancels the tests that a critical failure left behind.
#[derive(Clone, Copy, Debug, PartialEq, Eq, Structural)]
pub struct AbortingState;

/// The runner has run every test.
#[derive(Clone, Copy, Debug, PartialEq, Eq, Structural)]
pub struct FinishState;

/// The states that a runner's machine can be in.
#[derive(Clone, Copy, Debug, PartialEq, Eq, Structural)]
pub enum RunnerPhase {
    Init(InitState),
    Testing(TestingState),
    Aborting(AbortingState),
    Finish(FinishState),
}

impl TransitionTo<TestingState> for InitState {

}

impl TransitionTo<TestingState> for TestingState {

}

impl TransitionTo<FinishState> for TestingState {

}

impl TransitionTo<AbortingState> for TestingState {

}

impl TransitionTo<AbortingState> for AbortingState {

}

impl<'a, T, F> PhaseOf<TestsRunner<'a, T, F>> for InitState {
    open spec fn phase(self) -> RunnerPhase {
        RunnerPhase::Init(self)
    }

    fn hold(self) -> (holder: StateHolder<TestsRunner<'a, T, F>>) {
        StateHolder { state: RunnerPhase::Init(self) }
    }
}

impl<'a, T, F> PhaseOf<TestsRunner<'a, T, F>> for TestingState {
    open spec fn phase(self) -> RunnerPhase {
        RunnerPhase::Testing(self)
    }

    fn hold(self) -> (holder: StateHolder<TestsRunner<'a, T, F>>) {
        StateHolder { state: RunnerPhase::Testing(self) }
    }
}

impl<'a, T, F> PhaseOf<TestsRunner<'a, T, F>> for AbortingState {
    open spec fn phase(self) -> RunnerPhase {
        RunnerPhase::Aborting(self)
    }

    fn hold(self) -> (holder: StateHolder<TestsRunner<'a, T, F>>) {
        StateHolder { state: RunnerPhase::Aborting(self) }
    }
}

impl<'a, T, F> PhaseOf<TestsRunner<'a, T, F>> for FinishState {
    open spec fn phase(self) -> RunnerPhase {
        RunnerPhase::Finish(self)
    }

    fn hold(self) -> (holder: StateHolder<TestsRunner<'a, T, F>>) {
        StateHolder { state: RunnerPhase::Finish(self) }
    }
}

/// Whether none of the tests is pending.
pub open spec fn none_pending<F>(tests: Seq<Entity<F>>) -> bool {
    forall|i: int| 0 <= i < tests.len() ==> !pending(#[trigger] tests[i])
}

/// Whether the test at position `k` is the first pending one.
pub open spec fn first_pending<F>(tests: Seq<Entity<F>>, k: int) -> bool {
    &&& 0 <= k < tests.len()
    &&& pending(tests[k])
    &&& forall|j: int| 0 <= j < k ==> !pending(#[trigger] tests[j])
}

/// Whether `transition` leads to the state `phase`.
pub open spec fn leads_to<'a, T, F>(
    transition: Transition<TestsRunner<'a, T, F>>,
    phase: RunnerPhase,
) -> bool {
    transition == Transition::<TestsRunner<'a, T, F>>::Next(StateHolder { state: phase })
}

/// Whether `transition` ends the machine without a failure.
pub open spec fn completes<'a, T, F>(transition: Transition<TestsRunner<'a, T, F>>) -> bool {
    transition == Transition::<TestsRunner<'a, T, F>>::Complete(Ok(()))
}

/// Whether `after` is `before` but for the test at position `k`.
pub open spec fn differs_at<F>(before: Seq<Entity<F>>, after: Seq<Entity<F>>, k: int) -> bool {
    &&& after.len() == before.len()
    &&& forall|j: int| 0 <= j < before.len() && j != k ==> #[trigger] after[j] == before[j]
}

/// Whether `after` is `before` with the first pending test, at position `k`,
/// run on `input`, and `transition` leads to `Aborting` if that test stops the
/// pass and back to `Testing` if it does not.
pub open spec fn runs_first<'a, T, F: Fn(&T) -> Status>(
    before: Seq<Entity<F>>,
    input: T,
    after: Seq<Entity<F>>,
    transition: Transition<TestsRunner<'a, T, F>>,
    k: int,
) -> bool {
    &&& first_pending(before, k)
    &&& differs_at(before, after, k)
    &&& ran(before[k], input, after[k])
    &&& leads_to(
        transition,
        if stops(after[k]) {
            RunnerPhase::Aborting(AbortingState)
        } else {
            RunnerPhase::Testing(TestingState)
        },
    )
}

/// Whether `after` is `before` with the first pending test, at position `k`,
/// cancelled.
pub open spec fn cancels_first<F>(before: Seq<Entity<F>>, after: Seq<Entity<F>>, k: int) -> bool {
    &&& first_pending(before, k)
    &&& differs_at(before, after, k)
    &&& cancelled(before[k], after[k])
}

/// What `Init` does when the clock reads `at`: it records `at` as the start
/// of the pass, puts the runner at `Init` and hands over to `Testing`.
pub open spec fn init_acts_at<'a, T, F>(
    before: TestsRunner<'a, T, F>,
    after: TestsRunner<'a, T, F>,
    transition: Transition<TestsRunner<'a, T, F>>,
    at: Timestamp,
) -> bool {
    &&& after == (TestsRunner { start: Some(at), status: TestsRunnerStatus::Init, ..before })
    &&& leads_to(transition, RunnerPhase::Testing(TestingState))
}

/// What `Init` does, whatever the clock reads.
pub open spec fn init_acts<'a, T, F>(
    before: TestsRunner<'a, T, F>,
    after: TestsRunner<'a, T, F>,
    transition: Transition<TestsRunner<'a, T, F>>,
) -> bool {
    &&& after.start matches Some(at)
    &&& init_acts_at(before, after, transition, at)
}

/// What `Testing` does: it runs the first pending test. A critical test that
/// ends badly hands over to `Aborting`; any other outcome comes back to
/// `Testing`. With nothing pending the state hands over to `Finish`.
pub open spec fn testing_acts<'a, T, F: Fn(&T) -> Status>(
    before: TestsRunner<'a, T, F>,
    after: TestsRunner<'a, T, F>,
    transition: Transition<TestsRunner<'a, T, F>>,
) -> bool {
    &&& after.start == before.start
    &&& after.end == before.end
    &&& after.status == TestsRunnerStatus::Testing
    &&& after.data == before.data
    &&& if none_pending(before.tests@) {
        &&& after.tests == before.tests
        &&& leads_to(transition, RunnerPhase::Finish(FinishState))
    } else {
        exists|k: int| runs_first(before.tests@, *before.data, after.tests@, transition, k)
    }
}

/// What `Aborting` does when nothing is pending and the clock reads `at`: it
/// marks the runner `Aborted`, records `at` as the end of the pass and ends
/// the machine.
pub open spec fn aborting_ends_at<'a, T, F>(
    before: TestsRunner<'a, T, F>,
    after: TestsRunner<'a, T, F>,
    transition: Transition<TestsRunner<'a, T, F>>,
    at: Timestamp,
) -> bool {
    &&& after == (TestsRunner { end: Some(at), status: TestsRunnerStatus::Aborted, ..before })
    &&& completes(transition)
}

/// What `Aborting` does, whatever the clock reads: it cancels the first
/// pending test and comes back to `Aborting`, or, with nothing pending, it
/// ends the machine.
pub open spec fn aborting_acts<'a, T, F>(
    before: TestsRunner<'a, T, F>,
    after: TestsRunner<'a, T, F>,
    transition: Transition<TestsRunner<'a, T, F>>,
) -> bool {
    if none_pending(before.tests@) {
        &&& after.end matches Some(at)
        &&& aborting_ends_at(before, after, transition, at)
    } else {
        &&& after.start == before.start
        &&& after.end == before.end
        &&& after.status == TestsRunnerStatus::Aborted
        &&& after.data == before.data
        &&& leads_to(transition, RunnerPhase::Aborting(AbortingState))
        &&& exists|k: int| cancels_first(before.tests@, after.tests@, k)
    }
}

/// What `Finish` does when the clock reads `at`: it records `at` as the end
/// of the pass, marks the runner `Completed` and ends the machine.
pub open spec fn finish_acts_at<'a, T, F>(
    before: TestsRunner<'a, T, F>,
    after: TestsRunner<'a, T, F>,
    transition: Transition<TestsRunner<'a, T, F>>,
    at: Timestamp,
) -> bool {
    &&& after == (TestsRunner { end: Some(at), status: TestsRunnerStatus::Completed, ..before })
    &&& completes(transition)
}

/// What `Finish` does, whatever the clock reads.
pub open spec fn finish_acts<'a, T, F>(
    before: TestsRunner<'a, T, F>,
    after: TestsRunner<'a, T, F>,
    transition: Transition<TestsRunner<'a, T, F>>,
) -> bool {
    &&& after.end matches Some(at)
    &&& finish_acts_at(before, after, transition, at)
}

/// What the machine needs of the runner before it can act in `phase`: in
/// `Testing`, that every test accepts the input.
pub open spec fn phase_ready<'a, T, F: Fn(&T) -> Status>(
    phase: RunnerPhase,
    runner: TestsRunner<'a, T, F>,
) -> bool {
    phase is Testing ==> all_accept(runner.tests@, *runner.data)
}

/// What the machine does in `phase`.
pub open spec fn phase_acts<'a, T, F: Fn(&T) -> Status>(
    phase: RunnerPhase,
    before: TestsRunner<'a, T, F>,
    after: TestsRunner<'a, T, F>,
    transition: Transition<TestsRunner<'a, T, F>>,
) -> bool {
    match phase {
        RunnerPhase::Init(_) => init_acts(before, after, transition),
        RunnerPhase::Testing(_) => testing_acts(before, after, transition),
        RunnerPhase::Aborting(_) => aborting_acts(before, after, transition),
        RunnerPhase::Finish(_) => finish_acts(before, after, transition),
    }
}

impl InitState {
    /// Records `at` as the start of the pass, puts the runner at `Init` and
    /// hands over to `Testing`.
    pub fn next_at<'a, T, F>(
        self,
        runner: &mut TestsRunner<'a, T, F>,
        at: Timestamp,
    ) -> (transition: Transition<TestsRunner<'a, T, F>>)
        ensures
            init_acts_at(*old(runner), *final(runner), transition, at),
    {
        runner.start = Some(at);
        runner.status = TestsRunnerStatus::Init;
        Transition::next(self, TestingState)
    }

    /// Reads the clock and acts as `next_at` does at the instant read.
    pub fn next<'a, T, F>(self, runner: &mut TestsRunner<'a, T, F>) -> (transition: Transition<
        TestsRunner<'a, T, F>,
    >)
        ensures
            init_acts(*old(runner), *final(runner), transition),
    {
        self.next_at(runner, now())
    }
}

impl TestingState {
    /// Runs the first pending test and decides what follows.
    pub fn next<'a, T, F: Fn(&T) -> Status>(
        self,
        runner: &mut TestsRunner<'a, T, F>,
    ) -> (transition: Transition<TestsRunner<'a, T, F>>)
        requires
            all_accept(old(runner).tests@, *old(runner).data),
        ensures
            testing_acts(*old(runner), *final(runner), transition),
        decreases max_height(old(runner).tests@, 0), 1nat,
    {
        runner.status = TestsRunnerStatus::Testing;
        match runner.first_pending() {
            Some(k) => {
                let ghost before = runner.tests@;
                let data = runner.data;
                let criticality = runner.tests[k].criticality();
                proof {
                    lemma_height_bound(before, 0, k as int);
                    lemma_accepts_runnable(before[k as int], *data);
                }
                let status = runner.tests[k].run(data);
                proof {
                    lemma_ran_shape(before[k as int], runner.tests@[k as int], answers_on(*data));
                }
                let transition = if should_abort(criticality, status) {
                    Transition::next(self, AbortingState)
                } else {
                    Transition::next(self, TestingState)
                };
                proof {
                    assert(runs_first(before, *data, runner.tests@, transition, k as int));
                }
                transition
            },
            None => Transition::next(self, FinishState),
        }
    }
}

impl AbortingState {
    /// Marks the runner `Aborted`, records `at` as the end of the pass and
    /// ends the machine.
    pub fn end_at<'a, T, F>(
        self,
        runner: &mut TestsRunner<'a, T, F>,
        at: Timestamp,
    ) -> (transition: Transition<TestsRunner<'a, T, F>>)
        ensures
            aborting_ends_at(*old(runner), *final(runner), transition, at),
    {
        runner.status = TestsRunnerStatus::Aborted;
        runner.end = Some(at);
        Transition::Complete(Ok(()))
    }

    /// Cancels the first pending test. With nothing pending it reads the
    /// clock and acts as `end_at` does at the instant read.
    pub fn next<'a, T, F>(self, runner: &mut TestsRunner<'a, T, F>) -> (transition: Transition<
        TestsRunner<'a, T, F>,
    >)
        ensures
            aborting_acts(*old(runner), *final(runner), transition),
    {
        match runner.first_pending() {
            Some(k) => {
                let ghost before = runner.tests@;
                runner.status = TestsRunnerStatus::Aborted;
                runner.tests[k].abort();
                proof {
                    assert(cancels_first(before, runner.tests@, k as int));
                }
                Transition::next(self, AbortingState)
            },
            None => self.end_at(runner, now()),
        }
    }
}

impl FinishState {
    /// Records `at` as the end of the pass, marks the runner `Completed` and
    /// ends the machine.
    pub fn next_at<'a, T, F>(
        self,
        runner: &mut TestsRunner<'a, T, F>,
        at: Timestamp,
    ) -> (transition: Transition<TestsRunner<'a, T, F>>)
        ensures
            finish_acts_at(*old(runner), *final(runner), transition, at),
    {
        runner.end = Some(at);
        runner.status = TestsRunnerStatus::Completed;
        Transition::Complete(Ok(()))
    }

    /// Reads the clock and acts as `next_at` does at the instant read.
    pub fn next<'a, T, F>(self, runner: &mut TestsRunner<'a, T, F>) -> (transition: Transition<
        TestsRunner<'a, T, F>,
    >)
        ensures
            finish_acts(*old(runner), *final(runner), transition),
    {
        self.next_at(runner, now())
    }
}

impl RunnerPhase {
    /// Acts as the state that the machine is in.
    pub fn next<'a, T, F: Fn(&T) -> Status>(
        self,
        runner: &mut TestsRunner<'a, T, F>,
    ) -> (transition: Transition<TestsRunner<'a, T, F>>)
        requires
            phase_ready(self, *old(runner)),
        ensures
            phase_acts(self, *old(runner), *final(runner), transition),
        decreases max_height(old(runner).tests@, 0), 2nat,
    {
        match self {
            RunnerPhase::Init(s) => s.next(runner),
            RunnerPhase::Testing(s) => s.next(runner),
            RunnerPhase::Aborting(s) => s.next(runner),
            RunnerPhase::Finish(s) => s.next(runner),
        }
    }
}

impl<'a, T, F> State<TestsRunner<'a, T, F>> for InitState {
    open spec fn ready(&self, runner: &TestsRunner<'a, T, F>) -> bool {
        true
    }

    open spec fn acts(
        &self,
        before: &TestsRunner<'a, T, F>,
        after: &TestsRunner<'a, T, F>,
        transition: Transition<TestsRunner<'a, T, F>>,
    ) -> bool {
        init_acts(*before, *after, transition)
    }

    fn next(self, runner: &mut TestsRunner<'a, T, F>) -> (transition: Transition<
        TestsRunner<'a, T, F>,
    >) {
        InitState::next(self, runner)
    }
}

impl<'a, T, F: Fn(&T) -> Status> State<TestsRunner<'a, T, F>> for TestingState {
    open spec fn ready(&self, runner: &TestsRunner<'a, T, F>) -> bool {
        all_accept(runner.tests@, *runner.data)
    }

    open spec fn acts(
        &self,
        before: &TestsRunner<'a, T, F>,
        after: &TestsRunner<'a, T, F>,
        transition: Transition<TestsRunner<'a, T, F>>,
    ) -> bool {
        testing_acts(*before, *after, transition)
    }

    fn next(self, runner: &mut TestsRunner<'a, T, F>) -> (transition: Transition<
        TestsRunner<'a, T, F>,
    >)
        decreases max_height(old(runner).tests@, 0), 3nat,
    {
        TestingState::next(self, runner)
    }
}

impl<'a, T, F> State<TestsRunner<'a, T, F>> for AbortingState {
    open spec fn ready(&self, runner: &TestsRunner<'a, T, F>) -> bool {
        true
    }

    open spec fn acts(
        &self,
        before: &TestsRunner<'a, T, F>,
        after: &TestsRunner<'a, T, F>,
        transition: Transition<TestsRunner<'a, T, F>>,
    ) -> bool {
        aborting_acts(*before, *after, transition)
    }

    fn next(self, runner: &mut TestsRunner<'a, T, F>) -> (transition: Transition<
        TestsRunner<'a, T, F>,
    >) {
        AbortingState::next(self, runner)
    }
}

impl<'a, T, F> State<TestsRunner<'a, T, F>> for FinishState {
    open spec fn ready(&self, runner: &TestsRunner<'a, T, F>) -> bool {
        true
    }

    open spec fn acts(
        &self,
        before: &TestsRunner<'a, T, F>,
        after: &TestsRunner<'a, T, F>,
        transition: Transition<TestsRunner<'a, T, F>>,
    ) -> bool {
        finish_acts(*before, *after, transition)
    }

    fn next(self, runner: &mut TestsRunner<'a, T, F>) -> (transition: Transition<
        TestsRunner<'a, T, F>,
    >) {
        FinishState::next(self, runner)
    }
}

impl<'a, T, F: Fn(&T) -> Status> State<TestsRunner<'a, T, F>> for RunnerPhase {
    open spec fn ready(&self, runner: &TestsRunner<'a, T, F>) -> bool {
        phase_ready(*self, *runner)
    }

    open spec fn acts(
        &self,
        before: &TestsRunner<'a, T, F>,
        after: &TestsRunner<'a, T, F>,
        transition: Transition<TestsRunner<'a, T, F>>,
    ) -> bool {
        phase_acts(*self, *before, *after, transition)
    }

    fn next(self, runner: &mut TestsRunner<'a, T, F>) -> (transition: Transition<
        TestsRunner<'a, T, F>,
    >)
        decreases max_height(old(runner).tests@, 0), 3nat,
    {
        RunnerPhase::next(self, runner)
    }
}

} // verus!
