//! What holds of every pass: the laws that follow from the contracts of the
//! runner and of the tests.

use vstd::prelude::*;
use crate::entity::{
    answers_on, cancelled, every_pending, fit_for, passed_by, pending, ran, ran_by, status_of,
    statuses, stopped_before, stops, Entity, TestGroup,
};
use crate::facts::{lemma_cancelled, lemma_pass_settles, lemma_pending_child, lemma_stopped_later};
use crate::report::{records, records_of, reported, reports, RunResult, TestResult};
use crate::runner::{all_accept, TestsRunner, TestsRunnerStatus};
use crate::fsm::Transition;
use crate::states::{none_pending, phase_acts, RunnerPhase};
use crate::status::{aggregate, all_passed, Status};

verus! {

/// Whether a transition from `from` to `to` has been declared for the
/// runner's machine.
pub open spec fn declared(from: RunnerPhase, to: RunnerPhase) -> bool {
    match (from, to) {
        (RunnerPhase::Init(_), RunnerPhase::Testing(_)) => true,
        (RunnerPhase::Testing(_), RunnerPhase::Testing(_)) => true,
        (RunnerPhase::Testing(_), RunnerPhase::Finish(_)) => true,
        (RunnerPhase::Testing(_), RunnerPhase::Aborting(_)) => true,
        (RunnerPhase::Aborting(_), RunnerPhase::Aborting(_)) => true,
        _ => false,
    }
}

/// The machine of a runner only takes transitions that have been declared,
/// and it only ends, always without a failure, in `Finish` or in `Aborting`.
pub proof fn law_declared_transitions<'a, T, F: Fn(&T) -> Status>(
    phase: RunnerPhase,
    before: TestsRunner<'a, T, F>,
    after: TestsRunner<'a, T, F>,
    transition: Transition<TestsRunner<'a, T, F>>,
)
    requires
        phase_acts(phase, before, after, transition),
    ensures
        match transition {
            Transition::Next(holder) => declared(phase, holder.state),
            Transition::Complete(result) => {
                &&& result is Ok
                &&& phase is Finish || phase is Aborting
            },
        },
{
}

/// A group has passed exactly when every child has passed.
pub proof fn law_group_passed<F>(group: TestGroup<F>)
    ensures
        status_of(Entity::Group(group)) == Status::Passed <==> forall|i: int|
            0 <= i < group.tests@.len() ==> status_of(#[trigger] group.tests@[i])
                == Status::Passed,
{
    let found = statuses(group.tests@);
    if status_of(Entity::Group(group)) == Status::Passed {
        assert forall|i: int| 0 <= i < group.tests@.len() implies status_of(
            #[trigger] group.tests@[i],
        ) == Status::Passed by {
            assert(found[i] == Status::Passed);
        }
    }
    if forall|i: int|
        0 <= i < group.tests@.len() ==> status_of(#[trigger] group.tests@[i]) == Status::Passed {
        assert forall|i: int| 0 <= i < found.len() implies found[i] == Status::Passed by {
            assert(status_of(group.tests@[i]) == Status::Passed);
        }
        assert(all_passed(found));
        if found.contains(Status::Init) {
            let i = choose|i: int| 0 <= i < found.len() && found[i] == Status::Init;
            assert(found[i] == Status::Passed);
        }
    }
}

/// A group is at `Init` exactly when at least one child has not run, whatever
/// the statuses of the other children.
pub proof fn law_group_pending<F>(group: TestGroup<F>)
    ensures
        status_of(Entity::Group(group)) == Status::Init <==> exists|i: int|
            0 <= i < group.tests@.len() && status_of(#[trigger] group.tests@[i]) == Status::Init,
{
    lemma_pending_child(group.tests@);
    if statuses(group.tests@).contains(Status::Init) {
        let i = choose|i: int| 0 <= i < group.tests@.len() && pending(#[trigger] group.tests@[i]);
        assert(status_of(group.tests@[i]) == Status::Init);
    }
    if exists|i: int|
        0 <= i < group.tests@.len() && status_of(#[trigger] group.tests@[i]) == Status::Init {
        let i = choose|i: int|
            0 <= i < group.tests@.len() && status_of(#[trigger] group.tests@[i]) == Status::Init;
        assert(pending(group.tests@[i]));
    }
}

/// Whether nothing in `test`, at any depth, is marked `Aborted`.
pub open spec fn clean<F>(test: Entity<F>) -> bool
    decreases test,
{
    match test {
        Entity::Single(t) => t.status != Status::Aborted,
        Entity::Group(g) => forall|i: int|
            0 <= i < g.tests@.len() ==> clean(#[trigger] g.tests@[i]),
    }
}

/// Whether no critical test in `test`, at any depth, has failed or was
/// cancelled.
pub open spec fn calm<F>(test: Entity<F>) -> bool
    decreases test,
{
    &&& !stops(test)
    &&& match test {
        Entity::Single(_) => true,
        Entity::Group(g) => forall|i: int| 0 <= i < g.tests@.len() ==> calm(#[trigger] g.tests@[i]),
    }
}

/// Whether no function that `holds` is true of answers `Aborted`.
pub open spec fn never_aborted<F>(
    holds: spec_fn(F) -> bool,
    answers: spec_fn(F, Status) -> bool,
) -> bool {
    forall|cb: F, s: Status| holds(cb) && #[trigger] answers(cb, s) ==> s != Status::Aborted
}

/// A test in which nothing is marked `Aborted` is not `Aborted` itself.
pub proof fn law_clean_status<F>(test: Entity<F>)
    requires
        clean(test),
    ensures
        status_of(test) != Status::Aborted,
    decreases test,
{
    match test {
        Entity::Single(_) => {},
        Entity::Group(g) => {
            let found = statuses(g.tests@);
            if found.contains(Status::Aborted) {
                let i = choose|i: int| 0 <= i < found.len() && found[i] == Status::Aborted;
                law_clean_status(g.tests@[i]);
            }
        },
    }
}

/// Running a pending test in which nothing was marked `Aborted`, with
/// functions that never answer `Aborted`, marks nothing `Aborted` unless a
/// critical test in it ends badly.
pub proof fn law_ran_clean<F>(
    before: Entity<F>,
    after: Entity<F>,
    answers: spec_fn(F, Status) -> bool,
    holds: spec_fn(F) -> bool,
)
    requires
        ran_by(before, after, answers),
        pending(before),
        clean(before),
        every_pending(before, holds),
        never_aborted(holds, answers),
        calm(after),
    ensures
        clean(after),
    decreases before, 0nat,
{
    match before {
        Entity::Single(_) => {},
        Entity::Group(g) => {
            let h = after->Group_0;
            law_pass_clean(g.tests@, h.tests@, answers, holds);
        },
    }
}

/// A pass over tests in which nothing was marked `Aborted`, whose pending
/// checks have functions that never answer `Aborted`, marks nothing `Aborted`
/// unless a critical test ends badly.
pub proof fn law_pass_clean<F>(
    before: Seq<Entity<F>>,
    after: Seq<Entity<F>>,
    answers: spec_fn(F, Status) -> bool,
    holds: spec_fn(F) -> bool,
)
    requires
        passed_by(before, after, answers),
        forall|i: int| 0 <= i < before.len() ==> clean(#[trigger] before[i]),
        forall|i: int| 0 <= i < before.len() ==> every_pending(#[trigger] before[i], holds),
        never_aborted(holds, answers),
        forall|i: int| 0 <= i < after.len() ==> calm(#[trigger] after[i]),
    ensures
        forall|i: int| 0 <= i < after.len() ==> clean(#[trigger] after[i]),
        !stopped_before(before, after, before.len() as int),
    decreases before, 1nat,
{
    assert forall|i: int| 0 <= i <= before.len() implies !stopped_before(before, after, i) by {
        if stopped_before(before, after, i) {
            let j = choose|j: int| 0 <= j < i && pending(#[trigger] before[j]) && stops(after[j]);
            assert(calm(after[j]));
        }
    }
    assert forall|i: int| 0 <= i < after.len() implies clean(#[trigger] after[i]) by {
        assert(!stopped_before(before, after, i));
        if pending(before[i]) {
            law_ran_clean(before[i], after[i], answers, holds);
        }
    }
}

/// A pass in which no critical test fails ends `Completed`, and runs every
/// test that was pending.
pub proof fn law_no_critical_failure<'a, T, F: Fn(&T) -> Status>(
    runner: TestsRunner<'a, T, F>,
    after: TestsRunner<'a, T, F>,
)
    requires
        runner.status == TestsRunnerStatus::Init,
        runner.runs_to(after),
        forall|i: int| 0 <= i < after.tests@.len() ==> !stops(#[trigger] after.tests@[i]),
    ensures
        after.status == TestsRunnerStatus::Completed,
        forall|i: int|
            0 <= i < runner.tests@.len() && pending(runner.tests@[i]) ==> ran(
                runner.tests@[i],
                *runner.data,
                #[trigger] after.tests@[i],
            ),
{
    let before = runner.tests@;
    assert forall|i: int| 0 <= i <= before.len() implies !stopped_before(
        before,
        after.tests@,
        i,
    ) by {
        if stopped_before(before, after.tests@, i) {
            let j = choose|j: int|
                0 <= j < i && pending(#[trigger] before[j]) && stops(after.tests@[j]);
            assert(!stops(after.tests@[j]));
        }
    }
    assert forall|i: int| 0 <= i < before.len() && pending(before[i]) implies ran(
        before[i],
        *runner.data,
        #[trigger] after.tests@[i],
    ) by {
        assert(!stopped_before(before, after.tests@, i));
    }
}

/// A pass in which no critical test fails, at any depth, marks nothing
/// `Aborted`, provided that nothing was marked `Aborted` before the pass and
/// that no function of a check that has not run yet answers `Aborted`: after
/// it no test, at any depth, has the status `Aborted`.
pub proof fn law_nothing_aborted<'a, T, F: Fn(&T) -> Status>(
    runner: TestsRunner<'a, T, F>,
    after: TestsRunner<'a, T, F>,
    holds: spec_fn(F) -> bool,
)
    requires
        runner.status == TestsRunnerStatus::Init,
        runner.runs_to(after),
        forall|i: int| 0 <= i < after.tests@.len() ==> calm(#[trigger] after.tests@[i]),
        forall|i: int| 0 <= i < runner.tests@.len() ==> clean(#[trigger] runner.tests@[i]),
        forall|i: int|
            0 <= i < runner.tests@.len() ==> every_pending(#[trigger] runner.tests@[i], holds),
        never_aborted(holds, answers_on::<T, F>(*runner.data)),
    ensures
        after.status == TestsRunnerStatus::Completed,
        forall|i: int| 0 <= i < after.tests@.len() ==> clean(#[trigger] after.tests@[i]),
        forall|i: int|
            0 <= i < after.tests@.len() ==> status_of(#[trigger] after.tests@[i])
                != Status::Aborted,
{
    law_pass_clean(runner.tests@, after.tests@, answers_on::<T, F>(*runner.data), holds);
    assert forall|i: int| 0 <= i < after.tests@.len() implies status_of(
        #[trigger] after.tests@[i],
    ) != Status::Aborted by {
        law_clean_status(after.tests@[i]);
    }
}

/// When the critical test at position `i` is run and fails, the runner ends
/// `Aborted`. The tests in front of `i` are left as their own run left them;
/// every pending test behind `i` is cancelled and ends `Aborted`, and no
/// other test behind `i` is touched.
pub proof fn law_critical_failure<'a, T, F: Fn(&T) -> Status>(
    runner: TestsRunner<'a, T, F>,
    after: TestsRunner<'a, T, F>,
    i: int,
)
    requires
        runner.status == TestsRunnerStatus::Init,
        runner.runs_to(after),
        0 <= i < runner.tests@.len(),
        pending(runner.tests@[i]),
        !stopped_before(runner.tests@, after.tests@, i),
        stops(after.tests@[i]),
    ensures
        after.status == TestsRunnerStatus::Aborted,
        ran(runner.tests@[i], *runner.data, after.tests@[i]),
        forall|j: int|
            0 <= j < i ==> if pending(runner.tests@[j]) {
                ran(runner.tests@[j], *runner.data, #[trigger] after.tests@[j])
            } else {
                after.tests@[j] == runner.tests@[j]
            },
        forall|j: int|
            i < j < runner.tests@.len() ==> if pending(runner.tests@[j]) {
                &&& cancelled(runner.tests@[j], #[trigger] after.tests@[j])
                &&& status_of(after.tests@[j]) == Status::Aborted
            } else {
                after.tests@[j] == runner.tests@[j]
            },
{
    let before = runner.tests@;
    assert(0 <= i < i + 1 && pending(before[i]) && stops(after.tests@[i]));
    assert(stopped_before(before, after.tests@, i + 1));
    lemma_stopped_later(before, after.tests@, i + 1, before.len() as int);
    assert forall|j: int| 0 <= j < i implies if pending(before[j]) {
        ran(before[j], *runner.data, #[trigger] after.tests@[j])
    } else {
        after.tests@[j] == before[j]
    } by {
        if stopped_before(before, after.tests@, j) {
            lemma_stopped_later(before, after.tests@, j, i);
        }
    }
    assert forall|j: int| i < j < before.len() implies if pending(before[j]) {
        &&& cancelled(before[j], #[trigger] after.tests@[j])
        &&& status_of(after.tests@[j]) == Status::Aborted
    } else {
        after.tests@[j] == before[j]
    } by {
        lemma_stopped_later(before, after.tests@, i + 1, j);
        if pending(before[j]) {
            lemma_cancelled(before[j], after.tests@[j]);
        }
    }
}

/// Running a runner that is `Completed` or `Aborted` changes nothing: no
/// status, no timestamp and no test, so that no function is called again, and
/// the status that comes back is the one that the runner had.
pub proof fn law_run_again<'a, T, F: Fn(&T) -> Status>(
    runner: TestsRunner<'a, T, F>,
    after: TestsRunner<'a, T, F>,
)
    requires
        runner.status == TestsRunnerStatus::Completed || runner.status
            == TestsRunnerStatus::Aborted,
        runner.runs_to(after),
    ensures
        after == runner,
{
}

/// A run ends `Completed` or `Aborted`, and a second run right after it
/// changes nothing.
pub proof fn law_run_twice<'a, T, F: Fn(&T) -> Status>(
    runner: TestsRunner<'a, T, F>,
    once: TestsRunner<'a, T, F>,
    twice: TestsRunner<'a, T, F>,
)
    requires
        runner.status == TestsRunnerStatus::Init,
        runner.runs_to(once),
        once.runs_to(twice),
    ensures
        once.status == TestsRunnerStatus::Completed || once.status == TestsRunnerStatus::Aborted,
        twice == once,
{
}

/// Appending a test to a runner that a run has left `Completed` puts the
/// runner back at `Init`. The next run leaves the tests of the first run as
/// they are and runs the new test, if it is pending.
pub proof fn law_resume<'a, T, F: Fn(&T) -> Status>(
    runner: TestsRunner<'a, T, F>,
    completed: TestsRunner<'a, T, F>,
    test: Entity<F>,
    resumed: TestsRunner<'a, T, F>,
    after: TestsRunner<'a, T, F>,
)
    requires
        runner.status == TestsRunnerStatus::Init,
        all_accept(runner.tests@, *runner.data),
        runner.runs_to(completed),
        completed.status == TestsRunnerStatus::Completed,
        completed.adds(test, resumed),
        resumed.runs_to(after),
    ensures
        resumed.status == TestsRunnerStatus::Init,
        after.tests@.len() == completed.tests@.len() + 1,
        forall|i: int|
            0 <= i < completed.tests@.len() ==> #[trigger] after.tests@[i] == completed.tests@[i],
        if pending(test) {
            ran(test, *runner.data, after.tests@.last())
        } else {
            after.tests@.last() == test
        },
{
    law_run_settles(runner, completed);
    let n = completed.tests@.len() as int;
    assert(resumed.tests@[n] == test);
    assert forall|i: int| 0 <= i < n implies #[trigger] after.tests@[i] == completed.tests@[i] by {
        assert(resumed.tests@[i] == completed.tests@[i]);
        assert(!pending(resumed.tests@[i]));
    }
    if pending(test) {
        if stopped_before(resumed.tests@, after.tests@, n) {
            let j = choose|j: int|
                0 <= j < n && pending(#[trigger] resumed.tests@[j]) && stops(after.tests@[j]);
            assert(resumed.tests@[j] == completed.tests@[j]);
        }
    }
}

/// A run leaves no test pending, so that the tests of a runner that a run has
/// left `Completed` or `Aborted` are all settled.
pub proof fn law_run_settles<'a, T, F: Fn(&T) -> Status>(
    runner: TestsRunner<'a, T, F>,
    after: TestsRunner<'a, T, F>,
)
    requires
        runner.status == TestsRunnerStatus::Init,
        all_accept(runner.tests@, *runner.data),
        runner.runs_to(after),
    ensures
        none_pending(after.tests@),
{
    lemma_pass_settles(
        runner.tests@,
        after.tests@,
        answers_on::<T, F>(*runner.data),
        fit_for::<T, F>(*runner.data),
    );
}

/// Appending a test to a runner that is `Aborted` cancels the test at once:
/// the runner stays `Aborted`, the test ends `Aborted` if it was pending, and
/// the next run changes nothing, so that the function of the test is never
/// called.
pub proof fn law_aborted_is_kept<'a, T, F: Fn(&T) -> Status>(
    runner: TestsRunner<'a, T, F>,
    test: Entity<F>,
    resumed: TestsRunner<'a, T, F>,
    after: TestsRunner<'a, T, F>,
)
    requires
        runner.status == TestsRunnerStatus::Aborted,
        runner.adds(test, resumed),
        resumed.runs_to(after),
    ensures
        resumed.status == TestsRunnerStatus::Aborted,
        cancelled(test, resumed.tests@.last()),
        pending(test) ==> status_of(resumed.tests@.last()) == Status::Aborted,
        after == resumed,
{
    lemma_cancelled(test, resumed.tests@.last());
}

/// The statuses of two lists of records put together are the statuses of the
/// first list followed by those of the second.
proof fn lemma_reported_concat(first: Seq<TestResult>, second: Seq<TestResult>)
    ensures
        reported(first + second) == reported(first) + reported(second),
{
    assert(reported(first + second) =~= reported(first) + reported(second));
}

/// A list put together from two holds a status exactly if one of the two
/// does, and has passed exactly if both have.
proof fn lemma_concat_statuses(first: Seq<Status>, second: Seq<Status>)
    ensures
        forall|s: Status|
            (first + second).contains(s) <==> first.contains(s) || second.contains(s),
        all_passed(first + second) <==> all_passed(first) && all_passed(second),
{
    let both = first + second;
    assert forall|s: Status| both.contains(s) <==> first.contains(s) || second.contains(
        s,
    ) by {
        if both.contains(s) {
            let i = choose|i: int| 0 <= i < both.len() && both[i] == s;
            if i < first.len() {
                assert(first[i] == s);
            } else {
                assert(second[i - first.len()] == s);
            }
        }
        if first.contains(s) {
            let i = choose|i: int| 0 <= i < first.len() && first[i] == s;
            assert(both[i] == s);
        }
        if second.contains(s) {
            let i = choose|i: int| 0 <= i < second.len() && second[i] == s;
            assert(both[first.len() + i] == s);
        }
    }
    if all_passed(both) {
        assert forall|i: int| 0 <= i < first.len() implies first[i] == Status::Passed by {
            assert(both[i] == first[i]);
        }
        assert forall|i: int| 0 <= i < second.len() implies second[i] == Status::Passed by {
            assert(both[first.len() + i] == second[i]);
        }
    }
}

/// What the records of a test say of it: one of them is at `Init` exactly if
/// the test is pending, all of them have passed exactly if the test has, and
/// in a settled test one of them is `Aborted` exactly if the test is.
proof fn lemma_records_status<F>(test: Entity<F>)
    ensures
        reported(records(test)).contains(Status::Init) <==> pending(test),
        all_passed(reported(records(test))) <==> status_of(test) == Status::Passed,
        !pending(test) ==> (reported(records(test)).contains(Status::Aborted) <==> status_of(test)
            == Status::Aborted),
        test is Group ==> aggregate(reported(records(test))) == status_of(test),
    decreases test, 0nat,
{
    let found = reported(records(test));
    match test {
        Entity::Single(t) => {
            assert(found =~= seq![t.status]);
            assert(found[0] == t.status);
            if found.contains(Status::Init) {
                let i = choose|i: int| 0 <= i < found.len() && found[i] == Status::Init;
            }
            if found.contains(Status::Aborted) {
                let i = choose|i: int| 0 <= i < found.len() && found[i] == Status::Aborted;
            }
        },
        Entity::Group(g) => {
            let tests = g.tests@;
            let own = statuses(tests);
            lemma_records_statuses(tests, tests.len() as int);
            lemma_pending_child(tests);
            if own.contains(Status::Aborted) {
                let i = choose|i: int| 0 <= i < own.len() && own[i] == Status::Aborted;
                assert(status_of(tests[i]) == Status::Aborted);
            }
            if exists|i: int|
                0 <= i < tests.len() && status_of(#[trigger] tests[i]) == Status::Aborted {
                let i = choose|i: int|
                    0 <= i < tests.len() && status_of(#[trigger] tests[i]) == Status::Aborted;
                assert(own[i] == Status::Aborted);
            }
            if all_passed(own) {
                assert forall|i: int| 0 <= i < tests.len() implies status_of(#[trigger] tests[i])
                    == Status::Passed by {
                    assert(own[i] == Status::Passed);
                }
                if own.contains(Status::Init) {
                    let i = choose|i: int| 0 <= i < own.len() && own[i] == Status::Init;
                    assert(own[i] == Status::Passed);
                }
            }
            if forall|i: int|
                0 <= i < tests.len() ==> status_of(#[trigger] tests[i]) == Status::Passed {
                assert forall|i: int| 0 <= i < own.len() implies own[i] == Status::Passed by {
                    assert(status_of(tests[i]) == Status::Passed);
                }
            }
            if !own.contains(Status::Init) {
                assert forall|i: int| 0 <= i < tests.len() implies !pending(
                    #[trigger] tests[i],
                ) by {}
            }
            if own.contains(Status::Aborted) && all_passed(own) {
                let i = choose|i: int| 0 <= i < own.len() && own[i] == Status::Aborted;
                assert(own[i] == Status::Passed);
            }
        },
    }
}

/// What the records of the first `upto` tests say of them.
proof fn lemma_records_statuses<F>(tests: Seq<Entity<F>>, upto: int)
    requires
        0 <= upto <= tests.len(),
    ensures
        reported(records_of(tests, upto)).contains(Status::Init) <==> exists|i: int|
            0 <= i < upto && pending(#[trigger] tests[i]),
        all_passed(reported(records_of(tests, upto))) <==> forall|i: int|
            0 <= i < upto ==> status_of(#[trigger] tests[i]) == Status::Passed,
        (forall|i: int| 0 <= i < upto ==> !pending(#[trigger] tests[i])) ==> (reported(
            records_of(tests, upto),
        ).contains(Status::Aborted) <==> exists|i: int|
            0 <= i < upto && status_of(#[trigger] tests[i]) == Status::Aborted),
    decreases tests, upto,
{
    let found = reported(records_of(tests, upto));
    if upto == 0 {
        assert(found =~= Seq::<Status>::empty());
        if found.contains(Status::Init) {
            let i = choose|i: int| 0 <= i < found.len() && found[i] == Status::Init;
        }
        if found.contains(Status::Aborted) {
            let i = choose|i: int| 0 <= i < found.len() && found[i] == Status::Aborted;
        }
    } else {
        let last = tests[upto - 1];
        let front = reported(records_of(tests, upto - 1));
        let back = reported(records(last));
        lemma_records_statuses(tests, upto - 1);
        lemma_records_status(last);
        lemma_reported_concat(records_of(tests, upto - 1), records(last));
        lemma_concat_statuses(front, back);
        assert(found == front + back);
        if exists|i: int| 0 <= i < upto - 1 && pending(#[trigger] tests[i]) {
            let i = choose|i: int| 0 <= i < upto - 1 && pending(#[trigger] tests[i]);
            assert(0 <= i < upto && pending(tests[i]));
        }
        if pending(last) {
            assert(0 <= upto - 1 < upto && pending(tests[upto - 1]));
        }
        if exists|i: int| 0 <= i < upto && pending(#[trigger] tests[i]) {
            let i = choose|i: int| 0 <= i < upto && pending(#[trigger] tests[i]);
            if i < upto - 1 {
                assert(0 <= i < upto - 1 && pending(tests[i]));
            }
        }
        if forall|i: int| 0 <= i < upto ==> status_of(#[trigger] tests[i]) == Status::Passed {
            assert(status_of(tests[upto - 1]) == Status::Passed);
            assert forall|i: int| 0 <= i < upto - 1 implies status_of(#[trigger] tests[i])
                == Status::Passed by {}
        }
        if all_passed(front) && all_passed(back) {
            assert forall|i: int| 0 <= i < upto implies status_of(#[trigger] tests[i])
                == Status::Passed by {
                if i < upto - 1 {
                    assert(0 <= i < upto - 1);
                }
            }
        }
        if forall|i: int| 0 <= i < upto ==> !pending(#[trigger] tests[i]) {
            assert(!pending(tests[upto - 1]));
            assert forall|i: int| 0 <= i < upto - 1 implies !pending(#[trigger] tests[i]) by {}
            if exists|i: int|
                0 <= i < upto - 1 && status_of(#[trigger] tests[i]) == Status::Aborted {
                let i = choose|i: int|
                    0 <= i < upto - 1 && status_of(#[trigger] tests[i]) == Status::Aborted;
                assert(0 <= i < upto && status_of(tests[i]) == Status::Aborted);
            }
            if status_of(last) == Status::Aborted {
                assert(0 <= upto - 1 < upto && status_of(tests[upto - 1]) == Status::Aborted);
            }
            if exists|i: int| 0 <= i < upto && status_of(#[trigger] tests[i]) == Status::Aborted {
                let i = choose|i: int|
                    0 <= i < upto && status_of(#[trigger] tests[i]) == Status::Aborted;
                if i < upto - 1 {
                    assert(0 <= i < upto - 1 && status_of(tests[i]) == Status::Aborted);
                }
            }
        }
    }
}

/// What is reported of a test stands for the status of the test: the status
/// in the record of a single check is its status, and the aggregate of the
/// statuses in the records of a group is the status of the group, however
/// deep the group is nested.
pub proof fn law_result_status<F>(result: RunResult, test: Entity<F>)
    requires
        reports(result, test),
    ensures
        match result {
            RunResult::TestResult(r) => r.status == status_of(test),
            RunResult::GroupResult(rs) => aggregate(reported(rs@)) == status_of(test),
        },
{
    lemma_records_status(test);
}

} // verus!
