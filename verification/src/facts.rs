//! Facts about running and cancelling tests that the runner's proofs rest on.

use vstd::prelude::*;
use crate::entity::{
    accepts, cancelled, every_pending, height, max_height, passed_by, pending,
    ran_by, runnable, same_shape, status_of, statuses, stopped_before, stops, Entity,
};
use crate::states::{differs_at, first_pending, none_pending};
use crate::status::Status;

verus! {

/// A test among `tests` is no higher than the highest of them.
pub proof fn lemma_height_bound<F>(tests: Seq<Entity<F>>, from: int, i: int)
    requires
        0 <= from <= i < tests.len(),
    ensures
        height(tests[i]) <= max_height(tests, from),
    decreases i - from,
{
    if from < i {
        lemma_height_bound(tests, from + 1, i);
    }
}

/// A group is pending exactly when one of its children is.
pub proof fn lemma_pending_child<F>(tests: Seq<Entity<F>>)
    ensures
        statuses(tests).contains(Status::Init) <==> exists|i: int|
            0 <= i < tests.len() && pending(#[trigger] tests[i]),
{
    let found = statuses(tests);
    if found.contains(Status::Init) {
        let i = choose|i: int| 0 <= i < found.len() && found[i] == Status::Init;
        assert(pending(tests[i]));
    }
    if exists|i: int| 0 <= i < tests.len() && pending(#[trigger] tests[i]) {
        let i = choose|i: int| 0 <= i < tests.len() && pending(#[trigger] tests[i]);
        assert(found[i] == Status::Init);
    }
}

/// Every test has the shape it has.
pub proof fn lemma_same_shape_refl<F>(test: Entity<F>)
    ensures
        same_shape(test, test),
    decreases test,
{
    match test {
        Entity::Single(_) => {},
        Entity::Group(g) => {
            assert forall|i: int| 0 <= i < g.tests@.len() implies same_shape(
                g.tests@[i],
                #[trigger] g.tests@[i],
            ) by {
                lemma_same_shape_refl(g.tests@[i]);
            }
        },
    }
}

/// Tests of one shape are equally high.
pub proof fn lemma_shape_height<F>(before: Entity<F>, after: Entity<F>)
    requires
        same_shape(before, after),
    ensures
        height(after) == height(before),
    decreases before,
{
    match before {
        Entity::Single(_) => {},
        Entity::Group(g) => {
            let h = after->Group_0;
            assert forall|i: int| 0 <= i < g.tests@.len() implies height(#[trigger] h.tests@[i])
                == height(g.tests@[i]) by {
                lemma_shape_height(g.tests@[i], h.tests@[i]);
            }
            lemma_max_height_pointwise(g.tests@, h.tests@, 0);
        },
    }
}

/// Sequences whose tests are equally high position by position have the same
/// largest height.
pub proof fn lemma_max_height_pointwise<F>(before: Seq<Entity<F>>, after: Seq<Entity<F>>, from: int)
    requires
        before.len() == after.len(),
        forall|i: int| 0 <= i < before.len() ==> height(#[trigger] after[i]) == height(before[i]),
    ensures
        max_height(after, from) == max_height(before, from),
    decreases before.len() - from,
{
    if 0 <= from < before.len() {
        lemma_max_height_pointwise(before, after, from + 1);
    }
}

/// Sequences whose tests have the same shape position by position have the
/// same largest height.
pub proof fn lemma_shapes_height<F>(before: Seq<Entity<F>>, after: Seq<Entity<F>>)
    requires
        before.len() == after.len(),
        forall|i: int| 0 <= i < before.len() ==> same_shape(before[i], #[trigger] after[i]),
    ensures
        max_height(after, 0) == max_height(before, 0),
{
    assert forall|i: int| 0 <= i < before.len() implies height(#[trigger] after[i]) == height(
        before[i],
    ) by {
        lemma_shape_height(before[i], after[i]);
    }
    lemma_max_height_pointwise(before, after, 0);
}

/// A test in which nothing is pending has no check that has not run yet, so
/// that anything holds of the functions of such checks.
pub proof fn lemma_settled_checks<F>(test: Entity<F>, holds: spec_fn(F) -> bool)
    requires
        !pending(test),
    ensures
        every_pending(test, holds),
    decreases test,
{
    match test {
        Entity::Single(_) => {},
        Entity::Group(g) => {
            lemma_pending_child(g.tests@);
            assert forall|i: int| 0 <= i < g.tests@.len() implies every_pending(
                #[trigger] g.tests@[i],
                holds,
            ) by {
                lemma_settled_checks(g.tests@[i], holds);
            }
        },
    }
}

/// A pending test that accepts an input can be run on it.
pub proof fn lemma_accepts_runnable<T, F: Fn(&T) -> Status>(test: Entity<F>, input: T)
    requires
        accepts(test, input),
        pending(test),
    ensures
        runnable(test, input),
{
}

/// Cancelling keeps the shape of a test and leaves nothing pending in it; a
/// test that was pending ends `Aborted`.
pub proof fn lemma_cancelled<F>(before: Entity<F>, after: Entity<F>)
    requires
        cancelled(before, after),
    ensures
        same_shape(before, after),
        !pending(after),
        pending(before) ==> status_of(after) == Status::Aborted,
    decreases before,
{
    match before {
        Entity::Single(_) => {},
        Entity::Group(g) => {
            let h = after->Group_0;
            assert forall|i: int| 0 <= i < g.tests@.len() implies same_shape(
                g.tests@[i],
                #[trigger] h.tests@[i],
            ) && !pending(h.tests@[i]) && (pending(g.tests@[i]) ==> status_of(h.tests@[i])
                == Status::Aborted) by {
                lemma_cancelled(g.tests@[i], h.tests@[i]);
            }
            lemma_pending_child(h.tests@);
            if pending(before) {
                lemma_pending_child(g.tests@);
                let i = choose|i: int| 0 <= i < g.tests@.len() && pending(#[trigger] g.tests@[i]);
                let found = statuses(h.tests@);
                assert(found[i] == Status::Aborted);
            }
        },
    }
}

/// Running keeps the shape of a test.
pub proof fn lemma_ran_shape<F>(
    before: Entity<F>,
    after: Entity<F>,
    answers: spec_fn(F, Status) -> bool,
)
    requires
        ran_by(before, after, answers),
    ensures
        same_shape(before, after),
    decreases before, 0nat,
{
    match before {
        Entity::Single(_) => {},
        Entity::Group(g) => {
            let h = after->Group_0;
            lemma_pass_shape(g.tests@, h.tests@, answers);
        },
    }
}

/// A pass keeps the shape of every test.
pub proof fn lemma_pass_shape<F>(
    before: Seq<Entity<F>>,
    after: Seq<Entity<F>>,
    answers: spec_fn(F, Status) -> bool,
)
    requires
        passed_by(before, after, answers),
    ensures
        forall|i: int| 0 <= i < before.len() ==> same_shape(before[i], #[trigger] after[i]),
    decreases before, 1nat,
{
    assert forall|i: int| 0 <= i < before.len() implies same_shape(
        before[i],
        #[trigger] after[i],
    ) by {
        if !pending(before[i]) {
            lemma_same_shape_refl(before[i]);
        } else if stopped_before(before, after, i) {
            lemma_cancelled(before[i], after[i]);
        } else {
            lemma_ran_shape(before[i], after[i], answers);
        }
    }
}

/// Whether no function that `holds` is true of answers `Init`.
pub open spec fn never_init<F>(
    holds: spec_fn(F) -> bool,
    answers: spec_fn(F, Status) -> bool,
) -> bool {
    forall|cb: F, s: Status| holds(cb) && #[trigger] answers(cb, s) ==> s != Status::Init
}

/// Running a pending test whose functions never answer `Init` leaves nothing
/// pending in it.
pub proof fn lemma_ran_settles<F>(
    before: Entity<F>,
    after: Entity<F>,
    answers: spec_fn(F, Status) -> bool,
    holds: spec_fn(F) -> bool,
)
    requires
        ran_by(before, after, answers),
        pending(before),
        every_pending(before, holds),
        never_init(holds, answers),
    ensures
        !pending(after),
    decreases before, 0nat,
{
    match before {
        Entity::Single(_) => {},
        Entity::Group(g) => {
            let h = after->Group_0;
            lemma_pass_settles(g.tests@, h.tests@, answers, holds);
            lemma_pending_child(h.tests@);
        },
    }
}

/// A pass over tests whose functions never answer `Init` leaves none of them
/// pending.
pub proof fn lemma_pass_settles<F>(
    before: Seq<Entity<F>>,
    after: Seq<Entity<F>>,
    answers: spec_fn(F, Status) -> bool,
    holds: spec_fn(F) -> bool,
)
    requires
        passed_by(before, after, answers),
        forall|i: int| 0 <= i < before.len() ==> every_pending(#[trigger] before[i], holds),
        never_init(holds, answers),
    ensures
        forall|i: int| 0 <= i < after.len() ==> !pending(#[trigger] after[i]),
    decreases before, 1nat,
{
    assert forall|i: int| 0 <= i < after.len() implies !pending(#[trigger] after[i]) by {
        if !pending(before[i]) {
        } else if stopped_before(before, after, i) {
            lemma_cancelled(before[i], after[i]);
        } else {
            lemma_ran_settles(before[i], after[i], answers, holds);
        }
    }
}

/// Whether the pass over `before` has dealt with the tests in front of
/// position `done`, leaving them as a whole pass does, and has not touched the
/// others.
pub open spec fn passed_up_to<F>(
    before: Seq<Entity<F>>,
    answers: spec_fn(F, Status) -> bool,
    now: Seq<Entity<F>>,
    done: int,
) -> bool {
    &&& now.len() == before.len()
    &&& 0 <= done <= before.len()
    &&& forall|i: int|
        0 <= i < done ==> if !pending(before[i]) {
            #[trigger] now[i] == before[i]
        } else if stopped_before(before, now, i) {
            cancelled(before[i], now[i])
        } else {
            ran_by(before[i], now[i], answers)
        }
    &&& forall|i: int| done <= i < before.len() ==> #[trigger] now[i] == before[i]
    &&& forall|i: int| 0 <= i < done ==> !pending(#[trigger] now[i])
}

/// Whether a test in front of position `i` stopped the pass depends only on
/// the tests in front of `i`.
pub proof fn lemma_stopped_stable<F>(
    before: Seq<Entity<F>>,
    now: Seq<Entity<F>>,
    then: Seq<Entity<F>>,
    i: int,
)
    requires
        forall|j: int| 0 <= j < i ==> #[trigger] then[j] == now[j],
    ensures
        stopped_before(before, then, i) == stopped_before(before, now, i),
{
    if stopped_before(before, now, i) {
        let j = choose|j: int| 0 <= j < i && pending(#[trigger] before[j]) && stops(now[j]);
        assert(then[j] == now[j]);
    }
    if stopped_before(before, then, i) {
        let j = choose|j: int| 0 <= j < i && pending(#[trigger] before[j]) && stops(then[j]);
        assert(then[j] == now[j]);
    }
}

/// A pass that was stopped in front of a position stays stopped behind it.
pub proof fn lemma_stopped_later<F>(before: Seq<Entity<F>>, now: Seq<Entity<F>>, i: int, k: int)
    requires
        stopped_before(before, now, i),
        i <= k,
    ensures
        stopped_before(before, now, k),
{
    let j = choose|j: int| 0 <= j < i && pending(#[trigger] before[j]) && stops(now[j]);
    assert(0 <= j < k && pending(before[j]) && stops(now[j]));
}

/// The tests between the part that a pass has dealt with and the first pending
/// test are settled, so the pass has dealt with them too.
proof fn lemma_skip_settled<F>(
    before: Seq<Entity<F>>,
    answers: spec_fn(F, Status) -> bool,
    now: Seq<Entity<F>>,
    then: Seq<Entity<F>>,
    done: int,
    k: int,
)
    requires
        passed_up_to(before, answers, now, done),
        first_pending(now, k),
        differs_at(now, then, k),
    ensures
        done <= k,
        pending(before[k]),
        then.len() == before.len(),
        stopped_before(before, then, k) == stopped_before(before, now, done),
        forall|i: int| k < i < before.len() ==> #[trigger] then[i] == before[i],
        forall|i: int|
            0 <= i < k ==> !pending(#[trigger] then[i]) && if !pending(before[i]) {
                then[i] == before[i]
            } else if stopped_before(before, then, i) {
                cancelled(before[i], then[i])
            } else {
                ran_by(before[i], then[i], answers)
            },
{
    if k < done {
        assert(!pending(now[k]));
    }
    assert(now[k] == before[k]);
    assert forall|i: int| 0 <= i < k implies !pending(#[trigger] then[i]) && if !pending(
        before[i],
    ) {
        then[i] == before[i]
    } else if stopped_before(before, then, i) {
        cancelled(before[i], then[i])
    } else {
        ran_by(before[i], then[i], answers)
    } by {
        assert(then[i] == now[i]);
        lemma_stopped_stable(before, now, then, i);
        if i >= done {
            assert(now[i] == before[i]);
        }
    }
    lemma_stopped_stable(before, now, then, k);
    if stopped_before(before, now, done) {
        lemma_stopped_later(before, now, done, k);
    }
    if stopped_before(before, now, k) {
        let j = choose|j: int| 0 <= j < k && pending(#[trigger] before[j]) && stops(now[j]);
        if j >= done {
            assert(now[j] == before[j]);
        }
        assert(0 <= j < done && pending(before[j]) && stops(now[j]));
    }
}

/// A test that is settled needs nothing from the pass.
pub proof fn lemma_pass_skips<F>(
    before: Seq<Entity<F>>,
    answers: spec_fn(F, Status) -> bool,
    now: Seq<Entity<F>>,
    done: int,
)
    requires
        passed_up_to(before, answers, now, done),
        done < before.len(),
        !pending(now[done]),
    ensures
        passed_up_to(before, answers, now, done + 1),
        stopped_before(before, now, done + 1) == stopped_before(before, now, done),
{
    assert(now[done] == before[done]);
    if stopped_before(before, now, done) {
        lemma_stopped_later(before, now, done, done + 1);
    }
    if stopped_before(before, now, done + 1) {
        let j = choose|j: int| 0 <= j < done + 1 && pending(#[trigger] before[j]) && stops(now[j]);
        assert(0 <= j < done && pending(before[j]) && stops(now[j]));
    }
}

/// Running the first pending test extends a pass that was not stopped; the
/// pass is stopped from then on exactly if that test stops it.
pub proof fn lemma_pass_runs<F>(
    before: Seq<Entity<F>>,
    answers: spec_fn(F, Status) -> bool,
    now: Seq<Entity<F>>,
    then: Seq<Entity<F>>,
    done: int,
    k: int,
)
    requires
        passed_up_to(before, answers, now, done),
        !stopped_before(before, now, done),
        first_pending(now, k),
        differs_at(now, then, k),
        ran_by(now[k], then[k], answers),
        !pending(then[k]),
    ensures
        done <= k,
        passed_up_to(before, answers, then, k + 1),
        stopped_before(before, then, k + 1) == stops(then[k]),
{
    lemma_skip_settled(before, answers, now, then, done, k);
    if stops(then[k]) {
        assert(0 <= k < k + 1 && pending(before[k]) && stops(then[k]));
    }
    if stopped_before(before, then, k + 1) {
        let j = choose|j: int| 0 <= j < k + 1 && pending(#[trigger] before[j]) && stops(then[j]);
        if j < k {
            assert(0 <= j < k && pending(before[j]) && stops(then[j]));
        }
    }
}

/// Cancelling the first pending test extends a pass that was stopped.
pub proof fn lemma_pass_cancels<F>(
    before: Seq<Entity<F>>,
    answers: spec_fn(F, Status) -> bool,
    now: Seq<Entity<F>>,
    then: Seq<Entity<F>>,
    done: int,
    k: int,
)
    requires
        passed_up_to(before, answers, now, done),
        stopped_before(before, now, done),
        first_pending(now, k),
        differs_at(now, then, k),
        cancelled(now[k], then[k]),
    ensures
        done <= k,
        passed_up_to(before, answers, then, k + 1),
        stopped_before(before, then, k + 1),
{
    lemma_skip_settled(before, answers, now, then, done, k);
    lemma_cancelled(now[k], then[k]);
    lemma_stopped_later(before, then, k, k + 1);
}

/// Once nothing is pending, the pass is whole.
pub proof fn lemma_pass_whole<F>(
    before: Seq<Entity<F>>,
    answers: spec_fn(F, Status) -> bool,
    now: Seq<Entity<F>>,
    done: int,
)
    requires
        passed_up_to(before, answers, now, done),
        none_pending(now),
    ensures
        passed_by(before, now, answers),
        stopped_before(before, now, before.len() as int) == stopped_before(before, now, done),
{
    assert forall|i: int| 0 <= i < before.len() implies if !pending(before[i]) {
        #[trigger] now[i] == before[i]
    } else if stopped_before(before, now, i) {
        cancelled(before[i], now[i])
    } else {
        ran_by(before[i], now[i], answers)
    } by {
        if i >= done {
            assert(now[i] == before[i]);
            assert(!pending(now[i]));
        }
    }
    if stopped_before(before, now, done) {
        lemma_stopped_later(before, now, done, before.len() as int);
    }
    if stopped_before(before, now, before.len() as int) {
        let j = choose|j: int|
            0 <= j < before.len() && pending(#[trigger] before[j]) && stops(now[j]);
        if j >= done {
            assert(now[j] == before[j]);
            assert(!pending(now[j]));
        }
        assert(0 <= j < done && pending(before[j]) && stops(now[j]));
    }
}

/// Replacing one test by a settled test of its shape keeps the largest height
/// and what holds of the functions of the checks that have not run yet.
pub proof fn lemma_step_keeps<F>(
    now: Seq<Entity<F>>,
    then: Seq<Entity<F>>,
    holds: spec_fn(F) -> bool,
    k: int,
)
    requires
        0 <= k < now.len(),
        differs_at(now, then, k),
        same_shape(now[k], then[k]),
        !pending(then[k]),
    ensures
        max_height(then, 0) == max_height(now, 0),
        (forall|i: int| 0 <= i < now.len() ==> every_pending(#[trigger] now[i], holds)) ==> (
        forall|i: int| 0 <= i < then.len() ==> every_pending(#[trigger] then[i], holds)),
{
    assert forall|i: int| 0 <= i < now.len() implies same_shape(now[i], #[trigger] then[i]) by {
        if i != k {
            assert(then[i] == now[i]);
            lemma_same_shape_refl(now[i]);
        }
    }
    lemma_shapes_height(now, then);
    lemma_settled_checks(then[k], holds);
    if forall|i: int| 0 <= i < now.len() ==> every_pending(#[trigger] now[i], holds) {
        assert forall|i: int| 0 <= i < then.len() implies every_pending(
            #[trigger] then[i],
            holds,
        ) by {
            if i != k {
                assert(then[i] == now[i]);
            }
        }
    }
}

} // verus!
