//! Tests: single checks, groups of tests, and what it means to run or to
//! cancel them.

use vstd::prelude::*;
use crate::clock::{now, Timestamp};
use crate::runner::{all_accept, TestsRunner};
use crate::status::{aggregate, aggregate_statuses, should_abort, trips, Criticality, Status};

verus! {

/// A single check: a function from the input to a status, with its record.
#[derive(Debug)]
pub struct Test<F> {
    pub name: String,
    pub criticality: Criticality,
    pub start: Option<Timestamp>,
    pub end: Option<Timestamp>,
    pub status: Status,
    pub cb: F,
}

/// A named group of tests. Its status is derived from its children.
#[derive(Debug)]
pub struct TestGroup<F> {
    pub name: String,
    pub criticality: Criticality,
    pub tests: Vec<Entity<F>>,
}

/// A test or a group of tests.
#[derive(Debug)]
pub enum Entity<F> {
    Single(Test<F>),
    Group(TestGroup<F>),
}

/// The statuses of the given tests, in order.
pub open spec fn statuses<F>(tests: Seq<Entity<F>>) -> Seq<Status>
    decreases tests, 0nat,
{
    Seq::new(
        tests.len(),
        |i: int|
            if 0 <= i < tests.len() {
                status_of(tests[i])
            } else {
                Status::Init
            },
    )
}

/// The status of a test: the recorded one for a single check, the aggregate of
/// the children's statuses for a group.
pub open spec fn status_of<F>(test: Entity<F>) -> Status
    decreases test, 1nat,
{
    match test {
        Entity::Single(t) => t.status,
        Entity::Group(g) => aggregate(statuses(g.tests@)),
    }
}

/// The criticality of a test.
pub open spec fn criticality_of<F>(test: Entity<F>) -> Criticality {
    match test {
        Entity::Single(t) => t.criticality,
        Entity::Group(g) => g.criticality,
    }
}

/// Whether a test has not run yet.
pub open spec fn pending<F>(test: Entity<F>) -> bool {
    status_of(test) == Status::Init
}

/// Whether a test, as it stands, stops the pass it belongs to.
pub open spec fn stops<F>(test: Entity<F>) -> bool {
    trips(criticality_of(test), status_of(test))
}

/// Whether `after` is `before` with nothing changed but statuses and
/// timestamps: the same tree of names, criticalities and functions.
pub open spec fn same_shape<F>(before: Entity<F>, after: Entity<F>) -> bool
    decreases before,
{
    match before {
        Entity::Single(t) => {
            &&& after matches Entity::Single(u)
            &&& u.name == t.name
            &&& u.criticality == t.criticality
            &&& u.cb == t.cb
        },
        Entity::Group(g) => {
            &&& after matches Entity::Group(h)
            &&& h.name == g.name
            &&& h.criticality == g.criticality
            &&& h.tests@.len() == g.tests@.len()
            &&& forall|i: int|
                0 <= i < g.tests@.len() ==> same_shape(g.tests@[i], #[trigger] h.tests@[i])
        },
    }
}

/// Whether `after` is `before` cancelled: every check in it, at any depth, is
/// marked `Aborted` and nothing else has changed.
pub open spec fn cancelled<F>(before: Entity<F>, after: Entity<F>) -> bool
    decreases before,
{
    match before {
        Entity::Single(t) => after == Entity::Single(Test { status: Status::Aborted, ..t }),
        Entity::Group(g) => {
            &&& after matches Entity::Group(h)
            &&& h.name == g.name
            &&& h.criticality == g.criticality
            &&& h.tests@.len() == g.tests@.len()
            &&& forall|i: int|
                0 <= i < g.tests@.len() ==> cancelled(g.tests@[i], #[trigger] h.tests@[i])
        },
    }
}

/// Whether `holds` is true of the function of every check in `test`, at any
/// depth, that has not run yet. No pass calls any other function.
pub open spec fn every_pending<F>(test: Entity<F>, holds: spec_fn(F) -> bool) -> bool
    decreases test,
{
    match test {
        Entity::Single(t) => t.status == Status::Init ==> holds(t.cb),
        Entity::Group(g) => forall|i: int|
            0 <= i < g.tests@.len() ==> every_pending(#[trigger] g.tests@[i], holds),
    }
}

/// The functions that can be called on `input` and never answer `Init`.
pub open spec fn fit_for<T, F: Fn(&T) -> Status>(input: T) -> spec_fn(F) -> bool {
    |cb: F|
        {
            &&& call_requires(cb, (&input,))
            &&& forall|s: Status| call_ensures(cb, (&input,), s) ==> s != Status::Init
        }
}

/// The answers that a function can give on `input`.
pub open spec fn answers_on<T, F: Fn(&T) -> Status>(input: T) -> spec_fn(F, Status) -> bool {
    |cb: F, status: Status| call_ensures(cb, (&input,), status)
}

/// Whether the function of every check in `test` that has not run yet can be
/// called on `input` and never answers `Init`, so that a pass over the test
/// leaves nothing pending. Nothing is asked of the checks that are settled.
pub open spec fn accepts<T, F: Fn(&T) -> Status>(test: Entity<F>, input: T) -> bool {
    every_pending(test, fit_for(input))
}

/// Whether `test` can be run on `input`: a single check can be called on it,
/// and every child of a group accepts it.
pub open spec fn runnable<T, F: Fn(&T) -> Status>(test: Entity<F>, input: T) -> bool {
    match test {
        Entity::Single(t) => call_requires(t.cb, (&input,)),
        Entity::Group(g) => all_accept(g.tests@, input),
    }
}

/// Whether the pass over `before` that ends in `after` was stopped by one of
/// the tests in front of position `i`: a test that the pass had to run and
/// that ended critical and bad.
pub open spec fn stopped_before<F>(before: Seq<Entity<F>>, after: Seq<Entity<F>>, i: int) -> bool {
    exists|j: int| 0 <= j < i && pending(#[trigger] before[j]) && stops(after[j])
}

/// Whether `after` can result from running `before`, where `answers` says
/// which statuses the function of a check can answer.
///
/// A single check is called once and records the answer with the instants at
/// which the call started and ended. A group makes one pass over its children.
pub open spec fn ran_by<F>(
    before: Entity<F>,
    after: Entity<F>,
    answers: spec_fn(F, Status) -> bool,
) -> bool
    decreases before, 0nat,
{
    match before {
        Entity::Single(t) => {
            &&& after matches Entity::Single(u)
            &&& u.name == t.name
            &&& u.criticality == t.criticality
            &&& u.cb == t.cb
            &&& u.start is Some
            &&& u.end is Some
            &&& answers(t.cb, u.status)
        },
        Entity::Group(g) => {
            &&& after matches Entity::Group(h)
            &&& h.name == g.name
            &&& h.criticality == g.criticality
            &&& passed_by(g.tests@, h.tests@, answers)
        },
    }
}

/// Whether `after` can result from one pass over `before`, where `answers`
/// says which statuses the function of a check can answer.
///
/// The pass leaves alone what has already run. It runs the pending tests in
/// order until one of them stops it, and cancels the pending tests behind
/// that one.
pub open spec fn passed_by<F>(
    before: Seq<Entity<F>>,
    after: Seq<Entity<F>>,
    answers: spec_fn(F, Status) -> bool,
) -> bool
    decreases before, 1nat,
{
    &&& after.len() == before.len()
    &&& forall|i: int|
        0 <= i < before.len() ==> if !pending(before[i]) {
            #[trigger] after[i] == before[i]
        } else if stopped_before(before, after, i) {
            cancelled(before[i], after[i])
        } else {
            ran_by(before[i], after[i], answers)
        }
}

/// Whether `after` can result from running `before` on `input`.
pub open spec fn ran<T, F: Fn(&T) -> Status>(
    before: Entity<F>,
    input: T,
    after: Entity<F>,
) -> bool {
    ran_by(before, after, answers_on(input))
}

/// Whether `after` can result from one pass over `before` on `input`.
pub open spec fn passed_over<T, F: Fn(&T) -> Status>(
    before: Seq<Entity<F>>,
    input: T,
    after: Seq<Entity<F>>,
) -> bool {
    passed_by(before, after, answers_on(input))
}

/// Whether `after` is `before` with the same records and, in the place of
/// every function, a function that `same` relates to it.
pub open spec fn copied_by<F>(
    before: Entity<F>,
    after: Entity<F>,
    same: spec_fn(F, F) -> bool,
) -> bool
    decreases before,
{
    match before {
        Entity::Single(t) => {
            &&& after matches Entity::Single(u)
            &&& u.name == t.name
            &&& u.criticality == t.criticality
            &&& u.start == t.start
            &&& u.end == t.end
            &&& u.status == t.status
            &&& same(t.cb, u.cb)
        },
        Entity::Group(g) => {
            &&& after matches Entity::Group(h)
            &&& h.name == g.name
            &&& h.criticality == g.criticality
            &&& h.tests@.len() == g.tests@.len()
            &&& forall|i: int|
                0 <= i < g.tests@.len() ==> copied_by(g.tests@[i], #[trigger] h.tests@[i], same)
        },
    }
}

/// Whether `after` is a copy of `before`: the same tree with the same records,
/// in which every function is a clone of the one in its place.
pub open spec fn copied<F: Clone>(before: Entity<F>, after: Entity<F>) -> bool {
    copied_by(before, after, |a: F, b: F| cloned::<F>(a, b))
}

/// The number of groups nested in a test.
pub open spec fn height<F>(test: Entity<F>) -> nat
    decreases test, 0nat,
{
    match test {
        Entity::Single(_) => 0,
        Entity::Group(g) => 1 + max_height(g.tests@, 0),
    }
}

/// The largest height among the tests from position `from` on.
pub open spec fn max_height<F>(tests: Seq<Entity<F>>, from: int) -> nat
    decreases tests, tests.len() - from,
{
    if 0 <= from < tests.len() {
        let first = height(tests[from]);
        let rest = max_height(tests, from + 1);
        if first > rest {
            first
        } else {
            rest
        }
    } else {
        0
    }
}

impl<F> Test<F> {
    /// A check that has not run yet.
    pub fn new(name: String, criticality: Criticality, cb: F) -> (test: Self)
        ensures
            test == (Test { name, criticality, start: None, end: None, status: Status::Init, cb }),
    {
        Test { name, criticality, start: None, end: None, status: Status::Init, cb }
    }

    /// Replaces the criticality of the check.
    pub fn set_criticality(&mut self, criticality: Criticality)
        ensures
            *final(self) == (Test { criticality, ..*old(self) }),
    {
        self.criticality = criticality;
    }

    /// The recorded status of the check.
    pub fn status(&self) -> (status: Status)
        ensures
            status == self.status,
    {
        self.status
    }

    /// The criticality of the check.
    pub fn criticality(&self) -> (criticality: Criticality)
        ensures
            criticality == self.criticality,
    {
        self.criticality
    }

    /// Marks the check `Aborted` without calling its function.
    pub fn abort(&mut self)
        ensures
            *final(self) == (Test { status: Status::Aborted, ..*old(self) }),
    {
        self.status = Status::Aborted;
    }

    /// Records that the check started at `at` and is running.
    pub fn begin(&mut self, at: Timestamp)
        ensures
            *final(self) == (Test { start: Some(at), status: Status::Running, ..*old(self) }),
    {
        self.start = Some(at);
        self.status = Status::Running;
    }

    /// Records the answer `status` and that the check ended at `at`.
    pub fn finish(&mut self, status: Status, at: Timestamp)
        ensures
            *final(self) == (Test { status, end: Some(at), ..*old(self) }),
    {
        self.status = status;
        self.end = Some(at);
    }

    /// Calls the function on `input` once, records the answer with the instants
    /// at which the call started and ended, and returns the answer.
    ///
    /// The instants are read from the clock: the start before the call, the
    /// end after it.
    pub fn run<T>(&mut self, input: &T) -> (status: Status) where F: Fn(&T) -> Status
        requires
            call_requires(old(self).cb, (input,)),
        ensures
            ran(Entity::Single(*old(self)), *input, Entity::Single(*final(self))),
            status == final(self).status,
    {
        self.begin(now());
        let status = (self.cb)(input);
        self.finish(status, now());
        status
    }
}

impl<F> TestGroup<F> {
    /// A group without children.
    pub fn new(name: String, criticality: Criticality) -> (group: Self)
        ensures
            group.name == name,
            group.criticality == criticality,
            group.tests@ == Seq::<Entity<F>>::empty(),
    {
        TestGroup { name, criticality, tests: Vec::new() }
    }

    /// Replaces the criticality of the group.
    pub fn set_criticality(&mut self, criticality: Criticality)
        ensures
            *final(self) == (TestGroup { criticality, ..*old(self) }),
    {
        self.criticality = criticality;
    }

    /// Appends a test to the children of the group.
    pub fn add_test(&mut self, test: Entity<F>)
        ensures
            final(self).name == old(self).name,
            final(self).criticality == old(self).criticality,
            final(self).tests@ == old(self).tests@.push(test),
    {
        self.tests.push(test);
    }

    /// The criticality of the group.
    pub fn criticality(&self) -> (criticality: Criticality)
        ensures
            criticality == self.criticality,
    {
        self.criticality
    }

    /// The status of the group: the aggregate of its children's statuses.
    pub fn status(&self) -> (status: Status)
        ensures
            status == aggregate(statuses(self.tests@)),
        decreases 1 + max_height(self.tests@, 0), 0nat,
    {
        let mut found: Vec<Status> = Vec::new();
        let mut i: usize = 0;
        while i < self.tests.len()
            invariant
                i <= self.tests.len(),
                found@ == statuses(self.tests@).take(i as int),
            decreases self.tests.len() - i,
        {
            proof {
                crate::facts::lemma_height_bound(self.tests@, 0, i as int);
            }
            let s = self.tests[i].status();
            found.push(s);
            proof {
                assert(found@ =~= statuses(self.tests@).take(i + 1));
            }
            i = i + 1;
        }
        proof {
            assert(found@ =~= statuses(self.tests@));
        }
        aggregate_statuses(&found)
    }

    /// Makes one pass over the children on `input`, as a runner of their own
    /// does, and returns the status of the group.
    pub fn run<T>(&mut self, input: &T) -> (status: Status) where F: Fn(&T) -> Status
        requires
            all_accept(old(self).tests@, *input),
        ensures
            ran(Entity::Group(*old(self)), *input, Entity::Group(*final(self))),
            status == status_of(Entity::Group(*final(self))),
        decreases max_height(old(self).tests@, 0), 5nat,
    {
        let mut runner = TestsRunner::new(input);
        std::mem::swap(&mut runner.tests, &mut self.tests);
        runner.run();
        std::mem::swap(&mut runner.tests, &mut self.tests);
        self.status()
    }

    /// Cancels the group: every check in it, at any depth, is marked `Aborted`.
    pub fn abort(&mut self)
        ensures
            cancelled(Entity::Group(*old(self)), Entity::Group(*final(self))),
        decreases 1 + max_height(old(self).tests@, 0), 0nat,
    {
        let mut i: usize = 0;
        while i < self.tests.len()
            invariant
                i <= self.tests.len(),
                self.name == old(self).name,
                self.criticality == old(self).criticality,
                self.tests@.len() == old(self).tests@.len(),
                forall|j: int|
                    0 <= j < i ==> cancelled(old(self).tests@[j], #[trigger] self.tests@[j]),
                forall|j: int| i <= j < self.tests@.len() ==> self.tests@[j] == old(self).tests@[j],
            decreases self.tests.len() - i,
        {
            proof {
                crate::facts::lemma_height_bound(old(self).tests@, 0, i as int);
            }
            self.tests[i].abort();
            i = i + 1;
        }
    }
}

impl<F> Entity<F> {
    /// The status of the test.
    pub fn status(&self) -> (status: Status)
        ensures
            status == status_of(*self),
        decreases height(*self), 1nat,
    {
        match self {
            Entity::Single(t) => t.status(),
            Entity::Group(g) => g.status(),
        }
    }

    /// The criticality of the test.
    pub fn criticality(&self) -> (criticality: Criticality)
        ensures
            criticality == criticality_of(*self),
    {
        match self {
            Entity::Single(t) => t.criticality(),
            Entity::Group(g) => g.criticality(),
        }
    }

    /// Cancels the test: every check in it, at any depth, is marked `Aborted`
    /// and no function is called.
    pub fn abort(&mut self)
        ensures
            cancelled(*old(self), *final(self)),
        decreases height(*old(self)), 1nat,
    {
        match self {
            Entity::Single(t) => t.abort(),
            Entity::Group(g) => g.abort(),
        }
    }

    /// Runs the test on `input`: a single check calls its function, a group
    /// makes a pass over its children. Returns the status that results.
    pub fn run<T>(&mut self, input: &T) -> (status: Status) where F: Fn(&T) -> Status
        requires
            runnable(*old(self), *input),
        ensures
            ran(*old(self), *input, *final(self)),
            status == status_of(*final(self)),
        decreases height(*old(self)), 0nat,
    {
        match self {
            Entity::Single(t) => t.run(input),
            Entity::Group(g) => g.run(input),
        }
    }

    /// Whether the test, as it stands, stops the pass it belongs to: it is
    /// critical and has failed or was cancelled.
    pub fn should_abort(&self) -> (stop: bool)
        ensures
            stop == stops(*self),
    {
        should_abort(self.criticality(), self.status())
    }
}

impl<F: Clone> Test<F> {
    /// A copy of the check, with a clone of its function.
    pub fn duplicate(&self) -> (copy: Self)
        ensures
            copied(Entity::Single(*self), Entity::Single(copy)),
    {
        Test {
            name: self.name.clone(),
            criticality: self.criticality,
            start: self.start,
            end: self.end,
            status: self.status,
            cb: self.cb.clone(),
        }
    }
}

impl<F: Clone> TestGroup<F> {
    /// A copy of the group and of everything in it.
    pub fn duplicate(&self) -> (copy: Self)
        ensures
            copied(Entity::Group(*self), Entity::Group(copy)),
        decreases 1 + max_height(self.tests@, 0), 0nat,
    {
        let mut tests: Vec<Entity<F>> = Vec::new();
        let mut i: usize = 0;
        while i < self.tests.len()
            invariant
                i <= self.tests.len(),
                tests@.len() == i,
                forall|j: int| 0 <= j < i ==> copied(self.tests@[j], #[trigger] tests@[j]),
            decreases self.tests.len() - i,
        {
            proof {
                crate::facts::lemma_height_bound(self.tests@, 0, i as int);
            }
            let copy = self.tests[i].duplicate();
            tests.push(copy);
            i = i + 1;
        }
        TestGroup { name: self.name.clone(), criticality: self.criticality, tests }
    }
}

impl<F: Clone> Entity<F> {
    /// A copy of the test and of everything in it.
    pub fn duplicate(&self) -> (copy: Self)
        ensures
            copied(*self, copy),
        decreases height(*self), 1nat,
    {
        match self {
            Entity::Single(t) => Entity::Single(t.duplicate()),
            Entity::Group(g) => Entity::Group(g.duplicate()),
        }
    }
}

impl<F: Clone> Clone for Test<F> {
    fn clone(&self) -> (copy: Self)
        ensures
            copied(Entity::Single(*self), Entity::Single(copy)),
    {
        self.duplicate()
    }
}

impl<F: Clone> Clone for TestGroup<F> {
    fn clone(&self) -> (copy: Self)
        ensures
            copied(Entity::Group(*self), Entity::Group(copy)),
    {
        self.duplicate()
    }
}

impl<F: Clone> Clone for Entity<F> {
    fn clone(&self) -> (copy: Self)
        ensures
            copied(*self, copy),
    {
        self.duplicate()
    }
}

} // verus!
