//! What every test offers, whether it is a single check or a group.

use vstd::prelude::*;
use crate::entity::{
    cancelled, criticality_of, ran, runnable, status_of, stops, Entity, Test, TestGroup,
};
use crate::report::{reports, RunResult};
use crate::status::{should_abort, Criticality, Status};

verus! {

/// A test that can be run on an input of type `T` and whose checks call
/// functions of type `F`.
pub trait TestTrait<T, F>: Sized {
    /// The test, as a runner holds it.
    spec fn entity(&self) -> Entity<F>;

    /// Runs the test on `data` and returns the status that results.
    fn run(&mut self, data: &T) -> (status: Status) where F: Fn(&T) -> Status
        requires
            runnable(old(self).entity(), *data),
        ensures
            ran(old(self).entity(), *data, final(self).entity()),
            status == status_of(final(self).entity()),
    ;

    /// The criticality of the test.
    fn criticality(&self) -> (criticality: Criticality)
        ensures
            criticality == criticality_of(self.entity()),
    ;

    /// Cancels the test: every check in it is marked `Aborted` and no
    /// function is called.
    fn abort(&mut self)
        ensures
            cancelled(old(self).entity(), final(self).entity()),
    ;

    /// The status of the test.
    fn status(&self) -> (status: Status)
        ensures
            status == status_of(self.entity()),
    ;

    /// What is reported of the test.
    fn result(&self) -> (result: RunResult)
        ensures
            reports(result, self.entity()),
    ;

    /// Whether the test, as it stands, stops the pass it belongs to: it is
    /// critical and has failed or was cancelled.
    fn should_abort(&self) -> (stop: bool)
        ensures
            stop == stops(self.entity()),
    {
        should_abort(self.criticality(), self.status())
    }
}

impl<T, F> TestTrait<T, F> for Test<F> {
    open spec fn entity(&self) -> Entity<F> {
        Entity::Single(*self)
    }

    fn run(&mut self, data: &T) -> (status: Status) where F: Fn(&T) -> Status {
        Test::run(self, data)
    }

    fn criticality(&self) -> (criticality: Criticality) {
        Test::criticality(self)
    }

    fn abort(&mut self) {
        Test::abort(self)
    }

    fn status(&self) -> (status: Status) {
        Test::status(self)
    }

    fn result(&self) -> (result: RunResult) {
        RunResult::TestResult(Test::result(self))
    }
}

impl<T, F> TestTrait<T, F> for TestGroup<F> {
    open spec fn entity(&self) -> Entity<F> {
        Entity::Group(*self)
    }

    fn run(&mut self, data: &T) -> (status: Status) where F: Fn(&T) -> Status {
        TestGroup::run(self, data)
    }

    fn criticality(&self) -> (criticality: Criticality) {
        TestGroup::criticality(self)
    }

    fn abort(&mut self) {
        TestGroup::abort(self)
    }

    fn status(&self) -> (status: Status) {
        TestGroup::status(self)
    }

    fn result(&self) -> (result: RunResult) {
        TestGroup::result(self)
    }
}

impl<T, F> TestTrait<T, F> for Entity<F> {
    open spec fn entity(&self) -> Entity<F> {
        *self
    }

    fn run(&mut self, data: &T) -> (status: Status) where F: Fn(&T) -> Status {
        Entity::run(self, data)
    }

    fn criticality(&self) -> (criticality: Criticality) {
        Entity::criticality(self)
    }

    fn abort(&mut self) {
        Entity::abort(self)
    }

    fn status(&self) -> (status: Status) {
        Entity::status(self)
    }

    fn result(&self) -> (result: RunResult) {
        Entity::result(self)
    }
}

impl<F> From<Test<F>> for Entity<F> {
    fn from(test: Test<F>) -> (entity: Self) {
        Entity::Single(test)
    }
}

impl<F> vstd::std_specs::convert::FromSpecImpl<Test<F>> for Entity<F> {
    open spec fn obeys_from_spec() -> bool {
        true
    }

    open spec fn from_spec(test: Test<F>) -> Self {
        Entity::Single(test)
    }
}

impl<F> From<TestGroup<F>> for Entity<F> {
    fn from(group: TestGroup<F>) -> (entity: Self) {
        Entity::Group(group)
    }
}

impl<F> vstd::std_specs::convert::FromSpecImpl<TestGroup<F>> for Entity<F> {
    open spec fn obeys_from_spec() -> bool {
        true
    }

    open spec fn from_spec(group: TestGroup<F>) -> Self {
        Entity::Group(group)
    }
}

} // verus!
