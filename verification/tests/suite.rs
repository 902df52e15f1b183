use std::cell::Cell;
use tests_runner::{Criticality, Status, Test, TestSuite};

type Check = fn(&Cell<u32>) -> Status;

fn passed(calls: &Cell<u32>) -> Status {
    calls.set(calls.get() + 1);
    Status::Passed
}

fn failed(calls: &Cell<u32>) -> Status {
    calls.set(calls.get() + 1);
    Status::Failed
}

fn skipped(calls: &Cell<u32>) -> Status {
    calls.set(calls.get() + 1);
    Status::NotApplicable
}

fn aborted(calls: &Cell<u32>) -> Status {
    calls.set(calls.get() + 1);
    Status::Aborted
}

fn running(calls: &Cell<u32>) -> Status {
    calls.set(calls.get() + 1);
    Status::Running
}

fn suite(level: Criticality, checks: &[Check]) -> TestSuite<Check> {
    let mut suite = TestSuite::new(level);
    for cb in checks {
        suite.add_test(Test::new("test".into(), Criticality::Normal, *cb));
    }
    suite
}

fn statuses(suite: &TestSuite<Check>) -> Vec<Status> {
    suite.tests.iter().map(|test| test.status()).collect()
}

#[test]
fn new_suite_has_no_result() {
    let suite: TestSuite<Check> = TestSuite::new(Criticality::Critical);

    assert!(suite.tests.is_empty());
    assert_eq!(suite.level(), Criticality::Critical);
    assert_eq!(suite.result(), None);
}

#[test]
fn suite_add_test_appends() {
    let mut suite = suite(Criticality::Normal, &[passed]);
    suite.add_test(Test::new("last".into(), Criticality::Critical, failed as Check));

    assert_eq!(suite.tests.len(), 2);
    assert_eq!(suite.tests[1].name, "last");
    assert_eq!(suite.level(), Criticality::Normal);
}

#[test]
fn suite_that_passes_runs_every_check() {
    let calls = Cell::new(0);
    let mut suite = suite(Criticality::Normal, &[passed, running, passed]);

    assert_eq!(suite.run(&calls), Status::Passed);
    assert_eq!(calls.get(), 3);
    assert_eq!(statuses(&suite), vec![Status::Passed, Status::Running, Status::Passed]);
    assert_eq!(suite.result(), None);
}

#[test]
fn suite_stops_at_the_first_failure() {
    let calls = Cell::new(0);
    let mut suite = suite(Criticality::Normal, &[passed, failed, passed]);

    assert_eq!(suite.run(&calls), Status::Failed);
    assert_eq!(calls.get(), 2);
    assert_eq!(statuses(&suite), vec![Status::Passed, Status::Failed, Status::Init]);
    assert_eq!(suite.result(), Some(Status::Failed));
}

#[test]
fn suite_stops_whatever_its_level() {
    for level in [Criticality::Critical, Criticality::Normal] {
        let calls = Cell::new(0);
        let mut suite = suite(level, &[failed, passed]);

        assert_eq!(suite.run(&calls), Status::Failed);
        assert_eq!(calls.get(), 1);
    }
}

#[test]
fn suite_stops_at_a_check_that_cannot_be_applied() {
    let calls = Cell::new(0);
    let mut suite = suite(Criticality::Normal, &[skipped, failed]);

    assert_eq!(suite.run(&calls), Status::NotApplicable);
    assert_eq!(calls.get(), 1);
    assert_eq!(suite.result(), Some(Status::NotApplicable));
}

#[test]
fn suite_stops_at_a_check_that_was_cancelled() {
    let calls = Cell::new(0);
    let mut suite = suite(Criticality::Normal, &[passed, aborted, failed]);

    assert_eq!(suite.run(&calls), Status::Aborted);
    assert_eq!(calls.get(), 2);
    assert_eq!(suite.result(), Some(Status::Aborted));
}

#[test]
fn empty_suite_passes() {
    let calls = Cell::new(0);
    let mut suite = suite(Criticality::Critical, &[]);

    assert_eq!(suite.run(&calls), Status::Passed);
    assert_eq!(calls.get(), 0);
}

#[test]
fn set_issue_records_the_result() {
    let mut suite = suite(Criticality::Normal, &[passed]);
    suite.set_issue(Status::Aborted);

    assert_eq!(suite.result(), Some(Status::Aborted));
    assert_eq!(suite.level(), Criticality::Normal);
    assert_eq!(suite.tests.len(), 1);
}

#[test]
fn clone_copies_the_suite_and_its_checks() {
    let calls = Cell::new(0);
    let mut suite = suite(Criticality::Critical, &[passed, failed]);
    let fresh = suite.clone();
    suite.run(&calls);
    let done = suite.clone();

    assert_eq!(statuses(&fresh), vec![Status::Init, Status::Init]);
    assert_eq!(fresh.result(), None);
    assert_eq!(statuses(&done), vec![Status::Passed, Status::Failed]);
    assert_eq!(done.result(), Some(Status::Failed));
    assert_eq!(done.level(), Criticality::Critical);
}
