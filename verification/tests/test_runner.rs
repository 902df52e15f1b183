use tests_runner::{
    Criticality, Entity, RunResult, Status, Test, TestGroup, TestResult, TestRunner,
};

type Check = fn(&()) -> Status;

fn passed(_data: &()) -> Status {
    Status::Passed
}

fn failed(_data: &()) -> Status {
    Status::Failed
}

fn test(name: &str, criticality: Criticality, cb: Check) -> Entity<Check> {
    Entity::Single(Test::new(name.into(), criticality, cb))
}

fn critical(cb: Check) -> Entity<Check> {
    test("test_name", Criticality::Critical, cb)
}

fn test_group(criticality: Criticality, tests: Vec<Entity<Check>>) -> TestGroup<Check> {
    let mut group = TestGroup::new("group_name".into(), criticality);
    for test in tests {
        group.add_test(test);
    }
    group
}

fn record(status: Status) -> TestResult {
    TestResult { criticality: Criticality::Critical, name: "test_name".into(), status }
}

#[test]
fn test_runner_should_run_tests() {
    let mut runner = TestRunner::new(&());

    let t = critical(passed);
    runner.add_test(t);

    let result = runner.run();

    assert_eq!(result.len(), 1);
}

#[test]
fn test_runner_should_run_multiple_tests() {
    let mut runner = TestRunner::new(&());

    let t1 = critical(passed);

    let t2 = critical(passed);

    runner.add_test(t1);
    runner.add_test(t2);

    let result = runner.run();

    assert_eq!(result.len(), 2);
}

#[test]
fn test_runner_should_run_group() {
    let mut runner = TestRunner::new(&());

    let group = test_group(Criticality::Normal, vec![critical(passed), critical(passed)]);

    runner.add_test(Entity::Group(group));

    let result = runner.run();
    assert_eq!(result.len(), 1);
}

#[test]
fn test_runner_should_run_multiple_groups() {
    let mut runner = TestRunner::new(&());

    let group = test_group(Criticality::Normal, vec![critical(passed), critical(passed)]);

    runner.add_test(Entity::Group(group.clone()));
    runner.add_test(Entity::Group(group));

    let result = runner.run();
    assert_eq!(result.len(), 2);
}

#[test]
fn test_should_run_mix_of_tests_and_groups() {
    let mut runner = TestRunner::new(&());

    let group = test_group(Criticality::Normal, vec![critical(passed), critical(passed)]);

    let t = critical(passed);

    runner.add_test(Entity::Group(group));
    runner.add_test(t);

    let result = runner.run();
    assert_eq!(result.len(), 2);
}

#[test]
fn test_single_group_run() {
    let group = test_group(Criticality::Normal, vec![critical(passed), critical(passed)]);

    let data = ();
    let mut tests_runner = TestRunner::new(&data);
    tests_runner.add_test(Entity::Group(group));
    let result = tests_runner.run();

    let expected = RunResult::GroupResult(vec![record(Status::Passed), record(Status::Passed)]);

    assert_eq!(result, vec![expected]);
}

#[test]
fn test_multiple_groups_run() {
    let group_1 = test_group(Criticality::Normal, vec![critical(passed), critical(passed)]);

    let group_2 = group_1.clone();

    let data = ();
    let mut tests_runner = TestRunner::new(&data);

    tests_runner.add_test(Entity::Group(group_1));
    tests_runner.add_test(Entity::Group(group_2));

    let result = tests_runner.run();

    let expected_1 = RunResult::GroupResult(vec![record(Status::Passed), record(Status::Passed)]);

    let expected_2 = RunResult::GroupResult(vec![record(Status::Passed), record(Status::Passed)]);

    assert_eq!(result, vec![expected_1, expected_2]);
}

#[test]
fn test_group_with_failed_critical_test() {
    let group = test_group(Criticality::Critical, vec![critical(failed), critical(passed)]);

    let data = ();
    let mut tests_runner = TestRunner::new(&data);

    tests_runner.add_test(Entity::Group(group));

    let result = tests_runner.run();

    let expected = RunResult::GroupResult(vec![record(Status::Failed), record(Status::Aborted)]);

    assert_eq!(result, vec![expected]);
}

#[test]
fn normal_multigroups_with_failed_critical_test() {
    let group_1 = test_group(Criticality::Normal, vec![critical(failed), critical(passed)]);

    let group_2 = group_1.clone();

    let data = ();
    let mut tests_runner = TestRunner::new(&data);

    tests_runner.add_test(Entity::Group(group_1));
    tests_runner.add_test(Entity::Group(group_2));

    let result = tests_runner.run();

    let expected_1 = RunResult::GroupResult(vec![record(Status::Failed), record(Status::Aborted)]);

    // The second group runs because the first group is normal
    let expected_2 = RunResult::GroupResult(vec![record(Status::Failed), record(Status::Aborted)]);

    assert_eq!(result, vec![expected_1, expected_2]);
}

#[test]
fn critical_multigroups_with_failed_critical_test() {
    let group_1 = test_group(Criticality::Critical, vec![critical(failed), critical(passed)]);

    let group_2 = group_1.clone();

    let data = ();
    let mut tests_runner = TestRunner::new(&data);

    tests_runner.add_test(Entity::Group(group_1));
    tests_runner.add_test(Entity::Group(group_2));

    let result = tests_runner.run();

    let expected_1 = RunResult::GroupResult(vec![record(Status::Failed), record(Status::Aborted)]);

    // The second group is not run because the first group is critical and failed
    let expected_2 = RunResult::GroupResult(vec![record(Status::Aborted), record(Status::Aborted)]);

    assert_eq!(result, vec![expected_1, expected_2]);
}

#[test]
fn runner_reports_single_tests_by_their_record() {
    let mut runner = TestRunner::new(&());
    runner.add_test(test("first", Criticality::Normal, failed));
    runner.add_test(test("second", Criticality::Critical, passed));

    let result = runner.run();

    assert_eq!(
        result,
        vec![
            RunResult::TestResult(TestResult {
                criticality: Criticality::Normal,
                name: "first".into(),
                status: Status::Failed,
            }),
            RunResult::TestResult(TestResult {
                criticality: Criticality::Critical,
                name: "second".into(),
                status: Status::Passed,
            }),
        ]
    );
}

#[test]
fn runner_cancels_what_is_behind_a_critical_failure() {
    fn never(_data: &()) -> Status {
        panic!("called");
    }
    let mut runner = TestRunner::new(&());
    runner.add_test(test("first", Criticality::Critical, failed));
    runner.add_test(test("second", Criticality::Normal, never));

    let result = runner.run();

    let statuses: Vec<Option<Status>> = result.iter().map(|r| r.status()).collect();
    assert_eq!(statuses, vec![Some(Status::Failed), Some(Status::Aborted)]);
    assert_eq!(runner.tests[1].status(), Status::Aborted);
}

#[test]
fn runner_leaves_settled_tests_alone() {
    fn never(_data: &()) -> Status {
        panic!("called");
    }
    let mut settled = Test::new("first".into(), Criticality::Critical, never as Check);
    settled.abort();
    let mut runner = TestRunner::new(&());
    runner.add_test(Entity::Single(settled));
    runner.add_test(test("second", Criticality::Normal, passed));

    let result = runner.run();

    let statuses: Vec<Option<Status>> = result.iter().map(|r| r.status()).collect();
    assert_eq!(statuses, vec![Some(Status::Aborted), Some(Status::Passed)]);
}

#[test]
fn empty_runner_reports_nothing() {
    let mut runner: TestRunner<(), Check> = TestRunner::new(&());

    assert!(runner.run().is_empty());
}

#[test]
fn runner_flattens_nested_groups() {
    let inner = test_group(Criticality::Normal, vec![critical(passed)]);
    let outer = test_group(
        Criticality::Normal,
        vec![critical(failed), Entity::Group(inner), critical(passed)],
    );
    let mut runner = TestRunner::new(&());
    runner.add_test(Entity::Group(outer));

    let result = runner.run();

    assert_eq!(
        result,
        vec![RunResult::GroupResult(vec![
            record(Status::Failed),
            record(Status::Aborted),
            record(Status::Aborted),
        ])]
    );
}

#[test]
fn a_result_stands_for_the_status_of_its_test() {
    fn skipped(_data: &()) -> Status {
        Status::NotApplicable
    }
    let cases = vec![
        test_group(Criticality::Critical, vec![critical(passed), critical(skipped)]),
        test_group(Criticality::Normal, vec![]),
        test_group(
            Criticality::Normal,
            vec![Entity::Group(test_group(Criticality::Normal, vec![critical(skipped)]))],
        ),
        test_group(
            Criticality::Normal,
            vec![
                Entity::Group(test_group(Criticality::Normal, vec![])),
                Entity::Group(test_group(Criticality::Normal, vec![critical(failed), critical(passed)])),
                critical(passed),
            ],
        ),
        test_group(
            Criticality::Normal,
            vec![test("first", Criticality::Normal, failed), critical(passed)],
        ),
    ];
    let expected = vec![
        Status::Failed,
        Status::Passed,
        Status::Failed,
        Status::Aborted,
        Status::Failed,
    ];
    for (group, expected) in cases.into_iter().zip(expected) {
        let fresh = Entity::Group(group.clone());
        assert_eq!(fresh.result().status(), Some(fresh.status()));

        let mut runner = TestRunner::new(&());
        runner.add_test(Entity::Group(group));
        let result = runner.run();

        assert_eq!(result[0].status(), Some(expected));
        assert_eq!(result[0].status(), Some(runner.tests[0].status()));
    }
}

#[test]
fn a_group_that_has_not_run_reports_init() {
    let group = test_group(Criticality::Normal, vec![critical(passed), critical(failed)]);

    let result = Entity::Group(group).result();

    assert_eq!(
        result,
        RunResult::GroupResult(vec![record(Status::Init), record(Status::Init)])
    );
    assert_eq!(result.status(), Some(Status::Init));
}
