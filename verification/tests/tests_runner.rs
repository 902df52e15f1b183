use tests_runner::{Criticality, Entity, Status, Test, TestGroup, TestsRunner, TestsRunnerStatus};

fn success(_data: &()) -> Status {
    Status::Passed
}

fn fail(_data: &()) -> Status {
    Status::Failed
}

fn test<T>(name: &str, criticality: Criticality, cb: fn(&T) -> Status) -> Entity<fn(&T) -> Status> {
    Entity::Single(Test::new(name.into(), criticality, cb))
}

fn group(
    name: &str,
    criticality: Criticality,
    tests: Vec<Entity<fn(&()) -> Status>>,
) -> Entity<fn(&()) -> Status> {
    let mut group = TestGroup::new(name.into(), Criticality::Normal);
    group.set_criticality(criticality);
    for test in tests {
        group.add_test(test);
    }
    Entity::Group(group)
}

fn statuses<T>(tr: &TestsRunner<T, fn(&T) -> Status>) -> Vec<Status> {
    tr.tests.iter().map(|test| test.status()).collect::<Vec<Status>>()
}

#[test]
fn run_tests() {
    let mut tr = TestsRunner::new(&()).add_test(test("test1", Criticality::Normal, success));

    assert_eq!(tr.run(), TestsRunnerStatus::Completed);
    assert_eq!(tr.tests[0].status(), Status::Passed);
    assert_eq!(tr.status, TestsRunnerStatus::Completed);
    assert!(tr.start.is_some());
    assert!(tr.end.is_some());
}

#[test]
fn test_string() {
    fn success(_data: &String) -> Status {
        Status::Passed
    }

    let data = "".to_string();
    let mut tr = TestsRunner::new(&data).add_test(test("test1", Criticality::Normal, success));

    assert_eq!(tr.run(), TestsRunnerStatus::Completed);
}

#[test]
fn tr_should_abort_on_critical_test_failure() {
    let mut tr = TestsRunner::new(&()).add_test(test("test1", Criticality::Critical, fail));
    tr.run();

    assert_eq!(tr.status, TestsRunnerStatus::Aborted);
    assert_eq!(tr.tests[0].status(), Status::Failed);
    assert!(tr.start.is_some());
    assert!(tr.end.is_some());
}

#[test]
fn aborted_tr_should_remains_aborted() {
    let mut tr = TestsRunner::new(&()).add_test(test("test1", Criticality::Critical, fail));

    tr.run();

    assert_eq!(tr.status, TestsRunnerStatus::Aborted);

    tr = tr.add_test(test("test1", Criticality::Critical, fail));
    tr.run();

    assert_eq!(tr.status, TestsRunnerStatus::Aborted);
}

#[test]
fn adding_test_to_non_aborted_tr_shoud_change_status_to_init() {
    let mut tr = TestsRunner::new(&()).add_test(test("test1", Criticality::Normal, fail));

    tr.run();

    assert_eq!(tr.status, TestsRunnerStatus::Completed);

    tr = tr.add_test(test("test1", Criticality::Normal, fail));
    assert_eq!(tr.status, TestsRunnerStatus::Init);

    tr.run();
    assert_eq!(tr.status, TestsRunnerStatus::Completed);
}

#[test]
fn critical_test_failure_should_leads_to_tr_abortion() {
    let mut tr = TestsRunner::new(&())
        .add_test(test("test1", Criticality::Critical, fail))
        .add_test(test("test1", Criticality::Critical, fail));

    tr.run();

    assert_eq!(tr.status, TestsRunnerStatus::Aborted);

    let tests_status = statuses(&tr);

    assert_eq!(tests_status, vec![Status::Failed, Status::Aborted]);
}

#[test]
fn non_critical_failure_should_not_leads_to_tr_abortion() {
    let mut tr = TestsRunner::new(&())
        .add_test(test("test1", Criticality::Normal, fail))
        .add_test(test("test1", Criticality::Normal, success));

    tr.run();

    assert_eq!(tr.status, TestsRunnerStatus::Completed);

    let tests_status = statuses(&tr);

    assert_eq!(tests_status, vec![Status::Failed, Status::Passed]);
}

#[test]
fn test_group_passing() {
    let mut tr = TestsRunner::new(&()).add_test(group(
        "test_group",
        Criticality::Critical,
        vec![
            test("test_1", Criticality::Normal, success),
            test("test_2", Criticality::Normal, success),
        ],
    ));

    tr.run();

    assert_eq!(tr.status, TestsRunnerStatus::Completed);

    let tests_status = statuses(&tr);

    assert_eq!(tests_status, vec![Status::Passed]);
}

#[test]
fn test_group_failing() {
    let mut tr = TestsRunner::new(&()).add_test(group(
        "test_group",
        Criticality::Normal,
        vec![
            test("test_1", Criticality::Normal, fail),
            test("test_2", Criticality::Normal, fail),
        ],
    ));

    tr.run();

    assert_eq!(tr.status, TestsRunnerStatus::Completed);

    let tests_status = statuses(&tr);

    assert_eq!(tests_status, vec![Status::Failed]);
}

#[test]
fn test_group_aborted() {
    let mut tr = TestsRunner::new(&()).add_test(group(
        "test_group",
        Criticality::Critical,
        vec![
            test("test_1", Criticality::Normal, fail),
            test("test_2", Criticality::Normal, fail),
        ],
    ));

    tr.run();

    assert_eq!(tr.status, TestsRunnerStatus::Aborted);

    let tests_status = statuses(&tr);

    assert_eq!(tests_status, vec![Status::Failed]);
}

#[test]
fn critical_group_failure_abortion() {
    let mut tr = TestsRunner::new(&())
        .add_test(test("test", Criticality::Normal, fail))
        .add_test(group(
            "group",
            Criticality::Critical,
            vec![
                test("test_1", Criticality::Normal, fail),
                test("test_2", Criticality::Normal, fail),
            ],
        ))
        .add_test(test("test", Criticality::Normal, fail));
    tr.run();

    assert_eq!(tr.status, TestsRunnerStatus::Aborted);

    let tests_status = statuses(&tr);

    assert_eq!(tests_status, vec![Status::Failed, Status::Failed, Status::Aborted]);
}

#[test]
fn new_runner_is_at_init() {
    let tr: TestsRunner<(), fn(&()) -> Status> = TestsRunner::new(&());

    assert_eq!(tr.status, TestsRunnerStatus::Init);
    assert!(tr.tests.is_empty());
    assert!(tr.start.is_none());
    assert!(tr.end.is_none());
}

#[test]
fn empty_runner_completes() {
    let mut tr: TestsRunner<(), fn(&()) -> Status> = TestsRunner::new(&());

    assert_eq!(tr.run(), TestsRunnerStatus::Completed);
    assert!(tr.start.is_some());
    assert!(tr.end.is_some());
}

#[test]
fn add_group_adds_the_group_as_one_test() {
    let mut group = TestGroup::new("group".into(), Criticality::Normal);
    group.add_test(test("test_1", Criticality::Normal, success));
    group.add_test(test("test_2", Criticality::Normal, fail));
    let mut tr = TestsRunner::new(&()).add_group(group);

    assert_eq!(tr.tests.len(), 1);
    assert_eq!(tr.run(), TestsRunnerStatus::Completed);
    assert_eq!(statuses(&tr), vec![Status::Failed]);
}

#[test]
fn set_data_puts_a_completed_runner_back_at_init() {
    fn positive(data: &i32) -> Status {
        if *data > 0 {
            Status::Passed
        } else {
            Status::Failed
        }
    }
    let (first, second) = (1, -1);
    let mut tr = TestsRunner::new(&first).add_test(test("test1", Criticality::Normal, positive));
    assert_eq!(tr.run(), TestsRunnerStatus::Completed);

    tr = tr.set_data(&second);
    assert_eq!(tr.status, TestsRunnerStatus::Init);
    assert_eq!(*tr.data, -1);

    tr = tr.add_test(test("test2", Criticality::Normal, positive));
    assert_eq!(tr.run(), TestsRunnerStatus::Completed);
    assert_eq!(statuses(&tr), vec![Status::Passed, Status::Failed]);
}

#[test]
fn set_data_keeps_an_aborted_runner_aborted() {
    let mut tr = TestsRunner::new(&()).add_test(test("test1", Criticality::Critical, fail));
    tr.run();

    tr = tr.set_data(&());

    assert_eq!(tr.status, TestsRunnerStatus::Aborted);
    assert_eq!(tr.run(), TestsRunnerStatus::Aborted);
}

#[test]
fn run_clears_the_end_of_the_pass_before() {
    let mut tr = TestsRunner::new(&()).add_test(test("test1", Criticality::Normal, success));
    tr.run();
    let first = tr.end.expect("no end");

    tr = tr.add_test(test("test2", Criticality::Normal, success));
    tr.run();
    let second = tr.end.expect("no end");
    let start = tr.start.expect("no start");

    assert!(first <= second);
    assert!(start <= second);
}

#[test]
fn first_pending_finds_the_first_test_at_init() {
    let mut tr = TestsRunner::new(&())
        .add_test(test("test1", Criticality::Normal, success))
        .add_test(test("test2", Criticality::Normal, success));

    assert_eq!(tr.first_pending(), Some(0));
    tr.tests[0].run(&());
    assert_eq!(tr.first_pending(), Some(1));
    tr.tests[1].abort();
    assert_eq!(tr.first_pending(), None);
}

#[test]
fn aborted_passes_over_normal_tests_behind_the_failure() {
    fn never(_data: &()) -> Status {
        panic!("called");
    }
    let mut tr = TestsRunner::new(&())
        .add_test(test("test1", Criticality::Normal, success))
        .add_test(test("test2", Criticality::Critical, fail))
        .add_test(test("test3", Criticality::Normal, never))
        .add_test(group(
            "group",
            Criticality::Normal,
            vec![test("test4", Criticality::Normal, never)],
        ));

    assert_eq!(tr.run(), TestsRunnerStatus::Aborted);
    assert_eq!(
        statuses(&tr),
        vec![Status::Passed, Status::Failed, Status::Aborted, Status::Aborted]
    );
}

#[test]
fn clone_copies_the_runner_and_its_tests() {
    let mut tr = TestsRunner::new(&())
        .add_test(test("test1", Criticality::Critical, fail))
        .add_test(test("test2", Criticality::Normal, success));
    let fresh = tr.clone();
    tr.run();
    let done = tr.clone();

    assert_eq!(fresh.status, TestsRunnerStatus::Init);
    assert_eq!(statuses(&fresh), vec![Status::Init, Status::Init]);
    assert_eq!(done.status, TestsRunnerStatus::Aborted);
    assert_eq!(statuses(&done), vec![Status::Failed, Status::Aborted]);
    assert_eq!((done.start, done.end), (tr.start, tr.end));
}
