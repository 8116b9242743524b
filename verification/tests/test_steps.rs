use snapshot_harness::cases::{ExpandedTest, Expected, Test};
use snapshot_harness::error::Error;
use snapshot_harness::manifest::Dependencies;
use snapshot_harness::project::{Environment, Project, Runner};
use snapshot_harness::run::{Action, Event, Stage, Step};
use snapshot_harness::session::{verdict, Verdict};

fn project() -> Project {
    Project {
        dir: "/work/target/tests/demo".to_string(),
        target_dir: "/work/target".to_string(),
        name: "demo-tests".to_string(),
    }
}

fn passing(path: &str) -> Test {
    Test { path: path.to_string(), expected: Expected::Pass }
}

fn failing(path: &str) -> Test {
    Test { path: path.to_string(), expected: Expected::CompileFail }
}

fn built(success: bool, stderr: &str) -> Event {
    Event::Built { success, stderr: stderr.as_bytes().to_vec() }
}

/// Drives `test` through `events` and hands back the last step.
fn drive(test: &Test, events: Vec<Event>) -> Step {
    let mut step = Step { stage: Stage::Pending, action: Action::Wait };
    for event in events {
        step = test.run(&project(), step.stage, event);
    }
    step
}

#[test]
fn a_test_begins_by_looking_for_its_source() {
    let step = drive(&passing("tests/ui/ok.rs"), vec![Event::Begin]);
    assert!(matches!(step.stage, Stage::Pending));
    assert!(matches!(&step.action, Action::CheckSource { path } if path == "tests/ui/ok.rs"));
}

#[test]
fn a_source_that_is_there_is_built() {
    let step = drive(&passing("tests/ui/run-ok.rs"), vec![Event::Begin, Event::SourceFound]);
    assert!(matches!(step.stage, Stage::Building));
    match &step.action {
        Action::Build { dir, name } => {
            assert_eq!(dir, "/work/target/tests/demo");
            assert_eq!(name, "run_ok");
        }
        other => panic!("expected a build, got {:?}", other),
    }
}

#[test]
fn a_source_that_is_missing_fails_the_test() {
    let step = drive(
        &failing("tests/ui/gone.rs"),
        vec![Event::Begin, Event::SourceMissing { message: "No such file or directory".to_string() }],
    );
    assert!(matches!(step.action, Action::Done));
    match &step.stage {
        Stage::Failed { error: Error::Open { path, message } } => {
            assert_eq!(path, "tests/ui/gone.rs");
            assert_eq!(message, "No such file or directory");
        }
        other => panic!("expected a failure to open, got {:?}", other),
    }
}

#[test]
fn a_passing_test_that_builds_and_runs_succeeds() {
    let test = passing("tests/ui/run-ok.rs");
    let step = drive(&test, vec![Event::Begin, Event::SourceFound, built(true, "warning: unused variable\r\n")]);
    assert!(matches!(step.stage, Stage::PassChecked));
    match &step.action {
        Action::RunBinary { dir, name, warnings } => {
            assert_eq!(dir, "/work/target/tests/demo");
            assert_eq!(name, "run_ok");
            assert_eq!(warnings, "warning: unused variable\n");
        }
        other => panic!("expected a run, got {:?}", other),
    }
    let step = test.run(&project(), step.stage, Event::Ran { success: true });
    assert!(matches!(step.stage, Stage::Succeeded));
    assert!(matches!(step.action, Action::Done));
    assert_eq!(verdict(&[step.stage]), Verdict::Passed { total: 1 });
}

#[test]
fn a_passing_test_whose_program_fails_has_failed() {
    let step = drive(
        &passing("tests/ui/run-ok.rs"),
        vec![Event::Begin, Event::SourceFound, built(true, ""), Event::Ran { success: false }],
    );
    assert!(matches!(step.stage, Stage::Failed { error: Error::RunFailed }));
    assert!(matches!(step.action, Action::Done));
}

#[test]
fn a_passing_test_that_does_not_build_has_failed() {
    let step = drive(
        &passing("tests/ui/run-ok.rs"),
        vec![
            Event::Begin,
            Event::SourceFound,
            built(false, "   Compiling demo-tests v0.0.0 (/work/target/tests/demo)\nerror: expected `;`\n --> /work/demo/tests/ui/run-ok.rs:2:5\n"),
        ],
    );
    assert!(matches!(step.action, Action::Done));
    match &step.stage {
        Stage::Failed { error: Error::CargoFail { diagnostics } } => {
            assert_eq!(diagnostics, "error: expected `;`\n --> $DIR/run-ok.rs:2:5\n");
        }
        other => panic!("expected a failed build, got {:?}", other),
    }
    assert_eq!(verdict(&[step.stage]), Verdict::Failed { failures: 1, total: 1 });
}

#[test]
fn a_failing_test_that_builds_has_failed() {
    let test = failing("tests/ui/should-fail.rs");
    let step = drive(&test, vec![Event::Begin, Event::SourceFound, built(true, "warning: unused\n")]);
    assert!(matches!(step.action, Action::Done));
    match &step.stage {
        Stage::Failed { error: Error::ShouldNotHaveCompiled { warnings } } => {
            assert_eq!(warnings, "warning: unused\n");
        }
        other => panic!("expected a build that should have failed, got {:?}", other),
    }
    let step = test.run(&project(), step.stage, Event::Ran { success: true });
    assert!(matches!(step.stage, Stage::Failed { error: Error::ShouldNotHaveCompiled { .. } }));
    assert!(matches!(step.action, Action::Done));
}

#[test]
fn a_failing_test_that_does_not_build_reads_its_fixture() {
    let step = drive(
        &failing("tests/ui/should-fail.rs"),
        vec![Event::Begin, Event::SourceFound, built(false, "error: mismatched types")],
    );
    assert!(matches!(&step.stage, Stage::CompileFailChecked { stderr } if stderr == "error: mismatched types\n"));
    assert!(matches!(&step.action, Action::ReadFixture { path } if path == "tests/ui/should-fail.stderr"));
}

#[test]
fn a_missing_fixture_is_staged_and_the_test_succeeds() {
    let step = drive(
        &failing("tests/ui/should-fail.rs"),
        vec![
            Event::Begin,
            Event::SourceFound,
            built(false, "error: mismatched types"),
            Event::FixtureAbsent,
        ],
    );
    assert!(matches!(step.stage, Stage::Succeeded));
    match &step.action {
        Action::StageFixture { dir, path, fixture, text } => {
            assert_eq!(dir, "wip");
            assert_eq!(path, "wip/should-fail.stderr");
            assert_eq!(fixture, "tests/ui/should-fail.stderr");
            assert_eq!(text, "error: mismatched types\n");
        }
        other => panic!("expected staging, got {:?}", other),
    }
    assert_eq!(verdict(&[step.stage]), Verdict::Passed { total: 1 });
}

#[test]
fn a_fixture_that_differs_fails_the_test_with_both_texts() {
    let step = drive(
        &failing("tests/ui/should-fail.rs"),
        vec![
            Event::Begin,
            Event::SourceFound,
            built(false, "error: mismatched types"),
            Event::FixtureRead { text: "error: cannot find value `x`\r\n".to_string() },
        ],
    );
    assert!(matches!(step.action, Action::Done));
    match &step.stage {
        Stage::Failed { error: Error::Mismatch { expected, actual } } => {
            assert_eq!(expected, "error: cannot find value `x`\n");
            assert_eq!(actual, "error: mismatched types\n");
        }
        other => panic!("expected a mismatch, got {:?}", other),
    }
    assert_eq!(verdict(&[step.stage]), Verdict::Failed { failures: 1, total: 1 });
}

#[test]
fn a_fixture_that_is_the_diagnostics_matches() {
    for stored in ["error: mismatched types\n", "error: mismatched types\r\n"] {
        let step = drive(
            &failing("tests/ui/should-fail.rs"),
            vec![
                Event::Begin,
                Event::SourceFound,
                built(false, "error: mismatched types\n"),
                Event::FixtureRead { text: stored.to_string() },
            ],
        );
        assert!(matches!(step.stage, Stage::Succeeded));
        assert!(matches!(step.action, Action::Done));
    }
}

#[test]
fn a_fixture_must_match_to_the_last_character() {
    let step = drive(
        &failing("tests/ui/should-fail.rs"),
        vec![
            Event::Begin,
            Event::SourceFound,
            built(false, "error: mismatched types\n"),
            Event::FixtureRead { text: "error: mismatched types".to_string() },
        ],
    );
    assert!(matches!(step.stage, Stage::Failed { error: Error::Mismatch { .. } }));
}

#[test]
fn staged_diagnostics_match_when_they_are_stored() {
    let raw = "    Checking demo v0.1.0\r\nerror[E0277]: the trait bound is not satisfied\r\n  --> /somewhere/else/tests/ui/should-fail.rs:7:13\r\n";
    let test = failing("tests/ui/should-fail.rs");
    let staged = match drive(&test, vec![Event::Begin, Event::SourceFound, built(false, raw), Event::FixtureAbsent]).action {
        Action::StageFixture { text, .. } => text,
        other => panic!("expected staging, got {:?}", other),
    };
    let again = drive(
        &test,
        vec![Event::Begin, Event::SourceFound, built(false, raw), Event::FixtureRead { text: staged }],
    );
    assert!(matches!(again.stage, Stage::Succeeded));
}

#[test]
fn work_that_cannot_be_done_fails_the_test() {
    let cannot = |message: &str| Event::Aborted { error: Error::Cargo { message: message.to_string() } };
    let step = drive(&passing("a.rs"), vec![Event::Begin, Event::SourceFound, cannot("no build tool")]);
    assert!(matches!(&step.stage, Stage::Failed { error: Error::Cargo { message } } if message == "no build tool"));
    assert!(matches!(step.action, Action::Done));

    let step = drive(
        &failing("a.rs"),
        vec![
            Event::Begin,
            Event::SourceFound,
            built(false, "error"),
            Event::Aborted { error: Error::ReadStderr { message: "permission denied".to_string() } },
        ],
    );
    assert!(matches!(&step.stage, Stage::Failed { error: Error::ReadStderr { message } } if message == "permission denied"));

    let step = drive(&passing("a.rs"), vec![cannot("too early")]);
    assert!(matches!(&step.stage, Stage::Failed { error: Error::Cargo { message } } if message == "too early"));
}

#[test]
fn an_event_that_does_not_belong_changes_nothing() {
    let test = failing("a.rs");
    let step = drive(&test, vec![Event::Ran { success: true }]);
    assert!(matches!(step.stage, Stage::Pending));
    assert!(matches!(step.action, Action::Wait));
    let step = drive(&test, vec![Event::Begin, Event::SourceFound, Event::FixtureAbsent]);
    assert!(matches!(step.stage, Stage::Building));
    assert!(matches!(step.action, Action::Wait));
    let step = drive(&test, vec![Event::Begin, Event::SourceFound, built(false, "e"), Event::SourceFound]);
    assert!(matches!(&step.stage, Stage::CompileFailChecked { stderr } if stderr == "e\n"));
    assert!(matches!(step.action, Action::Wait));
    let step = drive(&passing("a.rs"), vec![Event::Begin, Event::SourceFound, built(true, ""), Event::Begin]);
    assert!(matches!(step.stage, Stage::PassChecked));
    assert!(matches!(step.action, Action::Wait));
}

#[test]
fn a_test_that_is_over_stays_over() {
    let test = passing("a.rs");
    let events = vec![
        Event::Begin,
        Event::SourceFound,
        built(true, ""),
        Event::Ran { success: true },
        Event::Ran { success: false },
        Event::Aborted { error: Error::RunFailed },
        Event::Begin,
    ];
    let step = drive(&test, events);
    assert!(matches!(step.stage, Stage::Succeeded));
    assert!(matches!(step.action, Action::Done));
}

#[test]
fn a_test_that_was_not_resolved_fails_at_once() {
    let expanded = ExpandedTest {
        test: passing("tests/ui/**x"),
        error: Some(Error::Pattern { message: "Pattern syntax error near position 9".to_string() }),
    };
    let step = expanded.run(&project(), Stage::Pending, Event::Begin);
    assert!(matches!(step.action, Action::Done));
    assert!(matches!(&step.stage, Stage::Failed { error: Error::Pattern { message } } if message == "Pattern syntax error near position 9"));
    assert_eq!(verdict(&[step.stage]), Verdict::Failed { failures: 1, total: 1 });
}

#[test]
fn a_resolved_test_steps_as_its_test_does() {
    let expanded = ExpandedTest { test: failing("tests/ui/x-y.rs"), error: None };
    let step = expanded.run(&project(), Stage::Pending, Event::SourceFound);
    assert!(matches!(step.stage, Stage::Building));
    assert!(matches!(&step.action, Action::Build { name, .. } if name == "x_y"));
}

#[test]
fn check_pass_by_itself() {
    let test = passing("t/p-q.rs");
    let step = test.check_pass(&project(), false, "error: no\n".to_string());
    assert!(matches!(&step.stage, Stage::Failed { error: Error::CargoFail { diagnostics } } if diagnostics == "error: no\n"));
    let step = test.check_pass(&project(), true, String::new());
    assert!(matches!(step.stage, Stage::PassChecked));
    assert!(matches!(&step.action, Action::RunBinary { name, warnings, .. } if name == "p_q" && warnings.is_empty()));
}

#[test]
fn check_compile_fail_by_itself() {
    let test = failing("t/p-q.rs");
    let step = test.check_compile_fail(&project(), true, "w\n".to_string());
    assert!(matches!(&step.stage, Stage::Failed { error: Error::ShouldNotHaveCompiled { warnings } } if warnings == "w\n"));
    let step = test.check_compile_fail(&project(), false, "e\n".to_string());
    assert!(matches!(&step.stage, Stage::CompileFailChecked { stderr } if stderr == "e\n"));
    assert!(matches!(&step.action, Action::ReadFixture { path } if path == "t/p-q.stderr"));
}

#[test]
fn staging_a_test_without_file_name() {
    let test = failing("..");
    let step = test.check_fixture("e\n".to_string(), None);
    assert!(matches!(step.stage, Stage::Succeeded));
    match &step.action {
        Action::StageFixture { dir, path, text, .. } => {
            assert_eq!(dir, "wip");
            assert_eq!(path, "wip/test.stderr");
            assert_eq!(text, "e\n");
        }
        other => panic!("expected staging, got {:?}", other),
    }
}

#[test]
fn verdict_counts_the_failures() {
    let stages = vec![
        Stage::Succeeded,
        Stage::Failed { error: Error::RunFailed },
        Stage::Succeeded,
        Stage::Failed { error: Error::PkgName },
        Stage::Failed { error: Error::ProjectDir },
    ];
    assert_eq!(verdict(&stages), Verdict::Failed { failures: 3, total: 5 });
    assert_eq!(verdict(&[Stage::Succeeded, Stage::Succeeded]), Verdict::Passed { total: 2 });
}

#[test]
fn a_test_that_was_left_has_failed() {
    let stages = vec![
        Stage::Succeeded,
        Stage::Building,
        Stage::Pending,
        Stage::PassChecked,
        Stage::CompileFailChecked { stderr: String::new() },
    ];
    assert_eq!(verdict(&stages), Verdict::Failed { failures: 4, total: 5 });
}

#[test]
fn a_session_takes_the_tests_in_order() {
    let runner = Runner {
        tests: vec![passing("one.rs"), failing("two.rs")],
        deps: Dependencies::new(),
    };
    let mut session = runner.run(&environment()).unwrap();
    assert_eq!(session.current().unwrap().test.path, "one.rs");
    assert_eq!(session.verdict(), None);
    session.record(Stage::Failed { error: Error::RunFailed });
    assert_eq!(session.current().unwrap().test.path, "two.rs");
    assert_eq!(session.verdict(), None);
    session.record(Stage::Succeeded);
    assert!(session.current().is_none());
    assert_eq!(session.verdict(), Some(Verdict::Failed { failures: 1, total: 2 }));
    session.record(Stage::Failed { error: Error::RunFailed });
    assert_eq!(session.outcomes.len(), 2);
    assert_eq!(session.verdict(), Some(Verdict::Failed { failures: 1, total: 2 }));
}

#[test]
fn verdict_of_no_tests() {
    assert_eq!(verdict(&[]), Verdict::NoTests);
}

fn environment() -> Environment {
    Environment {
        package_name: Some("demo".to_string()),
        manifest_dir: Some("/work/demo".to_string()),
        target_dir: "/work/target".to_string(),
    }
}

/// Runs every test of the session against a build that behaves as `answer`
/// tells, and hands back the stages in which the tests ended.
fn run_all(runner: &Runner, answer: &dyn Fn(&Action) -> Event) -> Vec<Stage> {
    let mut session = runner.run(&environment()).unwrap();
    assert!(session.outcomes.is_empty());
    while let Some(test) = session.current() {
        assert!(session.verdict().is_none());
        let mut step = test.run(&session.plan.project, Stage::Pending, Event::Begin);
        loop {
            let event = match &step.action {
                Action::Done | Action::StageFixture { .. } | Action::Wait => break,
                action => answer(action),
            };
            step = test.run(&session.plan.project, step.stage, event);
        }
        session.record(step.stage);
    }
    assert_eq!(session.outcomes.len(), session.tests.len());
    assert_eq!(session.verdict(), Some(verdict(&session.outcomes)));
    session.outcomes
}

#[test]
fn scenario_one_passing_test() {
    let runner = Runner { tests: vec![passing("tests/ui/works.rs")], deps: Dependencies::new() };
    let outcomes = run_all(&runner, &|action| match action {
        Action::CheckSource { .. } => Event::SourceFound,
        Action::Build { .. } => built(true, ""),
        Action::RunBinary { .. } => Event::Ran { success: true },
        other => panic!("unexpected {:?}", other),
    });
    assert_eq!(verdict(&outcomes), Verdict::Passed { total: 1 });
}

#[test]
fn scenario_compile_fail_without_fixture() {
    let runner = Runner { tests: vec![failing("tests/ui/broken.rs")], deps: Dependencies::new() };
    let session = runner.run(&environment()).unwrap();
    assert_eq!(session.tests.len(), 1);
    let test = &session.tests[0];
    let project = &session.plan.project;
    let step = test.run(project, Stage::Pending, Event::Begin);
    let step = test.run(project, step.stage, Event::SourceFound);
    assert!(matches!(&step.action, Action::Build { dir, name } if dir == "/work/target/tests/demo" && name == "broken"));
    let step = test.run(project, step.stage, built(false, "error: mismatched types"));
    assert!(matches!(&step.action, Action::ReadFixture { path } if path == "tests/ui/broken.stderr"));
    let step = test.run(project, step.stage, Event::FixtureAbsent);
    match &step.action {
        Action::StageFixture { dir, path, fixture, text } => {
            assert_eq!(dir, "wip");
            assert_eq!(path, "wip/broken.stderr");
            assert_eq!(fixture, "tests/ui/broken.stderr");
            assert_eq!(text, "error: mismatched types\n");
        }
        other => panic!("expected staging, got {:?}", other),
    }
    assert_eq!(verdict(&[step.stage]), Verdict::Passed { total: 1 });
}

#[test]
fn scenario_compile_fail_with_another_fixture() {
    let runner = Runner { tests: vec![failing("tests/ui/broken.rs")], deps: Dependencies::new() };
    let outcomes = run_all(&runner, &|action| match action {
        Action::CheckSource { .. } => Event::SourceFound,
        Action::Build { .. } => built(false, "error: mismatched types"),
        Action::ReadFixture { .. } => Event::FixtureRead { text: "error: expected one of `,` or `>`\n".to_string() },
        other => panic!("unexpected {:?}", other),
    });
    assert_eq!(verdict(&outcomes), Verdict::Failed { failures: 1, total: 1 });
    match &outcomes[0] {
        Stage::Failed { error: Error::Mismatch { expected, actual } } => {
            assert_eq!(expected, "error: expected one of `,` or `>`\n");
            assert_eq!(actual, "error: mismatched types\n");
        }
        other => panic!("expected a mismatch, got {:?}", other),
    }
}

#[test]
fn scenario_no_tests() {
    let runner = Runner { tests: Vec::new(), deps: Dependencies::new() };
    let session = runner.run(&environment()).unwrap();
    assert!(session.tests.is_empty());
    assert_eq!(session.plan.manifest.bins.len(), 1);
    let outcomes = run_all(&runner, &|action| panic!("unexpected {:?}", action));
    assert_eq!(verdict(&outcomes), Verdict::NoTests);
}

#[test]
fn a_run_goes_on_after_a_failure() {
    let runner = Runner {
        tests: vec![
            passing("tests/ui/first.rs"),
            failing("tests/ui/**broken"),
            passing("tests/ui/gone.rs"),
            failing("tests/ui/last.rs"),
        ],
        deps: Dependencies::new(),
    };
    let outcomes = run_all(&runner, &|action| match action {
        Action::CheckSource { path } if path == "tests/ui/gone.rs" => {
            Event::SourceMissing { message: "not found".to_string() }
        }
        Action::CheckSource { .. } => Event::SourceFound,
        Action::Build { name, .. } if name == "first" => built(true, ""),
        Action::Build { .. } => built(false, "error: x\n"),
        Action::RunBinary { .. } => Event::Ran { success: true },
        Action::ReadFixture { .. } => Event::FixtureRead { text: "error: x\n".to_string() },
        other => panic!("unexpected {:?}", other),
    });
    assert_eq!(outcomes.len(), 4);
    assert!(matches!(outcomes[0], Stage::Succeeded));
    assert!(matches!(outcomes[1], Stage::Failed { error: Error::Pattern { .. } }));
    assert!(matches!(outcomes[2], Stage::Failed { error: Error::Open { .. } }));
    assert!(matches!(outcomes[3], Stage::Succeeded));
    assert_eq!(verdict(&outcomes), Verdict::Failed { failures: 2, total: 4 });
}

#[test]
fn a_run_does_not_start_without_the_package() {
    let runner = Runner { tests: vec![passing("a.rs")], deps: Dependencies::new() };
    let nameless = Environment { package_name: None, manifest_dir: None, target_dir: "t".to_string() };
    assert!(matches!(runner.run(&nameless), Err(Error::PkgName)));
    let homeless = Environment { package_name: Some("demo".to_string()), manifest_dir: None, target_dir: "t".to_string() };
    assert!(matches!(runner.run(&homeless), Err(Error::ProjectDir)));
}

#[test]
fn clone_of_an_error_is_the_error() {
    let error = Error::Mismatch { expected: "a".to_string(), actual: "b".to_string() };
    assert!(matches!(error.clone(), Error::Mismatch { expected, actual } if expected == "a" && actual == "b"));
    assert!(matches!(Error::RunFailed.clone(), Error::RunFailed));
}
