//! One test from start to finish, as a state machine. The machine decides;
//! whoever drives it looks for files, builds and runs, and hands back what
//! happened as the next event.

use crate::cases::{test_name, ExpandedTest, ExpandedTestView, Expected, Test, TestView};
use crate::error::{Error, ErrorView};
use crate::normal_form::lemma_normalized_is_unified;
use crate::normalize::{decoded, diagnostics, normalized, unified, unify_line_endings};
use crate::paths::{
    file_name, file_name_of, is_plain_extension, join, joined, with_extension, with_extension_of,
};
use crate::project::{Project, ProjectView};
use vstd::prelude::*;

verus! {

/// How far a test has come.
#[derive(Debug)]
pub enum Stage {
    /// Nothing is known yet; the source file is to be looked for.
    Pending,
    /// The source file is there; the build is under way.
    Building,
    /// The test should pass and was built; its program is to be run.
    PassChecked,
    /// The test should not build and did not; its diagnostics, in canonical
    /// form, are to be held against the stored ones.
    CompileFailChecked { stderr: String },
    /// The test did what was expected of it.
    Succeeded,
    /// The test failed.
    Failed { error: Error },
}

/// A [`Stage`] with its texts as character sequences.
pub enum StageView {
    Pending,
    Building,
    PassChecked,
    CompileFailChecked { stderr: Seq<char> },
    Succeeded,
    Failed { error: ErrorView },
}

impl View for Stage {
    type V = StageView;

    open spec fn view(&self) -> StageView {
        match self {
            Stage::Pending => StageView::Pending,
            Stage::Building => StageView::Building,
            Stage::PassChecked => StageView::PassChecked,
            Stage::CompileFailChecked { stderr } => StageView::CompileFailChecked {
                stderr: stderr@,
            },
            Stage::Succeeded => StageView::Succeeded,
            Stage::Failed { error } => StageView::Failed { error: error@ },
        }
    }
}

impl DeepView for Stage {
    type V = StageView;

    open spec fn deep_view(&self) -> StageView {
        self@
    }
}

/// What happened outside since the last step.
#[derive(Debug)]
pub enum Event {
    /// The test's turn has come.
    Begin,
    /// The source file is there.
    SourceFound,
    /// The source file could not be opened.
    SourceMissing { message: String },
    /// The build ended: whether it succeeded, and what it wrote to its error
    /// stream.
    Built { success: bool, stderr: Vec<u8> },
    /// The test's program ended: whether it succeeded.
    Ran { success: bool },
    /// No diagnostics are stored for the test.
    FixtureAbsent,
    /// The stored diagnostics.
    FixtureRead { text: String },
    /// What was asked for could not be done at all.
    Aborted { error: Error },
}

/// An [`Event`] with its texts as character sequences.
pub enum EventView {
    Begin,
    SourceFound,
    SourceMissing { message: Seq<char> },
    Built { success: bool, stderr: Seq<u8> },
    Ran { success: bool },
    FixtureAbsent,
    FixtureRead { text: Seq<char> },
    Aborted { error: ErrorView },
}

impl View for Event {
    type V = EventView;

    open spec fn view(&self) -> EventView {
        match self {
            Event::Begin => EventView::Begin,
            Event::SourceFound => EventView::SourceFound,
            Event::SourceMissing { message } => EventView::SourceMissing { message: message@ },
            Event::Built { success, stderr } => EventView::Built {
                success: *success,
                stderr: stderr@,
            },
            Event::Ran { success } => EventView::Ran { success: *success },
            Event::FixtureAbsent => EventView::FixtureAbsent,
            Event::FixtureRead { text } => EventView::FixtureRead { text: text@ },
            Event::Aborted { error } => EventView::Aborted { error: error@ },
        }
    }
}

/// What is to be done outside before the next step.
#[derive(Debug)]
pub enum Action {
    /// See whether the source file at `path` can be opened.
    CheckSource { path: String },
    /// Build the target `name` of the project in `dir`.
    Build { dir: String, name: String },
    /// Run the program of the target `name` of the project in `dir`, and
    /// show `warnings`, which its build gave.
    RunBinary { dir: String, name: String, warnings: String },
    /// Read the stored diagnostics at `path`, if they exist.
    ReadFixture { path: String },
    /// Write `text` to the file `path` in the directory `dir`, where the
    /// developer finds it and may move it to `fixture`. The test is over.
    StageFixture { dir: String, path: String, fixture: String, text: String },
    /// Nothing: the event did not belong to the stage.
    Wait,
    /// Nothing: the test is over.
    Done,
}

/// An [`Action`] with its texts as character sequences.
pub enum ActionView {
    CheckSource { path: Seq<char> },
    Build { dir: Seq<char>, name: Seq<char> },
    RunBinary { dir: Seq<char>, name: Seq<char>, warnings: Seq<char> },
    ReadFixture { path: Seq<char> },
    StageFixture { dir: Seq<char>, path: Seq<char>, fixture: Seq<char>, text: Seq<char> },
    Wait,
    Done,
}

impl View for Action {
    type V = ActionView;

    open spec fn view(&self) -> ActionView {
        match self {
            Action::CheckSource { path } => ActionView::CheckSource { path: path@ },
            Action::Build { dir, name } => ActionView::Build { dir: dir@, name: name@ },
            Action::RunBinary { dir, name, warnings } => ActionView::RunBinary {
                dir: dir@,
                name: name@,
                warnings: warnings@,
            },
            Action::ReadFixture { path } => ActionView::ReadFixture { path: path@ },
            Action::StageFixture { dir, path, fixture, text } => ActionView::StageFixture {
                dir: dir@,
                path: path@,
                fixture: fixture@,
                text: text@,
            },
            Action::Wait => ActionView::Wait,
            Action::Done => ActionView::Done,
        }
    }
}

/// The outcome of one step: the stage reached and what is to be done next.
#[derive(Debug)]
pub struct Step {
    pub stage: Stage,
    pub action: Action,
}

/// A [`Step`] with its texts as character sequences.
pub struct StepView {
    pub stage: StageView,
    pub action: ActionView,
}

impl View for Step {
    type V = StepView;

    open spec fn view(&self) -> StepView {
        StepView { stage: self.stage@, action: self.action@ }
    }
}

/// The file that holds the stored diagnostics of the test at `path`: the
/// same path with the extension `stderr`.
pub open spec fn fixture_path(path: Seq<char>) -> Seq<char> {
    with_extension_of(path, "stderr"@)
}

/// The extension of the files that store diagnostics holds no path
/// separator.
pub proof fn lemma_fixture_extension()
    ensures
        is_plain_extension("stderr"@),
{
    reveal_strlit("stderr");
}

/// The file in which fresh diagnostics of the test at `path` are staged:
/// in the directory `wip`, under the name of the file that would store them.
pub open spec fn staged_path(path: Seq<char>) -> Seq<char> {
    joined(
        "wip"@,
        match file_name_of(fixture_path(path)) {
            Some(name) => name,
            None => "test.stderr"@,
        },
    )
}

/// The step after the build of a test that should pass.
pub open spec fn pass_checked(
    test: TestView,
    project: ProjectView,
    success: bool,
    stderr: Seq<char>,
) -> StepView {
    if success {
        StepView {
            stage: StageView::PassChecked,
            action: ActionView::RunBinary {
                dir: project.dir,
                name: test_name(test.path),
                warnings: stderr,
            },
        }
    } else {
        StepView {
            stage: StageView::Failed { error: ErrorView::CargoFail { diagnostics: stderr } },
            action: ActionView::Done,
        }
    }
}

/// The step after the build of a test that should not build.
pub open spec fn compile_fail_checked(
    test: TestView,
    project: ProjectView,
    success: bool,
    stderr: Seq<char>,
) -> StepView {
    if success {
        StepView {
            stage: StageView::Failed {
                error: ErrorView::ShouldNotHaveCompiled { warnings: stderr },
            },
            action: ActionView::Done,
        }
    } else {
        StepView {
            stage: StageView::CompileFailChecked { stderr },
            action: ActionView::ReadFixture { path: fixture_path(test.path) },
        }
    }
}

/// The step that holds fresh diagnostics against the stored ones. Without
/// stored ones the fresh ones are staged and the test succeeds. With stored
/// ones the test succeeds exactly if they are, once their line endings are
/// unified, the fresh ones.
pub open spec fn fixture_checked(
    test: TestView,
    stderr: Seq<char>,
    fixture: Option<Seq<char>>,
) -> StepView {
    match fixture {
        None => StepView {
            stage: StageView::Succeeded,
            action: ActionView::StageFixture {
                dir: "wip"@,
                path: staged_path(test.path),
                fixture: fixture_path(test.path),
                text: stderr,
            },
        },
        Some(text) => if unified(text) == stderr {
            StepView { stage: StageView::Succeeded, action: ActionView::Done }
        } else {
            StepView {
                stage: StageView::Failed {
                    error: ErrorView::Mismatch { expected: unified(text), actual: stderr },
                },
                action: ActionView::Done,
            }
        },
    }
}

/// The step that `test` takes from `stage` on `event`.
///
/// A test that is over stays as it is. A test that is not over fails on an
/// event that says that the work could not be done. Otherwise each stage
/// goes on with the events that answer what it asked for, and stays as it is
/// on any other.
pub open spec fn stepped(
    test: TestView,
    project: ProjectView,
    stage: StageView,
    event: EventView,
) -> StepView {
    match (stage, event) {
        (StageView::Succeeded, _) => StepView { stage, action: ActionView::Done },
        (StageView::Failed { .. }, _) => StepView { stage, action: ActionView::Done },
        (_, EventView::Aborted { error }) => StepView {
            stage: StageView::Failed { error },
            action: ActionView::Done,
        },
        (StageView::Pending, EventView::Begin) => StepView {
            stage: StageView::Pending,
            action: ActionView::CheckSource { path: test.path },
        },
        (StageView::Pending, EventView::SourceFound) => StepView {
            stage: StageView::Building,
            action: ActionView::Build { dir: project.dir, name: test_name(test.path) },
        },
        (StageView::Pending, EventView::SourceMissing { message }) => StepView {
            stage: StageView::Failed { error: ErrorView::Open { path: test.path, message } },
            action: ActionView::Done,
        },
        (StageView::Building, EventView::Built { success, stderr }) => match test.expected {
            Expected::Pass => pass_checked(test, project, success, normalized(decoded(stderr))),
            Expected::CompileFail => compile_fail_checked(
                test,
                project,
                success,
                normalized(decoded(stderr)),
            ),
        },
        (StageView::PassChecked, EventView::Ran { success }) => if success {
            StepView { stage: StageView::Succeeded, action: ActionView::Done }
        } else {
            StepView {
                stage: StageView::Failed { error: ErrorView::RunFailed },
                action: ActionView::Done,
            }
        },
        (StageView::CompileFailChecked { stderr }, EventView::FixtureAbsent) => fixture_checked(
            test,
            stderr,
            None,
        ),
        (
            StageView::CompileFailChecked { stderr },
            EventView::FixtureRead { text },
        ) => fixture_checked(test, stderr, Some(text)),
        _ => StepView { stage, action: ActionView::Wait },
    }
}

/// The step that an expanded test takes: one whose pattern could not be
/// resolved fails with that failure before anything is done for it.
pub open spec fn expanded_stepped(
    expanded: ExpandedTestView,
    project: ProjectView,
    stage: StageView,
    event: EventView,
) -> StepView {
    match expanded.error {
        Some(error) => StepView { stage: StageView::Failed { error }, action: ActionView::Done },
        None => stepped(expanded.test, project, stage, event),
    }
}

impl Test {
    /// Takes one step: see [`stepped`].
    pub fn run(&self, project: &Project, stage: Stage, event: Event) -> (step: Step)
        ensures
            step@ == stepped(self@, project@, stage@, event@),
    {
        match stage {
            Stage::Succeeded => Step { stage: Stage::Succeeded, action: Action::Done },
            Stage::Failed { error } => Step { stage: Stage::Failed { error }, action: Action::Done },
            Stage::Pending => match event {
                Event::Aborted { error } => Step {
                    stage: Stage::Failed { error },
                    action: Action::Done,
                },
                Event::Begin => Step {
                    stage: Stage::Pending,
                    action: Action::CheckSource { path: self.path.clone() },
                },
                Event::SourceFound => Step {
                    stage: Stage::Building,
                    action: Action::Build { dir: project.dir.clone(), name: self.name() },
                },
                Event::SourceMissing { message } => Step {
                    stage: Stage::Failed { error: Error::Open { path: self.path.clone(), message } },
                    action: Action::Done,
                },
                _ => Step { stage: Stage::Pending, action: Action::Wait },
            },
            Stage::Building => match event {
                Event::Aborted { error } => Step {
                    stage: Stage::Failed { error },
                    action: Action::Done,
                },
                Event::Built { success, stderr } => {
                    let stderr = diagnostics(stderr);
                    match self.expected {
                        Expected::Pass => self.check_pass(project, success, stderr),
                        Expected::CompileFail => self.check_compile_fail(project, success, stderr),
                    }
                },
                _ => Step { stage: Stage::Building, action: Action::Wait },
            },
            Stage::PassChecked => match event {
                Event::Aborted { error } => Step {
                    stage: Stage::Failed { error },
                    action: Action::Done,
                },
                Event::Ran { success } => if success {
                    Step { stage: Stage::Succeeded, action: Action::Done }
                } else {
                    Step { stage: Stage::Failed { error: Error::RunFailed }, action: Action::Done }
                },
                _ => Step { stage: Stage::PassChecked, action: Action::Wait },
            },
            Stage::CompileFailChecked { stderr } => match event {
                Event::Aborted { error } => Step {
                    stage: Stage::Failed { error },
                    action: Action::Done,
                },
                Event::FixtureAbsent => self.check_fixture(stderr, None),
                Event::FixtureRead { text } => self.check_fixture(stderr, Some(text)),
                _ => Step { stage: Stage::CompileFailChecked { stderr }, action: Action::Wait },
            },
        }
    }

    /// The step after the build of a test that should pass: a failed build
    /// is the test's failure, with the diagnostics; after a build that
    /// succeeded the program is to be run.
    pub fn check_pass(&self, project: &Project, success: bool, stderr: String) -> (step: Step)
        ensures
            step@ == pass_checked(self@, project@, success, stderr@),
    {
        if !success {
            return Step {
                stage: Stage::Failed { error: Error::CargoFail { diagnostics: stderr } },
                action: Action::Done,
            };
        }
        Step {
            stage: Stage::PassChecked,
            action: Action::RunBinary {
                dir: project.dir.clone(),
                name: self.name(),
                warnings: stderr,
            },
        }
    }

    /// The step after the build of a test that should not build: a build
    /// that succeeded is the test's failure, with the warnings; after a
    /// failed build the stored diagnostics are to be read.
    pub fn check_compile_fail(&self, project: &Project, success: bool, stderr: String) -> (step:
        Step)
        ensures
            step@ == compile_fail_checked(self@, project@, success, stderr@),
    {
        if success {
            return Step {
                stage: Stage::Failed { error: Error::ShouldNotHaveCompiled { warnings: stderr } },
                action: Action::Done,
            };
        }
        proof {
            lemma_fixture_extension();
        }
        Step {
            stage: Stage::CompileFailChecked { stderr },
            action: Action::ReadFixture { path: with_extension(self.path.as_str(), "stderr") },
        }
    }

    /// Holds the fresh diagnostics `stderr` against the stored ones: see
    /// [`fixture_checked`].
    pub fn check_fixture(&self, stderr: String, fixture: Option<String>) -> (step: Step)
        ensures
            step@ == fixture_checked(self@, stderr@, fixture.deep_view()),
    {
        match fixture {
            None => {
                proof {
                    lemma_fixture_extension();
                }
                let stored = with_extension(self.path.as_str(), "stderr");
                let name = match file_name(stored.as_str()) {
                    Some(name) => name,
                    None => "test.stderr".to_owned(),
                };
                Step {
                    stage: Stage::Succeeded,
                    action: Action::StageFixture {
                        dir: "wip".to_owned(),
                        path: join("wip", name.as_str()),
                        fixture: stored,
                        text: stderr,
                    },
                }
            },
            Some(text) => {
                let expected = unify_line_endings(text.as_str());
                if expected == stderr {
                    Step { stage: Stage::Succeeded, action: Action::Done }
                } else {
                    Step {
                        stage: Stage::Failed { error: Error::Mismatch { expected, actual: stderr } },
                        action: Action::Done,
                    }
                }
            },
        }
    }
}

impl ExpandedTest {
    /// Takes one step: see [`expanded_stepped`].
    pub fn run(&self, project: &Project, stage: Stage, event: Event) -> (step: Step)
        ensures
            step@ == expanded_stepped(self@, project@, stage@, event@),
    {
        match &self.error {
            None => self.test.run(project, stage, event),
            Some(error) => Step {
                stage: Stage::Failed { error: error.clone() },
                action: Action::Done,
            },
        }
    }
}

/// The stage that a test reaches from `stage` when `events` happen one after
/// the other.
pub open spec fn run_through(
    test: TestView,
    project: ProjectView,
    stage: StageView,
    events: Seq<EventView>,
) -> StageView
    decreases events.len(),
{
    if events.len() == 0 {
        stage
    } else {
        run_through(
            test,
            project,
            stepped(test, project, stage, events.first()).stage,
            events.drop_first(),
        )
    }
}

/// How far a stage is from the start: a test that is over is furthest.
pub open spec fn progress(stage: StageView) -> nat {
    match stage {
        StageView::Pending => 0,
        StageView::Building => 1,
        StageView::PassChecked => 2,
        StageView::CompileFailChecked { .. } => 2,
        StageView::Succeeded => 3,
        StageView::Failed { .. } => 3,
    }
}

/// Whether `event` tells the outcome of what `stage` waits for.
pub open spec fn answers(stage: StageView, event: EventView) -> bool {
    match (stage, event) {
        (StageView::Pending, EventView::SourceFound) => true,
        (StageView::Pending, EventView::SourceMissing { .. }) => true,
        (StageView::Building, EventView::Built { .. }) => true,
        (StageView::PassChecked, EventView::Ran { .. }) => true,
        (StageView::CompileFailChecked { .. }, EventView::FixtureAbsent) => true,
        (StageView::CompileFailChecked { .. }, EventView::FixtureRead { .. }) => true,
        (StageView::Pending, EventView::Aborted { .. }) => true,
        (StageView::Building, EventView::Aborted { .. }) => true,
        (StageView::PassChecked, EventView::Aborted { .. }) => true,
        (StageView::CompileFailChecked { .. }, EventView::Aborted { .. }) => true,
        _ => false,
    }
}

/// No step takes a test back, and a step on the outcome of what the test
/// waits for takes it further. A test is over exactly when nothing more is
/// asked for, but for the staging of fresh diagnostics; and nothing is ever
/// staged but in the directory `wip`, under the name of the file that would
/// store the diagnostics.
pub proof fn lemma_steps_go_forward(
    test: TestView,
    project: ProjectView,
    stage: StageView,
    event: EventView,
)
    ensures
        progress(stage) <= progress(stepped(test, project, stage, event).stage),
        answers(stage, event) ==> progress(stage) < progress(
            stepped(test, project, stage, event).stage,
        ),
        stepped(test, project, stage, event).action is Wait ==> stepped(
            test,
            project,
            stage,
            event,
        ).stage == stage,
        stepped(test, project, stage, event).action is Done ==> progress(
            stepped(test, project, stage, event).stage,
        ) == 3,
        stepped(test, project, stage, event).action is StageFixture ==> stepped(
            test,
            project,
            stage,
            event,
        ).stage is Succeeded,
        stepped(test, project, stage, event).action matches ActionView::StageFixture {
            dir,
            path,
            fixture,
            ..
        } ==> dir == "wip"@ && path == staged_path(test.path) && fixture == fixture_path(
            test.path,
        ),
        progress(stepped(test, project, stage, event).stage) == 3 ==> stepped(
            test,
            project,
            stage,
            event,
        ).action is Done || stepped(test, project, stage, event).action is StageFixture,
{
}

/// What happens up to the end of the build of a test whose source is there.
pub open spec fn built(success: bool, stderr: Seq<u8>) -> Seq<EventView> {
    seq![EventView::Begin, EventView::SourceFound, EventView::Built { success, stderr }]
}

/// A test that is over stays as it is, whatever happens.
pub proof fn lemma_over_stays_over(
    test: TestView,
    project: ProjectView,
    stage: StageView,
    events: Seq<EventView>,
)
    requires
        stage is Succeeded || stage is Failed,
    ensures
        run_through(test, project, stage, events) == stage,
    decreases events.len(),
{
    if events.len() > 0 {
        lemma_over_stays_over(test, project, stage, events.drop_first());
    }
}

/// After the build of a test whose source is there, the test goes on from
/// the stage that the build's outcome leads to.
pub proof fn lemma_after_build(
    test: TestView,
    project: ProjectView,
    success: bool,
    stderr: Seq<u8>,
    more: Seq<EventView>,
)
    ensures
        run_through(test, project, StageView::Pending, built(success, stderr) + more)
            == run_through(
            test,
            project,
            stepped(
                test,
                project,
                StageView::Building,
                EventView::Built { success, stderr },
            ).stage,
            more,
        ),
{
    let events = built(success, stderr) + more;
    let second = events.drop_first();
    let third = second.drop_first();
    assert(events.first() == EventView::Begin);
    assert(second.first() == EventView::SourceFound);
    assert(third.first() == EventView::Built { success, stderr });
    assert(third.drop_first() =~= more);
    assert(run_through(test, project, StageView::Pending, events) == run_through(
        test,
        project,
        StageView::Pending,
        second,
    ));
    assert(run_through(test, project, StageView::Pending, second) == run_through(
        test,
        project,
        StageView::Building,
        third,
    ));
}

/// A test that should pass and whose source does not build has failed, with
/// the diagnostics of the build, whatever happens afterwards.
pub proof fn lemma_failed_build_fails_passing_test(
    test: TestView,
    project: ProjectView,
    stderr: Seq<u8>,
    more: Seq<EventView>,
)
    requires
        test.expected == Expected::Pass,
    ensures
        run_through(test, project, StageView::Pending, built(false, stderr) + more)
            == (StageView::Failed {
            error: ErrorView::CargoFail { diagnostics: normalized(decoded(stderr)) },
        }),
        stepped(
            test,
            project,
            StageView::Building,
            EventView::Built { success: false, stderr },
        ).action == ActionView::Done,
{
    lemma_after_build(test, project, false, stderr, more);
    lemma_over_stays_over(
        test,
        project,
        StageView::Failed {
            error: ErrorView::CargoFail { diagnostics: normalized(decoded(stderr)) },
        },
        more,
    );
}

/// A test that should not build and whose source builds has failed, with the
/// warnings of the build, whatever happens afterwards; its program is never
/// asked for.
pub proof fn lemma_successful_build_fails_failing_test(
    test: TestView,
    project: ProjectView,
    stderr: Seq<u8>,
    more: Seq<EventView>,
)
    requires
        test.expected == Expected::CompileFail,
    ensures
        run_through(test, project, StageView::Pending, built(true, stderr) + more)
            == (StageView::Failed {
            error: ErrorView::ShouldNotHaveCompiled { warnings: normalized(decoded(stderr)) },
        }),
        stepped(
            test,
            project,
            StageView::Building,
            EventView::Built { success: true, stderr },
        ).action == ActionView::Done,
{
    lemma_after_build(test, project, true, stderr, more);
    lemma_over_stays_over(
        test,
        project,
        StageView::Failed {
            error: ErrorView::ShouldNotHaveCompiled { warnings: normalized(decoded(stderr)) },
        },
        more,
    );
}

/// A test that should not build, does not build and has no stored
/// diagnostics succeeds, and its diagnostics are staged in the directory
/// `wip`.
pub proof fn lemma_missing_fixture_is_staged(
    test: TestView,
    project: ProjectView,
    stderr: Seq<u8>,
    more: Seq<EventView>,
)
    requires
        test.expected == Expected::CompileFail,
    ensures
        run_through(
            test,
            project,
            StageView::Pending,
            built(false, stderr) + (seq![EventView::FixtureAbsent] + more),
        ) == StageView::Succeeded,
        stepped(
            test,
            project,
            StageView::CompileFailChecked { stderr: normalized(decoded(stderr)) },
            EventView::FixtureAbsent,
        ) == (StepView {
            stage: StageView::Succeeded,
            action: ActionView::StageFixture {
                dir: "wip"@,
                path: staged_path(test.path),
                fixture: fixture_path(test.path),
                text: normalized(decoded(stderr)),
            },
        }),
{
    let rest = seq![EventView::FixtureAbsent] + more;
    lemma_after_build(test, project, false, stderr, rest);
    assert(rest.first() == EventView::FixtureAbsent);
    assert(rest.drop_first() =~= more);
    lemma_over_stays_over(test, project, StageView::Succeeded, more);
}

/// A test that should not build succeeds against its own diagnostics: where
/// what is stored is what the build gives, in canonical form, the two match.
pub proof fn lemma_own_diagnostics_match(
    test: TestView,
    project: ProjectView,
    stderr: Seq<u8>,
    more: Seq<EventView>,
)
    requires
        test.expected == Expected::CompileFail,
    ensures
        run_through(
            test,
            project,
            StageView::Pending,
            built(false, stderr) + (seq![
                EventView::FixtureRead { text: normalized(decoded(stderr)) },
            ] + more),
        ) == StageView::Succeeded,
{
    let stored = normalized(decoded(stderr));
    let rest = seq![EventView::FixtureRead { text: stored }] + more;
    lemma_after_build(test, project, false, stderr, rest);
    lemma_normalized_is_unified(decoded(stderr));
    assert(rest.first() == EventView::FixtureRead { text: stored });
    assert(rest.drop_first() =~= more);
    lemma_over_stays_over(test, project, StageView::Succeeded, more);
}

} // verus!
