//! A whole run: how it starts, and what its outcome is once every test is
//! over.

use crate::cases::{ExpandedTest, ExpandedTestView, TestView};
use crate::error::{Error, ErrorView};
use crate::expand::{expand_globs, expansion, outcomes_of, possible_outcomes};
use crate::manifest::DependencyView;
use crate::project::{preparation, Environment, EnvironmentView, Plan, PlanView, Runner};
use crate::run::{Stage, StageView};
use vstd::prelude::*;

verus! {

/// A run that is laid out: the tests in the order in which they run, all
/// that has to be on disk before the first of them is built, and the stages
/// in which the tests that are over have ended.
#[derive(Debug)]
pub struct Session {
    pub tests: Vec<ExpandedTest>,
    pub plan: Plan,
    pub outcomes: Vec<Stage>,
}

/// A [`Session`] with its texts as character sequences.
pub struct SessionView {
    pub tests: Seq<ExpandedTestView>,
    pub plan: PlanView,
    pub outcomes: Seq<StageView>,
}

impl View for Session {
    type V = SessionView;

    open spec fn view(&self) -> SessionView {
        SessionView {
            tests: self.tests.deep_view(),
            plan: self.plan@,
            outcomes: self.outcomes.deep_view(),
        }
    }
}

/// How a run starts, where `found[i]` is the outcome of resolving the
/// `i`-th declared test: with the expansion of the declared tests and the
/// throwaway project laid out for them, or not at all.
pub open spec fn started(
    tests: Seq<TestView>,
    deps: Map<Seq<char>, DependencyView>,
    environment: EnvironmentView,
    found: Seq<Result<Seq<Seq<char>>, ErrorView>>,
) -> Result<SessionView, ErrorView> {
    match preparation(deps, environment, expansion(tests, found)) {
        Ok(plan) => Ok(SessionView { tests: expansion(tests, found), plan, outcomes: Seq::empty() }),
        Err(error) => Err(error),
    }
}

impl Runner {
    /// Starts a run: expands the declared tests and lays the throwaway
    /// project out for them. Where that cannot be done no test runs.
    pub fn run(&self, environment: &Environment) -> (session: Result<Session, Error>)
        ensures
            exists|found: Seq<Result<Seq<Seq<char>>, ErrorView>>|
                found.len() == self.tests.len() && possible_outcomes(found) && outcomes_of(
                    self.tests.deep_view(),
                    found,
                ) && match session {
                    Ok(session) => #[trigger] started(
                        self.tests.deep_view(),
                        self.deps@,
                        environment@,
                        found,
                    ) == Ok::<SessionView, ErrorView>(session@),
                    Err(error) => started(self.tests.deep_view(), self.deps@, environment@, found)
                        == Err::<SessionView, ErrorView>(error@),
                },
    {
        let declared = self.tests.as_slice();
        let tests = expand_globs(declared);
        proof {
            assert(declared.deep_view() =~= self.tests.deep_view());
        }
        let ghost found = choose|found: Seq<Result<Seq<Seq<char>>, ErrorView>>|
            found.len() == self.tests.len() && possible_outcomes(found) && outcomes_of(
                self.tests.deep_view(),
                found,
            ) && tests.deep_view() == expansion(self.tests.deep_view(), found);
        let expanded = tests.as_slice();
        let prepared = self.prepare(environment, expanded);
        proof {
            assert(expanded.deep_view() =~= tests.deep_view());
        }
        let session = match prepared {
            Ok(plan) => Ok(Session { tests, plan, outcomes: Vec::new() }),
            Err(error) => Err(error),
        };
        proof {
            if session is Ok {
                assert(session->Ok_0.outcomes.deep_view() =~= Seq::empty());
            }
            let model = started(self.tests.deep_view(), self.deps@, environment@, found);
            if session is Ok {
                assert(model == Ok::<SessionView, ErrorView>(session->Ok_0@));
            } else {
                assert(model == Err::<SessionView, ErrorView>(session->Err_0@));
            }
        }
        session
    }
}

/// The outcome of a run.
#[derive(Debug, Clone, Copy, PartialEq, Eq, Structural)]
pub enum Verdict {
    /// There was no test to run.
    NoTests,
    /// Every one of the `total` tests succeeded.
    Passed { total: usize },
    /// Of the `total` tests `failures` failed.
    Failed { failures: usize, total: usize },
}

/// How many of `outcomes` are failures: a test that did not succeed has
/// failed, also where it was left before it was over.
pub open spec fn failures_in(outcomes: Seq<StageView>) -> nat
    decreases outcomes.len(),
{
    if outcomes.len() == 0 {
        0
    } else {
        failures_in(outcomes.drop_last()) + if outcomes.last() is Succeeded {
            0nat
        } else {
            1nat
        }
    }
}

/// The outcome of a run whose tests ended as `outcomes` tells.
pub open spec fn verdict_of(outcomes: Seq<StageView>) -> Verdict {
    if outcomes.len() == 0 {
        Verdict::NoTests
    } else if failures_in(outcomes) == 0 {
        Verdict::Passed { total: outcomes.len() as usize }
    } else {
        Verdict::Failed { failures: failures_in(outcomes) as usize, total: outcomes.len() as usize }
    }
}

/// There are no more failures than tests.
pub proof fn lemma_failures_bounded(outcomes: Seq<StageView>)
    ensures
        failures_in(outcomes) <= outcomes.len(),
    decreases outcomes.len(),
{
    if outcomes.len() > 0 {
        lemma_failures_bounded(outcomes.drop_last());
    }
}

/// A run has no failure exactly if every one of its tests succeeded.
pub proof fn lemma_no_failure_means_all_succeeded(outcomes: Seq<StageView>)
    ensures
        failures_in(outcomes) == 0 <==> forall|i: int|
            0 <= i < outcomes.len() ==> (#[trigger] outcomes[i]) is Succeeded,
    decreases outcomes.len(),
{
    if outcomes.len() > 0 {
        let shorter = outcomes.drop_last();
        lemma_no_failure_means_all_succeeded(shorter);
        if failures_in(outcomes) == 0 {
            assert forall|i: int| 0 <= i < outcomes.len() implies (#[trigger] outcomes[i])
                is Succeeded by {
                if i < outcomes.len() - 1 {
                    assert(shorter[i] == outcomes[i]);
                }
            }
        }
        if forall|i: int| 0 <= i < outcomes.len() ==> (#[trigger] outcomes[i]) is Succeeded {
            assert forall|i: int| 0 <= i < shorter.len() implies (#[trigger] shorter[i])
                is Succeeded by {
                assert(shorter[i] == outcomes[i]);
            }
            assert(outcomes[outcomes.len() - 1] is Succeeded);
        }
    }
}

/// Computes [`verdict_of`] from the stages in which the tests ended.
pub fn verdict(outcomes: &[Stage]) -> (verdict: Verdict)
    ensures
        verdict == verdict_of(outcomes.deep_view()),
{
    let total = outcomes.len();
    let mut failures: usize = 0;
    let mut i: usize = 0;
    proof {
        assert(outcomes.deep_view().take(0) =~= Seq::empty());
    }
    while i < total
        invariant
            i <= total,
            total == outcomes.len(),
            failures == failures_in(outcomes.deep_view().take(i as int)),
        decreases total - i,
    {
        proof {
            let longer = outcomes.deep_view().take(i + 1);
            assert(longer.drop_last() =~= outcomes.deep_view().take(i as int));
            assert(longer.last() == outcomes[i as int]@);
            lemma_failures_bounded(longer);
        }
        match &outcomes[i] {
            Stage::Succeeded => {},
            _ => {
                failures += 1;
            },
        }
        i += 1;
    }
    proof {
        assert(outcomes.deep_view().take(total as int) =~= outcomes.deep_view());
    }
    if total == 0 {
        Verdict::NoTests
    } else if failures == 0 {
        Verdict::Passed { total }
    } else {
        Verdict::Failed { failures, total }
    }
}

impl Session {
    /// The test whose turn it is: the first that is not over yet.
    pub fn current(&self) -> (test: Option<&ExpandedTest>)
        ensures
            match test {
                Some(test) => self.outcomes.len() < self.tests.len() && *test
                    == self.tests[self.outcomes.len() as int],
                None => self.outcomes.len() >= self.tests.len(),
            },
    {
        if self.outcomes.len() < self.tests.len() {
            Some(&self.tests[self.outcomes.len()])
        } else {
            None
        }
    }

    /// Notes that the test whose turn it is has ended in `stage`. Then it is
    /// the next test's turn, however this one ended. Where every test is over
    /// already, nothing is noted.
    pub fn record(&mut self, stage: Stage)
        ensures
            final(self).tests == old(self).tests,
            final(self).plan == old(self).plan,
            final(self).outcomes.deep_view() == if old(self).outcomes.len() < old(
                self,
            ).tests.len() {
                old(self).outcomes.deep_view().push(stage@)
            } else {
                old(self).outcomes.deep_view()
            },
    {
        if self.outcomes.len() < self.tests.len() {
            let ghost before = self.outcomes.deep_view();
            self.outcomes.push(stage);
            proof {
                assert(self.outcomes.deep_view() =~= before.push(stage@));
            }
        }
    }

    /// The outcome of the run, once every test is over.
    pub fn verdict(&self) -> (verdict: Option<Verdict>)
        ensures
            verdict == if self.outcomes.len() >= self.tests.len() {
                Some(verdict_of(self.outcomes.deep_view()))
            } else {
                None
            },
    {
        if self.outcomes.len() >= self.tests.len() {
            Some(verdict(self.outcomes.as_slice()))
        } else {
            None
        }
    }
}

} // verus!
