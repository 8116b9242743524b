//! Test cases: what is declared, and the name each one builds under.

use crate::error::{Error, ErrorView};
use crate::paths::{file_stem, file_stem_of};
use vstd::prelude::*;

verus! {

/// What a test is expected to do.
#[derive(Debug, Clone, Copy, PartialEq, Eq, Structural)]
pub enum Expected {
    /// The source builds, and the program it makes runs successfully.
    Pass,
    /// The source does not build, and the diagnostics are the stored ones.
    CompileFail,
}

/// One declared test: a source path, or a pattern for several, and the
/// expectation.
#[derive(Debug)]
pub struct Test {
    pub path: String,
    pub expected: Expected,
}

/// A [`Test`] with its path as a character sequence.
pub struct TestView {
    pub path: Seq<char>,
    pub expected: Expected,
}

impl View for Test {
    type V = TestView;

    open spec fn view(&self) -> TestView {
        TestView { path: self.path@, expected: self.expected }
    }
}

impl DeepView for Test {
    type V = TestView;

    open spec fn deep_view(&self) -> TestView {
        self@
    }
}

impl Clone for Test {
    fn clone(&self) -> (copy: Test)
        ensures
            copy@ == self@,
    {
        Test { path: self.path.clone(), expected: self.expected }
    }
}

/// `text` with every `-` turned into `_`.
pub open spec fn underscored(text: Seq<char>) -> Seq<char> {
    text.map_values(|c: char| if c == '-' { '_' } else { c })
}

/// The build target's name for a path whose stem is `stem`: the stem, or the
/// whole path where there is none, with `_` for every `-`.
pub open spec fn target_name(stem: Option<Seq<char>>, path: Seq<char>) -> Seq<char> {
    underscored(
        match stem {
            Some(stem) => stem,
            None => path,
        },
    )
}

/// The name under which the test at `path` is built.
pub open spec fn test_name(path: Seq<char>) -> Seq<char> {
    target_name(file_stem_of(path), path)
}

/// Computes [`target_name`].
pub fn name_from_stem(stem: &Option<String>, path: &str) -> (name: String)
    ensures
        name@ == target_name(stem.deep_view(), path@),
{
    let base: &str = match stem {
        Some(stem) => stem.as_str(),
        None => path,
    };
    let mut name = String::new();
    for c in it: base.chars()
        invariant
            it.seq() == base@,
            name@ == underscored(base@.take(it.index() as int)),
    {
        proof {
            assert(underscored(base@.take(it.index() + 1)) =~= underscored(
                base@.take(it.index() as int),
            ).push(if c == '-' { '_' } else { c }));
        }
        name.push(if c == '-' { '_' } else { c });
    }
    proof {
        assert(base@.take(base@.len() as int) =~= base@);
    }
    name
}

impl Test {
    /// The name under which this test is built: see [`test_name`].
    pub fn name(&self) -> (name: String)
        ensures
            name@ == test_name(self.path@),
    {
        let stem = file_stem(self.path.as_str());
        name_from_stem(&stem, self.path.as_str())
    }
}

/// A test after its pattern was resolved: a concrete test, or the declared one
/// together with the reason why it could not be resolved.
#[derive(Debug)]
pub struct ExpandedTest {
    pub test: Test,
    pub error: Option<Error>,
}

/// An [`ExpandedTest`] with its texts as character sequences.
pub struct ExpandedTestView {
    pub test: TestView,
    pub error: Option<ErrorView>,
}

impl View for ExpandedTest {
    type V = ExpandedTestView;

    open spec fn view(&self) -> ExpandedTestView {
        ExpandedTestView { test: self.test@, error: self.error.deep_view() }
    }
}

impl DeepView for ExpandedTest {
    type V = ExpandedTestView;

    open spec fn deep_view(&self) -> ExpandedTestView {
        self@
    }
}

} // verus!
