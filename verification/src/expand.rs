//! From the declared tests to the tests that run: a path is taken as it is,
//! a pattern is resolved against the file system.

use crate::cases::{ExpandedTest, ExpandedTestView, Test, TestView};
use crate::error::{Error, ErrorView};
use crate::text::contains_char;
use vstd::prelude::*;

verus! {

/// The error of a malformed pattern.
#[verifier::external_type_specification]
#[verifier::external_body]
pub struct ExPatternError(glob::PatternError);

/// The error of a directory that could not be read.
#[verifier::external_type_specification]
#[verifier::external_body]
pub struct ExGlobError(glob::GlobError);

/// Whether `glob::glob` refuses the pattern written as `pattern`. It refuses
/// a pattern for how it is written alone, before it looks at any file.
pub uninterp spec fn is_refused(pattern: Seq<char>) -> bool;

/// Calls `glob::glob` and walks the paths it yields to the end. Whether the
/// pattern is refused depends on the pattern alone, and the contract gives
/// that answer its name. What a pattern that is not refused yields depends
/// on the file system, so nothing is promised of it. A path that is not
/// valid Unicode comes back with replacement characters.
#[verifier::external_body]
fn glob_matches(pattern: &str) -> (matches: Result<
    Vec<Result<String, glob::GlobError>>,
    glob::PatternError,
>)
    ensures
        matches is Err == is_refused(pattern@),
{
    let paths = glob::glob(pattern)?;
    Ok(paths.map(|entry| entry.map(|path| path.to_string_lossy().into_owned())).collect())
}

/// The message of a `glob::PatternError`, as its `Display` writes it.
#[verifier::external_body]
fn pattern_error_message(error: &glob::PatternError) -> (message: String) {
    error.to_string()
}

/// The message of a `glob::GlobError`, as its `Display` writes it.
#[verifier::external_body]
fn glob_error_message(error: &glob::GlobError) -> (message: String) {
    error.to_string()
}

/// Every entry of a walk is a path: no directory failed to be read.
pub open spec fn all_found(entries: Seq<Result<String, glob::GlobError>>) -> bool {
    forall|i: int| 0 <= i < entries.len() ==> (#[trigger] entries[i]) is Ok
}

/// The paths that a walk yielded, in order; or, where a directory could not
/// be read, the failure of the first such directory, with the message that
/// the walk gave for it.
pub fn gather(entries: Vec<Result<String, glob::GlobError>>) -> (gathered: Result<
    Vec<String>,
    Error,
>)
    ensures
        gathered is Ok == all_found(entries@),
        gathered matches Ok(paths) ==> paths.len() == entries.len() && forall|i: int|
            0 <= i < paths.len() ==> (#[trigger] paths[i])@ == entries[i]->Ok_0@,
        gathered matches Err(error) ==> error@ is Glob,
{
    let mut paths: Vec<String> = Vec::new();
    let mut i: usize = 0;
    while i < entries.len()
        invariant
            i <= entries.len(),
            paths.len() == i,
            forall|j: int| 0 <= j < i ==> (#[trigger] entries[j]) is Ok,
            forall|j: int| 0 <= j < i ==> (#[trigger] paths[j])@ == entries[j]->Ok_0@,
        decreases entries.len() - i,
    {
        match &entries[i] {
            Ok(path) => {
                paths.push(path.clone());
            },
            Err(error) => {
                return Err(Error::Glob { message: glob_error_message(error) });
            },
        }
        i += 1;
    }
    Ok(paths)
}

/// What resolving a pattern can fail with: the pattern is malformed, or a
/// directory could not be read.
pub open spec fn is_resolution_failure(error: ErrorView) -> bool {
    error is Pattern || error is Glob
}

/// Whether each of `found` is a possible outcome of resolving a pattern.
pub open spec fn possible_outcomes(found: Seq<Result<Seq<Seq<char>>, ErrorView>>) -> bool {
    forall|i: int|
        0 <= i < found.len() ==> ((#[trigger] found[i]) matches Err(error)
            ==> is_resolution_failure(error))
}

/// Whether `found` is a possible outcome of resolving `pattern`: a pattern
/// that is refused fails as malformed, and no other pattern does; any other
/// failure is that of a directory that could not be read.
pub open spec fn is_outcome_of(
    pattern: Seq<char>,
    found: Result<Seq<Seq<char>>, ErrorView>,
) -> bool {
    &&& is_refused(pattern) == (found matches Err(error) && error is Pattern)
    &&& found matches Err(error) ==> is_resolution_failure(error)
}

/// Whether each of `found` is a possible outcome of resolving the pattern
/// that the test in its place declares.
pub open spec fn outcomes_of(
    tests: Seq<TestView>,
    found: Seq<Result<Seq<Seq<char>>, ErrorView>>,
) -> bool {
    forall|i: int|
        0 <= i < tests.len() && i < found.len() && is_pattern(tests[i].path) ==> is_outcome_of(
            tests[i].path,
            #[trigger] found[i],
        )
}

/// The paths that match `pattern` now, or why they could not be had: a
/// pattern that is refused fails as malformed, whatever the file system
/// holds, and no other pattern fails so.
fn glob(pattern: &str) -> (found: Result<Vec<String>, Error>)
    ensures
        is_outcome_of(pattern@, found_view(found)),
{
    match glob_matches(pattern) {
        Ok(entries) => gather(entries),
        Err(error) => Err(Error::Pattern { message: pattern_error_message(&error) }),
    }
}

/// A path is a pattern if it holds a `*`.
pub open spec fn is_pattern(path: Seq<char>) -> bool {
    path.contains('*')
}

/// The outcome of resolving a pattern, with its texts as character
/// sequences.
pub open spec fn found_view(found: Result<Vec<String>, Error>) -> Result<
    Seq<Seq<char>>,
    ErrorView,
> {
    match found {
        Ok(paths) => Ok(paths.deep_view()),
        Err(error) => Err(error@),
    }
}

/// `test` taken as it is.
pub open spec fn as_is(test: TestView) -> ExpandedTestView {
    ExpandedTestView { test, error: None }
}

/// What a pattern expands to: one test for each path found, in the order
/// found and with the declared expectation; or, where the pattern could not
/// be resolved, the declared test with the failure.
pub open spec fn expansion_of(test: TestView, found: Result<Seq<Seq<char>>, ErrorView>) -> Seq<
    ExpandedTestView,
> {
    match found {
        Ok(paths) => Seq::new(
            paths.len(),
            |i: int| as_is(TestView { path: paths[i], expected: test.expected }),
        ),
        Err(error) => seq![ExpandedTestView { test, error: Some(error) }],
    }
}

/// What the declared `tests` expand to, where `found[i]` is the outcome of
/// resolving the `i`-th of them: the tests' expansions one after the other.
/// A test that is no pattern stands for itself, whatever `found` holds for it.
pub open spec fn expansion(
    tests: Seq<TestView>,
    found: Seq<Result<Seq<Seq<char>>, ErrorView>>,
) -> Seq<ExpandedTestView>
    recommends
        found.len() == tests.len(),
    decreases tests.len(),
{
    if tests.len() == 0 || found.len() != tests.len() {
        Seq::empty()
    } else {
        expansion(tests.drop_last(), found.drop_last()) + (if is_pattern(tests.last().path) {
            expansion_of(tests.last(), found.last())
        } else {
            seq![as_is(tests.last())]
        })
    }
}

/// Computes [`expansion_of`].
pub fn expand_found(test: &Test, found: Result<Vec<String>, Error>) -> (expanded: Vec<
    ExpandedTest,
>)
    ensures
        expanded.deep_view() == expansion_of(test@, found_view(found)),
{
    let mut expanded: Vec<ExpandedTest> = Vec::new();
    match found {
        Ok(paths) => {
            let mut i: usize = 0;
            while i < paths.len()
                invariant
                    i <= paths.len(),
                    expanded.len() == i,
                    forall|j: int|
                        0 <= j < i ==> (#[trigger] expanded[j])@ == as_is(
                            TestView { path: paths[j]@, expected: test.expected },
                        ),
                decreases paths.len() - i,
            {
                expanded.push(
                    ExpandedTest {
                        test: Test { path: paths[i].clone(), expected: test.expected },
                        error: None,
                    },
                );
                i += 1;
            }
            proof {
                assert(expanded.deep_view() =~= expansion_of(test@, Ok(paths.deep_view())));
            }
        },
        Err(error) => {
            expanded.push(ExpandedTest { test: test.clone(), error: Some(error) });
            proof {
                assert(expanded.deep_view() =~= expansion_of(test@, Err(error@)));
            }
        },
    }
    expanded
}

/// Where no test is a pattern, the expansion is the tests themselves, in
/// order, whatever the file system holds.
pub proof fn lemma_paths_expand_to_themselves(
    tests: Seq<TestView>,
    found: Seq<Result<Seq<Seq<char>>, ErrorView>>,
)
    requires
        found.len() == tests.len(),
        forall|i: int| 0 <= i < tests.len() ==> !is_pattern(#[trigger] tests[i].path),
    ensures
        expansion(tests, found) == tests.map_values(|test: TestView| as_is(test)),
    decreases tests.len(),
{
    if tests.len() > 0 {
        assert(!is_pattern(tests[tests.len() - 1].path));
        lemma_paths_expand_to_themselves(tests.drop_last(), found.drop_last());
        assert(expansion(tests, found) =~= tests.map_values(|test: TestView| as_is(test)));
    } else {
        assert(expansion(tests, found) =~= tests.map_values(|test: TestView| as_is(test)));
    }
}

/// A pattern that is refused expands to the declared test alone, with the
/// failure of a malformed pattern; a pattern that is not refused never
/// carries that failure.
pub proof fn lemma_refused_pattern_keeps_test(
    test: TestView,
    found: Result<Seq<Seq<char>>, ErrorView>,
)
    requires
        is_outcome_of(test.path, found),
    ensures
        is_refused(test.path) ==> expansion_of(test, found).len() == 1 && expansion_of(
            test,
            found,
        )[0].test == test && (expansion_of(test, found)[0].error matches Some(error)
            && error is Pattern),
        !is_refused(test.path) ==> forall|i: int|
            0 <= i < expansion_of(test, found).len() ==> !((#[trigger] expansion_of(
                test,
                found,
            )[i]).error matches Some(error) && error is Pattern),
{
}

/// Expansion keeps the order of the declared tests: what a list of tests
/// expands to is what its first part expands to, followed by what the rest
/// expands to.
pub proof fn lemma_expansion_keeps_order(
    first: Seq<TestView>,
    first_found: Seq<Result<Seq<Seq<char>>, ErrorView>>,
    rest: Seq<TestView>,
    rest_found: Seq<Result<Seq<Seq<char>>, ErrorView>>,
)
    requires
        first_found.len() == first.len(),
        rest_found.len() == rest.len(),
    ensures
        expansion(first + rest, first_found + rest_found) == expansion(first, first_found)
            + expansion(rest, rest_found),
    decreases rest.len(),
{
    let tests = first + rest;
    let found = first_found + rest_found;
    if rest.len() == 0 {
        assert(tests =~= first);
        assert(found =~= first_found);
        assert(expansion(first, first_found) + expansion(rest, rest_found) =~= expansion(
            first,
            first_found,
        ));
    } else {
        assert(tests.drop_last() =~= first + rest.drop_last());
        assert(found.drop_last() =~= first_found + rest_found.drop_last());
        assert(tests.last() == rest.last());
        assert(found.last() == rest_found.last());
        lemma_expansion_keeps_order(first, first_found, rest.drop_last(), rest_found.drop_last());
        let last = if is_pattern(rest.last().path) {
            expansion_of(rest.last(), rest_found.last())
        } else {
            seq![as_is(rest.last())]
        };
        assert(expansion(tests, found) =~= expansion(first, first_found) + (expansion(
            rest.drop_last(),
            rest_found.drop_last(),
        ) + last));
    }
}

/// A pattern that matches some number of files expands to that many tests:
/// the files in the order in which they were found, each expected to do
/// what the pattern was expected to do, none with a failure.
pub proof fn lemma_pattern_expands_to_matches(test: TestView, paths: Seq<Seq<char>>)
    ensures
        expansion_of(test, Ok(paths)).len() == paths.len(),
        forall|i: int|
            0 <= i < paths.len() ==> {
                let expanded = #[trigger] expansion_of(test, Ok(paths))[i];
                &&& expanded.test.path == paths[i]
                &&& expanded.test.expected == test.expected
                &&& expanded.error is None
            },
        is_pattern(test.path) ==> expansion(seq![test], seq![Ok(paths)]) == expansion_of(
            test,
            Ok(paths),
        ),
{
    let tests = seq![test];
    let found = seq![Ok::<Seq<Seq<char>>, ErrorView>(paths)];
    assert(expansion(tests.drop_last(), found.drop_last()) =~= Seq::empty());
    assert(tests.last() == test);
    assert(found.last() == Ok::<Seq<Seq<char>>, ErrorView>(paths));
    if is_pattern(test.path) {
        assert(expansion(tests, found) =~= expansion_of(test, Ok(paths)));
    }
}

/// Expands the declared tests, in order. A test whose path holds no `*` is
/// taken as it is, whether the file exists or not. A pattern is resolved
/// against the file system: it gives one test for each match, or, where it
/// cannot be resolved, the declared test with the failure.
pub fn expand_globs(tests: &[Test]) -> (expanded: Vec<ExpandedTest>)
    ensures
        exists|found: Seq<Result<Seq<Seq<char>>, ErrorView>>|
            found.len() == tests.len() && possible_outcomes(found) && outcomes_of(
                tests.deep_view(),
                found,
            ) && expanded.deep_view() == expansion(tests.deep_view(), found),
        (forall|i: int| 0 <= i < tests.len() ==> !is_pattern(#[trigger] tests[i].path@))
            ==> expanded.deep_view() == tests.deep_view().map_values(|test: TestView| as_is(test)),
{
    let mut expanded: Vec<ExpandedTest> = Vec::new();
    let ghost mut found: Seq<Result<Seq<Seq<char>>, ErrorView>> = Seq::empty();
    let mut i: usize = 0;
    proof {
        assert(expanded.deep_view() =~= expansion(tests.deep_view().take(0), found));
    }
    while i < tests.len()
        invariant
            i <= tests.len(),
            found.len() == i,
            possible_outcomes(found),
            outcomes_of(tests.deep_view().take(i as int), found),
            expanded.deep_view() == expansion(tests.deep_view().take(i as int), found),
        decreases tests.len() - i,
    {
        let test = &tests[i];
        let ghost before = expanded.deep_view();
        let ghost earlier = found;
        let ghost longer = tests.deep_view().take(i + 1);
        proof {
            assert(longer.drop_last() =~= tests.deep_view().take(i as int));
            assert(longer.last() == test@);
        }
        if contains_char(test.path.as_str(), '*') {
            let outcome = glob(test.path.as_str());
            let ghost seen = found_view(outcome);
            let mut more = expand_found(test, outcome);
            let ghost added = more.deep_view();
            expanded.append(&mut more);
            proof {
                found = earlier.push(seen);
                assert(found.drop_last() =~= earlier);
                assert(found.last() == seen);
                assert(expanded.deep_view() =~= before + added);
                assert(expansion(longer, found) == before + added);
                assert forall|j: int|
                    0 <= j < longer.len() && j < found.len() && is_pattern(
                        longer[j].path,
                    ) implies is_outcome_of(longer[j].path, #[trigger] found[j]) by {
                    if j < i {
                        assert(found[j] == earlier[j]);
                        assert(longer[j] == tests.deep_view().take(i as int)[j]);
                    }
                }
            }
        } else {
            expanded.push(ExpandedTest { test: test.clone(), error: None });
            proof {
                found = earlier.push(Ok(Seq::empty()));
                assert(found.drop_last() =~= earlier);
                assert(expanded.deep_view() =~= before + seq![as_is(test@)]);
                assert(expansion(longer, found) == before + seq![as_is(test@)]);
                assert forall|j: int|
                    0 <= j < longer.len() && j < found.len() && is_pattern(
                        longer[j].path,
                    ) implies is_outcome_of(longer[j].path, #[trigger] found[j]) by {
                    if j < i {
                        assert(found[j] == earlier[j]);
                        assert(longer[j] == tests.deep_view().take(i as int)[j]);
                    }
                }
            }
        }
        i += 1;
    }
    proof {
        assert(tests.deep_view().take(tests.len() as int) =~= tests.deep_view());
        if forall|i: int| 0 <= i < tests.len() ==> !is_pattern(#[trigger] tests[i].path@) {
            assert forall|i: int| 0 <= i < tests.deep_view().len() implies !is_pattern(
                #[trigger] tests.deep_view()[i].path,
            ) by {
                assert(!is_pattern(tests[i].path@));
            }
            lemma_paths_expand_to_themselves(tests.deep_view(), found);
        }
    }
    expanded
}

} // verus!
