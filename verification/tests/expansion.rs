use snapshot_harness::cases::{ExpandedTest, Expected, Test};
use snapshot_harness::error::Error;
use snapshot_harness::expand::{expand_found, expand_globs, gather};

fn declared(path: &str, expected: Expected) -> Test {
    Test { path: path.to_string(), expected }
}

fn paths_of(expanded: &[ExpandedTest]) -> Vec<String> {
    expanded.iter().map(|one| one.test.path.clone()).collect()
}

#[test]
fn paths_without_wildcard_expand_to_themselves() {
    let tests = vec![
        declared("tests/ui/b.rs", Expected::CompileFail),
        declared("tests/ui/a.rs", Expected::Pass),
        declared("tests/ui/b.rs", Expected::Pass),
    ];
    let expanded = expand_globs(&tests);
    assert_eq!(paths_of(&expanded), vec!["tests/ui/b.rs", "tests/ui/a.rs", "tests/ui/b.rs"]);
    assert_eq!(expanded[0].test.expected, Expected::CompileFail);
    assert_eq!(expanded[1].test.expected, Expected::Pass);
    assert_eq!(expanded[2].test.expected, Expected::Pass);
    assert!(expanded.iter().all(|one| one.error.is_none()));
}

#[test]
fn a_path_that_does_not_exist_is_kept() {
    let tests = vec![declared("no/such/dir/no-such-file.rs", Expected::Pass)];
    let expanded = expand_globs(&tests);
    assert_eq!(expanded.len(), 1);
    assert_eq!(expanded[0].test.path, "no/such/dir/no-such-file.rs");
    assert!(expanded[0].error.is_none());
}

#[test]
fn no_declared_tests_expand_to_none() {
    let expanded = expand_globs(&[]);
    assert!(expanded.is_empty());
}

#[test]
fn matches_expand_in_the_order_found() {
    let test = declared("tests/ui/*.rs", Expected::CompileFail);
    let found = vec!["tests/ui/a.rs".to_string(), "tests/ui/c.rs".to_string(), "tests/ui/b.rs".to_string()];
    let expanded = expand_found(&test, Ok(found));
    assert_eq!(paths_of(&expanded), vec!["tests/ui/a.rs", "tests/ui/c.rs", "tests/ui/b.rs"]);
    assert!(expanded.iter().all(|one| one.test.expected == Expected::CompileFail));
    assert!(expanded.iter().all(|one| one.error.is_none()));
}

#[test]
fn a_pattern_without_matches_expands_to_nothing() {
    let test = declared("tests/ui/*.rs", Expected::Pass);
    let expanded = expand_found(&test, Ok(Vec::new()));
    assert!(expanded.is_empty());
}

#[test]
fn a_pattern_that_cannot_be_resolved_keeps_the_declared_test() {
    let test = declared("tests/ui/*.rs", Expected::Pass);
    let failure = Error::Glob { message: "cannot access tests/ui".to_string() };
    let expanded = expand_found(&test, Err(failure));
    assert_eq!(expanded.len(), 1);
    assert_eq!(expanded[0].test.path, "tests/ui/*.rs");
    assert_eq!(expanded[0].test.expected, Expected::Pass);
    assert!(matches!(&expanded[0].error, Some(Error::Glob { message }) if message == "cannot access tests/ui"));
}

#[test]
fn a_malformed_pattern_is_reported_in_its_place() {
    let tests = vec![
        declared("first.rs", Expected::Pass),
        declared("a/**b", Expected::CompileFail),
        declared("last.rs", Expected::Pass),
    ];
    let expanded = expand_globs(&tests);
    assert_eq!(paths_of(&expanded), vec!["first.rs", "a/**b", "last.rs"]);
    assert!(expanded[0].error.is_none());
    assert!(expanded[2].error.is_none());
    assert_eq!(expanded[1].test.expected, Expected::CompileFail);
    match &expanded[1].error {
        Some(Error::Pattern { message }) => {
            assert!(message.contains("position 4"), "{}", message);
        }
        other => panic!("expected a pattern failure, got {:?}", other),
    }
}

#[test]
fn a_pattern_is_resolved_against_the_file_system() {
    let pattern = "*";
    let direct: Vec<String> = glob::glob(pattern)
        .unwrap()
        .map(|entry| entry.unwrap().to_string_lossy().into_owned())
        .collect();
    let expanded = expand_globs(&[declared(pattern, Expected::Pass)]);
    assert_eq!(paths_of(&expanded), direct);
    assert!(expanded.iter().all(|one| one.test.path != pattern));
    assert!(expanded.iter().all(|one| one.test.expected == Expected::Pass));
    assert!(expanded.iter().all(|one| one.error.is_none()));
}

#[test]
fn a_pattern_that_matches_nothing_gives_no_test() {
    let tests = vec![
        declared("before.rs", Expected::Pass),
        declared("no-such-directory-anywhere/*.rs", Expected::Pass),
        declared("after.rs", Expected::CompileFail),
    ];
    let expanded = expand_globs(&tests);
    assert_eq!(paths_of(&expanded), vec!["before.rs", "after.rs"]);
}

#[test]
fn gathered_paths_are_all_the_paths() {
    let entries = vec![Ok("x/a.rs".to_string()), Ok("x/b.rs".to_string())];
    match gather(entries) {
        Ok(paths) => assert_eq!(paths, vec!["x/a.rs", "x/b.rs"]),
        Err(error) => panic!("unexpected failure: {:?}", error),
    }
    assert!(matches!(gather(Vec::new()), Ok(paths) if paths.is_empty()));
}

#[test]
fn malformed_patterns_are_refused_for_their_text_alone() {
    for pattern in ["a/***", "x**/y", "no/such/place/**z", "[*"] {
        let expanded = expand_globs(&[declared(pattern, Expected::Pass)]);
        assert_eq!(expanded.len(), 1, "{}", pattern);
        assert_eq!(expanded[0].test.path, pattern);
        assert!(matches!(expanded[0].error, Some(Error::Pattern { .. })), "{}", pattern);
    }
}

#[test]
fn well_formed_patterns_are_not_refused() {
    for pattern in ["no/such/place/*.rs", "no/such/place/**/*.rs", "*/no-such-file-[ab].rs"] {
        let expanded = expand_globs(&[declared(pattern, Expected::CompileFail)]);
        assert!(expanded.iter().all(|one| !matches!(one.error, Some(Error::Pattern { .. }))));
    }
}
