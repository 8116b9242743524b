use snapshot_harness::normalize::{diagnostics, normalize_text, unify_line_endings};

fn canonical(raw: &str) -> String {
    diagnostics(raw.as_bytes().to_vec())
}

#[test]
fn plain_diagnostics_stay_as_they_are() {
    let raw = "error[E0308]: mismatched types\n  |\n3 |     let x: u8 = \"\";\n  |                 ^^ expected `u8`, found `&str`\n";
    assert_eq!(canonical(raw), raw);
}

#[test]
fn the_last_line_is_ended() {
    assert_eq!(canonical("error: mismatched types"), "error: mismatched types\n");
}

#[test]
fn nothing_gives_nothing() {
    assert_eq!(canonical(""), "");
    assert_eq!(normalize_text(""), "");
}

#[test]
fn empty_lines_are_kept() {
    assert_eq!(canonical("a\n\nb\n"), "a\n\nb\n");
    assert_eq!(canonical("\n"), "\n");
    assert_eq!(canonical("\n\n"), "\n\n");
}

#[test]
fn line_endings_are_unified() {
    assert_eq!(canonical("error: one\r\nerror: two\r\n"), "error: one\nerror: two\n");
    assert_eq!(canonical("a\r\r\nb\r"), "a\nb\n");
    assert_eq!(canonical("\r\n"), "\n");
}

#[test]
fn a_carriage_return_inside_a_line_is_kept() {
    assert_eq!(canonical("a\rb\n"), "a\rb\n");
}

#[test]
fn status_lines_are_dropped() {
    let raw = "   Compiling demo-tests v0.0.0 (/tmp/work/target/tests/demo)\n    Checking helper v1.2.3\nerror: no rules expected the token `;`\n    Finished dev [unoptimized + debuginfo] target(s) in 0.52s\n";
    assert_eq!(canonical(raw), "error: no rules expected the token `;`\n");
}

#[test]
fn status_words_count_only_at_the_start_of_a_line() {
    assert_eq!(canonical("note: Finished early\n"), "note: Finished early\n");
    assert_eq!(canonical("Finished\n"), "Finished\n");
    assert_eq!(canonical("Finished \n"), "");
    assert_eq!(canonical("\tFinished in 1s\n"), "\tFinished in 1s\n");
    assert_eq!(canonical("Compiling\n"), "Compiling\n");
}

#[test]
fn the_directory_of_a_location_becomes_dir() {
    assert_eq!(
        canonical(" --> /home/someone/project/tests/ui/missing.rs:4:9\n"),
        " --> $DIR/missing.rs:4:9\n"
    );
    assert_eq!(canonical("--> tests\\ui\\missing.rs:4:9\r\n"), "--> $DIR/missing.rs:4:9\n");
    assert_eq!(canonical("   --> a/\n"), "   --> $DIR/\n");
}

#[test]
fn a_location_without_directory_stays() {
    assert_eq!(canonical("  --> main.rs:1:1\n"), "  --> main.rs:1:1\n");
    assert_eq!(canonical("--> \n"), "--> \n");
}

#[test]
fn only_location_lines_are_rewritten() {
    assert_eq!(canonical("note: see /usr/lib/x.rs\n"), "note: see /usr/lib/x.rs\n");
    assert_eq!(canonical("-->/a/b.rs\n"), "-->/a/b.rs\n");
    assert_eq!(canonical("x --> /a/b.rs\n"), "x --> /a/b.rs\n");
}

#[test]
fn canonical_form_is_a_fixed_point() {
    let raws = [
        "",
        "error: mismatched types",
        "   Compiling a v1\r\nerror: x\r\n  --> /abs/dir/file.rs:1:2\r\n   |\r\n",
        " --> $DIR/file.rs:1:2\n",
        "a\r\r\n\r\nb\r",
        "--> /\n--> //\n--> a/b/\n",
        "  Finished \n  --> x/Finished \n",
    ];
    for raw in raws {
        let once = canonical(raw);
        assert_eq!(canonical(&once), once);
        assert_eq!(normalize_text(&once), once);
        assert_eq!(unify_line_endings(&once), once);
    }
}

#[test]
fn canonical_form_depends_on_the_bytes_only() {
    let raw = "warning: unused\n  --> /x/y/z.rs:9:9\n";
    assert_eq!(canonical(raw), canonical(raw));
    assert_eq!(canonical(raw), "warning: unused\n  --> $DIR/z.rs:9:9\n");
}

#[test]
fn bytes_that_are_no_text_are_replaced() {
    let raw = vec![b'e', b'r', b'r', 0xff, b'\n'];
    assert_eq!(diagnostics(raw), "err\u{fffd}\n");
}

#[test]
fn text_beyond_ascii_is_kept() {
    assert_eq!(canonical("error: caf\u{e9} \u{1f980}\n"), "error: caf\u{e9} \u{1f980}\n");
    assert_eq!(canonical(" --> /d\u{e9}p\u{f4}t/\u{fc}ber.rs:1:1\n"), " --> $DIR/\u{fc}ber.rs:1:1\n");
}

#[test]
fn unified_line_endings() {
    assert_eq!(unify_line_endings("a\r\nb\r\n"), "a\nb\n");
    assert_eq!(unify_line_endings("a\nb"), "a\nb");
    assert_eq!(unify_line_endings("a\r\r\nb\r"), "a\r\nb\r");
    assert_eq!(unify_line_endings("\r"), "\r");
    assert_eq!(unify_line_endings(""), "");
    assert_eq!(unify_line_endings("\r\n\r\n"), "\n\n");
}
