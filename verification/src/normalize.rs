//! Diagnostics in canonical form: the same text whatever machine, directory
//! or tool version produced them.
//!
//! Line endings are unified, the build tool's status lines (they name tool
//! versions, directories and timings) are dropped, and the directory of every
//! source location is replaced by `$DIR`. Everything else stays as it is.

use crate::normal_form::{lemma_normalized_is_idempotent, lemma_normalized_is_unified};
use crate::text::{chars_of, string_of};
use vstd::prelude::*;
use vstd::utf8::{decode_utf8, valid_utf8};

verus! {

/// What `String::from_utf8_lossy` makes of `bytes`.
pub uninterp spec fn lossy_text(bytes: Seq<u8>) -> Seq<char>;

/// Calls `String::from_utf8_lossy`. Bytes that are valid UTF-8 give the text
/// they encode; for other bytes the contract only gives the text its name.
#[verifier::external_body]
fn decode_lossy(bytes: &Vec<u8>) -> (text: String)
    ensures
        text@ == lossy_text(bytes@),
        valid_utf8(bytes@) ==> text@ == decode_utf8(bytes@),
{
    String::from_utf8_lossy(bytes).into_owned()
}

/// The text that `bytes` are read as: the text they encode where they are
/// valid UTF-8, and else that text with replacement characters where the
/// bytes encode none.
pub open spec fn decoded(bytes: Seq<u8>) -> Seq<char> {
    if valid_utf8(bytes) {
        decode_utf8(bytes)
    } else {
        lossy_text(bytes)
    }
}

/// The first place at or after `from` where `line` holds no space.
pub open spec fn skip_spaces(line: Seq<char>, from: int) -> int
    decreases line.len() - from,
{
    if 0 <= from < line.len() && line[from] == ' ' {
        skip_spaces(line, from + 1)
    } else {
        from
    }
}

/// The number of spaces that `line` begins with.
pub open spec fn indent(line: Seq<char>) -> int {
    skip_spaces(line, 0)
}

/// Whether `line` holds `word` at `at`.
pub open spec fn starts_at(line: Seq<char>, at: int, word: Seq<char>) -> bool {
    0 <= at && at + word.len() <= line.len() && line.subrange(at, at + word.len()) == word
}

/// A status line of the build tool: after its indentation it begins with
/// `Compiling `, `Checking ` or `Finished `.
pub open spec fn is_status(line: Seq<char>) -> bool {
    ||| starts_at(line, indent(line), "Compiling "@)
    ||| starts_at(line, indent(line), "Checking "@)
    ||| starts_at(line, indent(line), "Finished "@)
}

/// A line that names a source location: after its indentation it begins
/// with `--> `.
pub open spec fn is_location(line: Seq<char>) -> bool {
    starts_at(line, indent(line), "--> "@)
}

/// A character that separates the components of a path.
pub open spec fn is_separator(c: char) -> bool {
    c == '/' || c == '\\'
}

/// The place of the last path separator in `line`, or -1.
pub open spec fn last_separator(line: Seq<char>) -> int
    decreases line.len(),
{
    if line.len() == 0 {
        -1
    } else if is_separator(line.last()) {
        line.len() - 1
    } else {
        last_separator(line.drop_last())
    }
}

/// `line` with the directory of its source location, if it names one with a
/// directory, replaced by `$DIR`.
pub open spec fn relocated(line: Seq<char>) -> Seq<char> {
    let start = indent(line) + 4;
    let cut = last_separator(line);
    if is_location(line) && cut >= start {
        line.take(start) + "$DIR/"@ + line.skip(cut + 1)
    } else {
        line
    }
}

/// `line` without the carriage returns at its end.
pub open spec fn cleaned(line: Seq<char>) -> Seq<char>
    decreases line.len(),
{
    if line.len() > 0 && line.last() == '\r' {
        cleaned(line.drop_last())
    } else {
        line
    }
}

/// What one line of the raw text becomes: nothing if it is a status line,
/// else the line in canonical form, ended by a line feed.
pub open spec fn emitted(line: Seq<char>) -> Seq<char> {
    if is_status(cleaned(line)) {
        Seq::empty()
    } else {
        relocated(cleaned(line)).push('\n')
    }
}

/// The end of the line that holds the place `from`: the place of the next
/// line feed, or the end of the text.
pub open spec fn line_end(text: Seq<char>, from: int) -> int
    decreases text.len() - from,
{
    if 0 <= from < text.len() && text[from] != '\n' {
        line_end(text, from + 1)
    } else {
        from
    }
}

/// The canonical form of what `text` holds from `from` on, where a line
/// begins at `from`.
pub open spec fn normalized_from(text: Seq<char>, from: int) -> Seq<char>
    decreases text.len() - from,
{
    if 0 <= from < text.len() {
        let end = line_end(text, from);
        if from <= end < text.len() {
            emitted(text.subrange(from, end)) + normalized_from(text, end + 1)
        } else {
            emitted(text.skip(from))
        }
    } else {
        Seq::empty()
    }
}

/// The canonical form of `text`: its lines one after the other, each as
/// [`emitted`] gives it.
pub open spec fn normalized(text: Seq<char>) -> Seq<char> {
    normalized_from(text, 0)
}

/// `text` from `from` on, with a line feed for every carriage return that a
/// line feed follows.
pub open spec fn unified_from(text: Seq<char>, from: int) -> Seq<char>
    decreases text.len() - from,
{
    if 0 <= from < text.len() {
        if text[from] == '\r' && from + 1 < text.len() && text[from + 1] == '\n' {
            seq!['\n'] + unified_from(text, from + 2)
        } else {
            seq![text[from]] + unified_from(text, from + 1)
        }
    } else {
        Seq::empty()
    }
}

/// `text` with its line endings unified: a line feed for every carriage
/// return that a line feed follows.
pub open spec fn unified(text: Seq<char>) -> Seq<char> {
    unified_from(text, 0)
}

/// Computes [`unified`].
pub fn unify_line_endings(text: &str) -> (same: String)
    ensures
        same@ == unified(text@),
{
    let chars = chars_of(text);
    let mut out: Vec<char> = Vec::new();
    let mut i: usize = 0;
    while i < chars.len()
        invariant
            i <= chars.len(),
            chars@ == text@,
            unified(text@) == out@ + unified_from(chars@, i as int),
        decreases chars.len() - i,
    {
        let ghost before = out@;
        if chars[i] == '\r' && i + 1 < chars.len() && chars[i + 1] == '\n' {
            out.push('\n');
            proof {
                assert(out@ + unified_from(chars@, i + 2) =~= before + (seq!['\n'] + unified_from(
                    chars@,
                    i + 2,
                )));
            }
            i += 2;
        } else {
            out.push(chars[i]);
            proof {
                assert(out@ + unified_from(chars@, i + 1) =~= before + (seq![chars@[i as int]]
                    + unified_from(chars@, i + 1)));
            }
            i += 1;
        }
    }
    proof {
        assert(out@ + Seq::<char>::empty() =~= out@);
    }
    string_of(&out)
}

/// Computes [`indent`].
fn indent_of(line: &Vec<char>) -> (at: usize)
    ensures
        at == indent(line@),
        at <= line.len(),
{
    let mut at: usize = 0;
    while at < line.len() && line[at] == ' '
        invariant
            at <= line.len(),
            skip_spaces(line@, at as int) == indent(line@),
        decreases line.len() - at,
    {
        at += 1;
    }
    at
}

/// Computes [`starts_at`].
fn starts_with_at(line: &Vec<char>, at: usize, word: &Vec<char>) -> (found: bool)
    requires
        at <= line.len(),
    ensures
        found == starts_at(line@, at as int, word@),
{
    if word.len() > line.len() - at {
        return false;
    }
    let ghost part = line@.subrange(at as int, at + word.len());
    let mut i: usize = 0;
    while i < word.len()
        invariant
            i <= word.len(),
            at + word.len() <= line.len(),
            part == line@.subrange(at as int, at + word.len()),
            forall|j: int| 0 <= j < i ==> part[j] == word@[j],
        decreases word.len() - i,
    {
        if line[at + i] != word[i] {
            proof {
                assert(part[i as int] != word@[i as int]);
            }
            return false;
        }
        i += 1;
    }
    proof {
        assert(part =~= word@);
    }
    true
}

/// Computes [`last_separator`].
fn last_separator_of(line: &Vec<char>) -> (found: Option<usize>)
    ensures
        match found {
            Some(at) => at == last_separator(line@) && at < line.len(),
            None => last_separator(line@) == -1,
        },
{
    let mut end: usize = line.len();
    proof {
        assert(line@.take(end as int) =~= line@);
    }
    while end > 0
        invariant
            end <= line.len(),
            last_separator(line@) == last_separator(line@.take(end as int)),
        decreases end,
    {
        if line[end - 1] == '/' || line[end - 1] == '\\' {
            return Some(end - 1);
        }
        proof {
            assert(line@.take(end as int).drop_last() =~= line@.take(end - 1));
        }
        end -= 1;
    }
    None
}

/// Appends all of `more` to `out`.
fn push_all(out: &mut Vec<char>, more: &Vec<char>, from: usize)
    requires
        from <= more.len(),
    ensures
        final(out)@ == old(out)@ + more@.skip(from as int),
{
    let mut i: usize = from;
    proof {
        assert(out@ =~= old(out)@ + more@.subrange(from as int, i as int));
    }
    while i < more.len()
        invariant
            from <= i <= more.len(),
            out@ == old(out)@ + more@.subrange(from as int, i as int),
        decreases more.len() - i,
    {
        out.push(more[i]);
        i += 1;
        proof {
            assert(out@ =~= old(out)@ + more@.subrange(from as int, i as int));
        }
    }
    proof {
        assert(more@.subrange(from as int, more.len() as int) =~= more@.skip(from as int));
    }
}

/// The words that the canonical form goes by.
struct Words {
    compiling: Vec<char>,
    checking: Vec<char>,
    finished: Vec<char>,
    arrow: Vec<char>,
    dir: Vec<char>,
}

impl Words {
    spec fn well_formed(&self) -> bool {
        &&& self.compiling@ == "Compiling "@
        &&& self.checking@ == "Checking "@
        &&& self.finished@ == "Finished "@
        &&& self.arrow@ == "--> "@
        &&& self.dir@ == "$DIR/"@
    }

    fn new() -> (words: Words)
        ensures
            words.well_formed(),
    {
        Words {
            compiling: chars_of("Compiling "),
            checking: chars_of("Checking "),
            finished: chars_of("Finished "),
            arrow: chars_of("--> "),
            dir: chars_of("$DIR/"),
        }
    }
}

/// Appends to `out` what a line without carriage returns at its end becomes.
fn push_line(out: &mut Vec<char>, line: &Vec<char>, words: &Words)
    requires
        words.well_formed(),
        cleaned(line@) == line@,
    ensures
        final(out)@ == old(out)@ + emitted(line@),
{
    proof {
        reveal_strlit("--> ");
    }
    let at = indent_of(line);
    if starts_with_at(line, at, &words.compiling) || starts_with_at(line, at, &words.checking)
        || starts_with_at(line, at, &words.finished) {
        proof {
            assert(out@ =~= old(out)@ + emitted(line@));
        }
        return ;
    }
    let mut rewritten = false;
    if starts_with_at(line, at, &words.arrow) {
        let start = at + 4;
        match last_separator_of(line) {
            Some(cut) => {
                if cut >= start {
                    let mut i: usize = 0;
                    while i < start
                        invariant
                            i <= start <= line.len(),
                            out@ == old(out)@ + line@.take(i as int),
                        decreases start - i,
                    {
                        out.push(line[i]);
                        i += 1;
                        proof {
                            assert(out@ =~= old(out)@ + line@.take(i as int));
                        }
                    }
                    push_all(out, &words.dir, 0);
                    push_all(out, line, cut + 1);
                    proof {
                        assert(words.dir@.skip(0) =~= words.dir@);
                        assert(out@ =~= old(out)@ + relocated(line@));
                    }
                    rewritten = true;
                }
            },
            None => {},
        }
    }
    if !rewritten {
        push_all(out, line, 0);
        proof {
            assert(line@.skip(0) =~= line@);
        }
    }
    out.push('\n');
    proof {
        assert(out@ =~= old(out)@ + emitted(line@));
    }
}

/// Computes [`normalized`].
pub fn normalize_text(text: &str) -> (clean: String)
    ensures
        clean@ == normalized(text@),
        normalized(clean@) == clean@,
        unified(clean@) == clean@,
{
    proof {
        lemma_normalized_is_idempotent(text@);
        lemma_normalized_is_unified(text@);
    }
    let chars = chars_of(text);
    let words = Words::new();
    let mut out: Vec<char> = Vec::new();
    let mut pos: usize = 0;
    while pos < chars.len()
        invariant
            pos <= chars.len(),
            chars@ == text@,
            words.well_formed(),
            normalized(text@) == out@ + normalized_from(chars@, pos as int),
        decreases chars.len() - pos,
    {
        let ghost before = out@;
        let mut line: Vec<char> = Vec::new();
        let mut end: usize = pos;
        proof {
            assert(line@ =~= chars@.subrange(pos as int, end as int));
        }
        while end < chars.len() && chars[end] != '\n'
            invariant
                pos <= end <= chars.len(),
                line@ == chars@.subrange(pos as int, end as int),
                line_end(chars@, end as int) == line_end(chars@, pos as int),
            decreases chars.len() - end,
        {
            line.push(chars[end]);
            end += 1;
            proof {
                assert(line@ =~= chars@.subrange(pos as int, end as int));
            }
        }
        let ghost raw = line@;
        while line.len() > 0 && line[line.len() - 1] == '\r'
            invariant
                cleaned(line@) == cleaned(raw),
            decreases line.len(),
        {
            proof {
                assert(line@.drop_last() =~= line@.take(line.len() - 1));
            }
            line.pop();
        }
        push_line(&mut out, &line, &words);
        proof {
            assert(out@ == before + emitted(raw));
            if end < chars.len() {
                assert(out@ + normalized_from(chars@, end + 1) =~= before + (emitted(raw)
                    + normalized_from(chars@, end + 1)));
            } else {
                assert(raw =~= chars@.skip(pos as int));
                assert(out@ + normalized_from(chars@, end as int) =~= before + emitted(raw));
            }
        }
        if end < chars.len() {
            pos = end + 1;
        } else {
            pos = end;
        }
    }
    proof {
        assert(out@ + Seq::<char>::empty() =~= out@);
    }
    string_of(&out)
}

/// The diagnostics that a build wrote, in canonical form: the bytes are read
/// as UTF-8 text, with replacement characters where they are none, and the
/// text is brought into canonical form. Bringing the outcome into canonical
/// form again, or unifying its line endings, changes nothing.
pub fn diagnostics(stderr: Vec<u8>) -> (clean: String)
    ensures
        clean@ == normalized(decoded(stderr@)),
        normalized(clean@) == clean@,
        unified(clean@) == clean@,
{
    let text = decode_lossy(&stderr);
    normalize_text(text.as_str())
}

} // verus!
