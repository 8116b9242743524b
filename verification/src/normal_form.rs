//! What holds of diagnostics in canonical form: bringing them into
//! canonical form again changes nothing, and neither does unifying their
//! line endings.

use crate::normalize::{
    cleaned, decoded, emitted, indent, is_location, is_separator, is_status, last_separator, line_end,
    normalized, normalized_from, relocated, skip_spaces, starts_at, unified, unified_from,
};
use vstd::prelude::*;
use vstd::utf8::{encode_utf8, encode_utf8_decode_utf8, encode_utf8_valid_utf8};

verus! {

/// The indentation ends within the line, at its first character that is no
/// space.
pub proof fn lemma_skip_spaces_bounds(line: Seq<char>, from: int)
    requires
        0 <= from <= line.len(),
    ensures
        from <= skip_spaces(line, from) <= line.len(),
        forall|i: int| from <= i < skip_spaces(line, from) ==> line[i] == ' ',
        skip_spaces(line, from) < line.len() ==> line[skip_spaces(line, from)] != ' ',
    decreases line.len() - from,
{
    if from < line.len() && line[from] == ' ' {
        lemma_skip_spaces_bounds(line, from + 1);
    }
}

/// Spaces up to `to`, and none at `to`: the indentation ends at `to`.
pub proof fn lemma_skip_spaces_is(line: Seq<char>, from: int, to: int)
    requires
        0 <= from <= to <= line.len(),
        forall|i: int| from <= i < to ==> line[i] == ' ',
        to < line.len() ==> line[to] != ' ',
    ensures
        skip_spaces(line, from) == to,
    decreases to - from,
{
    if from < to {
        lemma_skip_spaces_is(line, from + 1, to);
    }
}

/// The end of a line lies between its start and the end of the text.
pub proof fn lemma_line_end_bounds(text: Seq<char>, from: int)
    requires
        0 <= from <= text.len(),
    ensures
        from <= line_end(text, from) <= text.len(),
        forall|i: int| from <= i < line_end(text, from) ==> text[i] != '\n',
        line_end(text, from) < text.len() ==> text[line_end(text, from)] == '\n',
    decreases text.len() - from,
{
    if from < text.len() && text[from] != '\n' {
        lemma_line_end_bounds(text, from + 1);
    }
}

/// No line feed up to `to`, and one at `to` unless the text ends there:
/// the line ends at `to`.
pub proof fn lemma_line_end_is(text: Seq<char>, from: int, to: int)
    requires
        0 <= from <= to <= text.len(),
        forall|i: int| from <= i < to ==> text[i] != '\n',
        to < text.len() ==> text[to] == '\n',
    ensures
        line_end(text, from) == to,
    decreases to - from,
{
    if from < to {
        lemma_line_end_is(text, from + 1, to);
    }
}

/// The last separator lies within the line, and no separator follows it.
pub proof fn lemma_last_separator_bounds(line: Seq<char>)
    ensures
        -1 <= last_separator(line) < line.len(),
        last_separator(line) >= 0 ==> is_separator(line[last_separator(line)]),
        forall|i: int| last_separator(line) < i < line.len() ==> !is_separator(line[i]),
    decreases line.len(),
{
    if line.len() > 0 && !is_separator(line.last()) {
        let shorter = line.drop_last();
        lemma_last_separator_bounds(shorter);
        assert forall|i: int| last_separator(line) < i < line.len() implies !is_separator(
            line[i],
        ) by {
            if i < line.len() - 1 {
                assert(shorter[i] == line[i]);
            }
        }
        if last_separator(line) >= 0 {
            assert(shorter[last_separator(line)] == line[last_separator(line)]);
        }
    }
}

/// A separator at `at`, and none behind it: the last separator is at `at`.
pub proof fn lemma_last_separator_is(line: Seq<char>, at: int)
    requires
        0 <= at < line.len(),
        is_separator(line[at]),
        forall|i: int| at < i < line.len() ==> !is_separator(line[i]),
    ensures
        last_separator(line) == at,
    decreases line.len(),
{
    if at < line.len() - 1 {
        let shorter = line.drop_last();
        assert(!is_separator(line[line.len() - 1]));
        assert(shorter[at] == line[at]);
        assert forall|i: int| at < i < shorter.len() implies !is_separator(shorter[i]) by {
            assert(shorter[i] == line[i]);
        }
        lemma_last_separator_is(shorter, at);
    }
}

/// A line without carriage returns at its end is a beginning of the line,
/// and stays as it is when cleaned again.
pub proof fn lemma_cleaned_bounds(line: Seq<char>)
    ensures
        cleaned(line).len() <= line.len(),
        cleaned(line) == line.take(cleaned(line).len() as int),
        cleaned(line).len() == 0 || cleaned(line).last() != '\r',
        cleaned(cleaned(line)) == cleaned(line),
    decreases line.len(),
{
    if line.len() > 0 && line.last() == '\r' {
        let shorter = line.drop_last();
        lemma_cleaned_bounds(shorter);
        assert(shorter.take(cleaned(line).len() as int) =~= line.take(cleaned(line).len() as int));
    } else {
        assert(line.take(line.len() as int) =~= line);
    }
}

/// A line that names a source location is no status line.
pub proof fn lemma_location_is_no_status(line: Seq<char>)
    requires
        is_location(line),
    ensures
        !is_status(line),
{
    reveal_strlit("--> ");
    reveal_strlit("Compiling ");
    reveal_strlit("Checking ");
    reveal_strlit("Finished ");
    let at = indent(line);
    assert(line.subrange(at, at + 4)[0] == line[at]);
    if starts_at(line, at, "Compiling "@) {
        assert(line.subrange(at, at + 10)[0] == line[at]);
    }
    if starts_at(line, at, "Checking "@) {
        assert(line.subrange(at, at + 9)[0] == line[at]);
    }
    if starts_at(line, at, "Finished "@) {
        assert(line.subrange(at, at + 9)[0] == line[at]);
    }
}

/// The shape of a source location whose directory was replaced: it is a
/// source location still, indented as before, its last separator is the one
/// behind `$DIR`, and replacing its directory again changes nothing.
pub proof fn lemma_relocated_shape(line: Seq<char>)
    requires
        is_location(line),
        last_separator(line) >= indent(line) + 4,
    ensures
        relocated(line) == line.take(indent(line) + 4) + "$DIR/"@ + line.skip(
            last_separator(line) + 1,
        ),
        indent(relocated(line)) == indent(line),
        is_location(relocated(line)),
        last_separator(relocated(line)) == indent(line) + 8,
        relocated(relocated(line)) == relocated(line),
{
    reveal_strlit("--> ");
    reveal_strlit("$DIR/");
    let at = indent(line);
    let start = at + 4;
    let cut = last_separator(line);
    let moved = relocated(line);
    lemma_skip_spaces_bounds(line, 0);
    lemma_last_separator_bounds(line);
    assert(line.subrange(at, at + 4)[0] == line[at]);
    assert(moved.len() == start + 5 + (line.len() - cut - 1));
    assert forall|i: int| 0 <= i < start implies moved[i] == line[i] by {}
    lemma_skip_spaces_is(moved, 0, at);
    assert(moved.subrange(at, at + 4) =~= line.subrange(at, at + 4));
    assert(moved[start + 4] == "$DIR/"@[4]);
    assert forall|i: int| start + 4 < i < moved.len() implies !is_separator(moved[i]) by {
        assert(moved[i] == line[cut + 1 + (i - start - 5)]);
    }
    lemma_last_separator_is(moved, start + 4);
    assert(moved.take(start) =~= line.take(start));
    assert(moved.skip(start + 5) =~= line.skip(cut + 1));
    assert(relocated(moved) =~= moved);
}

/// What a line becomes is the canonical line, which holds no line feed and
/// ends in no carriage return, and which becomes itself: it is kept, and
/// kept as it is.
pub proof fn lemma_emitted_line(line: Seq<char>)
    requires
        forall|i: int| 0 <= i < line.len() ==> line[i] != '\n',
    ensures
        forall|i: int|
            0 <= i < relocated(cleaned(line)).len() ==> relocated(cleaned(line))[i] != '\n',
        relocated(cleaned(line)).len() == 0 || relocated(cleaned(line)).last() != '\r',
        !is_status(cleaned(line)) ==> emitted(relocated(cleaned(line))) == relocated(
            cleaned(line),
        ).push('\n'),
{
    reveal_strlit("$DIR/");
    let kept = cleaned(line);
    let moved = relocated(kept);
    lemma_cleaned_bounds(line);
    assert forall|i: int| 0 <= i < kept.len() implies kept[i] != '\n' by {
        assert(kept[i] == line[i]);
    }
    if is_location(kept) && last_separator(kept) >= indent(kept) + 4 {
        let start = indent(kept) + 4;
        let cut = last_separator(kept);
        lemma_relocated_shape(kept);
        lemma_last_separator_bounds(kept);
        lemma_skip_spaces_bounds(kept, 0);
        assert(moved.len() == start + 5 + (kept.len() - cut - 1));
        assert forall|i: int| 0 <= i < moved.len() implies moved[i] != '\n' by {
            if i < start {
                assert(moved[i] == kept[i]);
            } else if i < start + 5 {
                assert(moved[i] == "$DIR/"@[i - start]);
            } else {
                assert(moved[i] == kept[cut + 1 + (i - start - 5)]);
            }
        }
        if cut + 1 < kept.len() {
            assert(moved.last() == kept[kept.len() - 1]);
        } else {
            assert(moved.last() == "$DIR/"@[4]);
        }
        lemma_location_is_no_status(moved);
        assert(cleaned(moved) == moved);
    } else {
        assert(moved == kept);
    }
}

/// A line that is no status line, names no source location and ends in no
/// carriage return is kept as it is.
pub proof fn lemma_plain_line_is_kept(line: Seq<char>)
    requires
        !is_status(line),
        !is_location(line),
        line.len() == 0 || line.last() != '\r',
    ensures
        emitted(line) == line.push('\n'),
{
}

/// Behind a text, a line ends where it ends in what follows the text.
pub proof fn lemma_line_end_shift(before: Seq<char>, text: Seq<char>, from: int)
    requires
        0 <= from <= text.len(),
    ensures
        line_end(before + text, before.len() + from) == before.len() + line_end(text, from),
{
    let whole = before + text;
    let end = line_end(text, from);
    lemma_line_end_bounds(text, from);
    assert forall|i: int| before.len() + from <= i < before.len() + end implies whole[i]
        != '\n' by {
        assert(whole[i] == text[i - before.len()]);
    }
    if end < text.len() {
        assert(whole[before.len() + end] == text[end]);
    }
    lemma_line_end_is(whole, before.len() + from, before.len() + end);
}

/// Behind a text, the canonical form is that of what follows the text.
pub proof fn lemma_normalized_shift(before: Seq<char>, text: Seq<char>, from: int)
    requires
        0 <= from,
    ensures
        normalized_from(before + text, before.len() + from) == normalized_from(text, from),
    decreases text.len() - from,
{
    let whole = before + text;
    if from < text.len() {
        let end = line_end(text, from);
        lemma_line_end_bounds(text, from);
        lemma_line_end_shift(before, text, from);
        if end < text.len() {
            assert(whole.subrange(before.len() + from, before.len() + end) =~= text.subrange(
                from,
                end,
            ));
            lemma_normalized_shift(before, text, end + 1);
        } else {
            assert(whole.skip(before.len() + from) =~= text.skip(from));
        }
    }
}

/// What a line becomes, before a text in canonical form, is in canonical
/// form.
pub proof fn lemma_emitted_before_normalized(line: Seq<char>, rest: Seq<char>)
    requires
        forall|i: int| 0 <= i < line.len() ==> line[i] != '\n',
        normalized(rest) == rest,
    ensures
        normalized(emitted(line) + rest) == emitted(line) + rest,
{
    let first = emitted(line);
    let whole = first + rest;
    if is_status(cleaned(line)) {
        assert(whole =~= rest);
    } else {
        let kept = relocated(cleaned(line));
        lemma_emitted_line(line);
        assert(first == kept.push('\n'));
        assert forall|i: int| 0 <= i < kept.len() implies whole[i] != '\n' by {
            assert(whole[i] == kept[i]);
        }
        assert(whole[kept.len() as int] == '\n');
        lemma_line_end_is(whole, 0, kept.len() as int);
        assert(whole.subrange(0, kept.len() as int) =~= kept);
        lemma_normalized_shift(first, rest, 0);
        assert(normalized_from(whole, kept.len() as int + 1) == rest);
    }
}

/// The canonical form of any part of a text is in canonical form.
pub proof fn lemma_normalized_from_is_normalized(text: Seq<char>, from: int)
    requires
        0 <= from,
    ensures
        normalized(normalized_from(text, from)) == normalized_from(text, from),
    decreases text.len() - from,
{
    if from < text.len() {
        let end = line_end(text, from);
        lemma_line_end_bounds(text, from);
        if end < text.len() {
            let line = text.subrange(from, end);
            assert forall|i: int| 0 <= i < line.len() implies line[i] != '\n' by {
                assert(line[i] == text[from + i]);
            }
            lemma_normalized_from_is_normalized(text, end + 1);
            lemma_emitted_before_normalized(line, normalized_from(text, end + 1));
        } else {
            let line = text.skip(from);
            assert forall|i: int| 0 <= i < line.len() implies line[i] != '\n' by {
                assert(line[i] == text[from + i]);
            }
            lemma_emitted_before_normalized(line, Seq::empty());
            assert(emitted(line) + Seq::<char>::empty() =~= emitted(line));
        }
    }
}

/// Bringing diagnostics into canonical form is idempotent: doing it twice
/// gives what doing it once gives.
pub proof fn lemma_normalized_is_idempotent(text: Seq<char>)
    ensures
        normalized(normalized(text)) == normalized(text),
{
    lemma_normalized_from_is_normalized(text, 0);
}

/// The diagnostics of a build stay as they are when they are taken for the
/// output of a build in their turn: encoded as bytes, read as text again and
/// brought into canonical form.
pub proof fn lemma_diagnostics_of_diagnostics(stderr: Seq<u8>)
    ensures
        normalized(decoded(encode_utf8(normalized(decoded(stderr))))) == normalized(
            decoded(stderr),
        ),
{
    let once = normalized(decoded(stderr));
    encode_utf8_valid_utf8(once);
    encode_utf8_decode_utf8(once);
    lemma_normalized_is_idempotent(decoded(stderr));
}

/// Whether a line feed follows a carriage return somewhere in `text`.
pub open spec fn has_crlf(text: Seq<char>) -> bool {
    exists|i: int| 0 <= i < text.len() - 1 && #[trigger] text[i] == '\r' && text[i + 1] == '\n'
}

/// Unifying the line endings of a text in which no line feed follows a
/// carriage return changes nothing.
pub proof fn lemma_unified_without_crlf(text: Seq<char>, from: int)
    requires
        !has_crlf(text),
        0 <= from <= text.len(),
    ensures
        unified_from(text, from) == text.skip(from),
    decreases text.len() - from,
{
    if from < text.len() {
        if text[from] == '\r' && from + 1 < text.len() {
            assert(text[from + 1] != '\n');
        }
        lemma_unified_without_crlf(text, from + 1);
        assert(seq![text[from]] + text.skip(from + 1) =~= text.skip(from));
    } else {
        assert(text.skip(from) =~= Seq::empty());
    }
}

/// In canonical form no line feed follows a carriage return, and the text
/// does not end in a carriage return.
pub proof fn lemma_normalized_has_no_crlf(text: Seq<char>, from: int)
    requires
        0 <= from,
    ensures
        !has_crlf(normalized_from(text, from)),
        normalized_from(text, from).len() == 0 || normalized_from(text, from).last() == '\n',
    decreases text.len() - from,
{
    if from < text.len() {
        let end = line_end(text, from);
        lemma_line_end_bounds(text, from);
        let line = if end < text.len() {
            text.subrange(from, end)
        } else {
            text.skip(from)
        };
        let rest = if end < text.len() {
            normalized_from(text, end + 1)
        } else {
            Seq::empty()
        };
        assert forall|i: int| 0 <= i < line.len() implies line[i] != '\n' by {
            assert(line[i] == text[from + i]);
        }
        if end < text.len() {
            lemma_normalized_has_no_crlf(text, end + 1);
        }
        let whole = emitted(line) + rest;
        assert(normalized_from(text, from) =~= whole);
        lemma_emitted_line(line);
        let kept = relocated(cleaned(line));
        assert forall|i: int| 0 <= i < whole.len() - 1 && #[trigger] whole[i] == '\r' implies whole[i
            + 1] != '\n' by {
            let first = emitted(line);
            if i + 1 < first.len() {
                assert(whole[i] == first[i]);
                assert(whole[i + 1] == first[i + 1]);
                if i + 1 == kept.len() {
                    assert(first[i] == kept.last());
                } else {
                    assert(first[i + 1] == kept[i + 1]);
                }
            } else if i < first.len() {
                assert(whole[i] == first[i]);
                assert(first[i] == '\n');
            } else {
                assert(whole[i] == rest[i - first.len()]);
                assert(whole[i + 1] == rest[i + 1 - first.len()]);
                assert(rest[i - first.len() + 1] != '\n');
            }
        }
    }
}

/// Diagnostics in canonical form stay as they are when their line endings
/// are unified.
pub proof fn lemma_normalized_is_unified(text: Seq<char>)
    ensures
        unified(normalized(text)) == normalized(text),
{
    lemma_normalized_has_no_crlf(text, 0);
    lemma_unified_without_crlf(normalized(text), 0);
    assert(normalized(text).skip(0) =~= normalized(text));
}

} // verus!
