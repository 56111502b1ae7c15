//! The text form of a list of paths: one path per line, joined by `\n`.
//!
//! A position in the list of lines is the only link between an edited line
//! and the path it replaces, so joining and splitting must agree on every
//! index. This module states both as functions on sequences of characters
//! and proves that splitting undoes joining.

use vstd::prelude::*;
use vstd::string::StringExecFns;

verus! {

/// The character that separates two lines.
pub open spec fn newline() -> char {
    '\n'
}

/// Whether a line is free of the separator, so that it can stand in a text
/// without being cut in two.
pub open spec fn is_single_line(line: Seq<char>) -> bool {
    forall|i: int| 0 <= i < line.len() ==> line[i] != newline()
}

/// Whether every line of a list is free of the separator.
pub open spec fn all_single_line(lines: Seq<Seq<char>>) -> bool {
    forall|i: int| 0 <= i < lines.len() ==> is_single_line(#[trigger] lines[i])
}

/// The character sequences of a list of strings, index by index.
pub open spec fn texts(strings: Seq<String>) -> Seq<Seq<char>> {
    Seq::new(strings.len(), |i: int| strings[i]@)
}

/// The text of a list of lines: the lines in order with one separator
/// between each two neighbours, none before the first and none after the last.
pub open spec fn joined(lines: Seq<Seq<char>>) -> Seq<char>
    decreases lines.len(),
{
    if lines.len() == 0 {
        Seq::empty()
    } else if lines.len() == 1 {
        lines[0]
    } else {
        joined(lines.drop_last()) + seq![newline()] + lines.last()
    }
}

/// The fields of a text: the text cut at every separator. A text with `n`
/// separators has `n + 1` fields, some of which may be empty.
pub open spec fn fields(text: Seq<char>) -> Seq<Seq<char>>
    decreases text.len(),
{
    if text.len() == 0 {
        seq![Seq::empty()]
    } else {
        let before = fields(text.drop_last());
        if text.last() == newline() {
            before.push(Seq::empty())
        } else {
            before.drop_last().push(before.last().push(text.last()))
        }
    }
}

/// The lines of a text. The empty text holds no line; any other text holds
/// its fields, so that a blank line keeps its position and shifts no other.
pub open spec fn lines_of(text: Seq<char>) -> Seq<Seq<char>> {
    if text.len() == 0 {
        Seq::empty()
    } else {
        fields(text)
    }
}

/// Every text has at least one field.
pub proof fn lemma_fields_nonempty(text: Seq<char>)
    ensures
        fields(text).len() >= 1,
    decreases text.len(),
{
    if text.len() > 0 {
        lemma_fields_nonempty(text.drop_last());
    }
}

/// No field of a text holds a separator.
pub proof fn lemma_fields_single_line(text: Seq<char>)
    ensures
        all_single_line(fields(text)),
    decreases text.len(),
{
    if text.len() > 0 {
        lemma_fields_nonempty(text.drop_last());
        lemma_fields_single_line(text.drop_last());
    }
}

/// A text without a separator is its own single field.
pub proof fn lemma_fields_of_line(line: Seq<char>)
    requires
        is_single_line(line),
    ensures
        fields(line) == seq![line],
    decreases line.len(),
{
    if line.len() == 0 {
        assert(line =~= Seq::<char>::empty());
    } else {
        let front = line.drop_last();
        lemma_fields_of_line(front);
        assert(front.push(line.last()) =~= line);
        assert(fields(line) =~= seq![line]);
    }
}

/// Appending a separator and one more line to a text appends that line to
/// the text's fields.
pub proof fn lemma_fields_append_line(text: Seq<char>, line: Seq<char>)
    requires
        is_single_line(line),
    ensures
        fields(text + seq![newline()] + line) == fields(text).push(line),
    decreases line.len(),
{
    let whole = text + seq![newline()] + line;
    if line.len() == 0 {
        assert(whole.drop_last() =~= text);
        assert(line =~= Seq::<char>::empty());
    } else {
        lemma_fields_append_line(text, line.drop_last());
        assert(whole.drop_last() =~= text + seq![newline()] + line.drop_last());
        assert(whole.last() == line.last());
        let before = fields(text).push(line.drop_last());
        assert(before.drop_last() =~= fields(text));
        assert(line.drop_last().push(line.last()) =~= line);
    }
}

/// The fields of a joined list are the list itself, provided that the list is
/// not empty and no line of it holds a separator.
pub proof fn lemma_fields_of_joined(lines: Seq<Seq<char>>)
    requires
        lines.len() >= 1,
        all_single_line(lines),
    ensures
        fields(joined(lines)) == lines,
    decreases lines.len(),
{
    if lines.len() == 1 {
        lemma_fields_of_line(lines[0]);
        assert(seq![lines[0]] =~= lines);
    } else {
        let front = lines.drop_last();
        assert(all_single_line(front)) by {
            assert forall|i: int| 0 <= i < front.len() implies is_single_line(
                #[trigger] front[i],
            ) by {
                assert(front[i] == lines[i]);
            }
        }
        lemma_fields_of_joined(front);
        lemma_fields_append_line(joined(front), lines.last());
        assert(front.push(lines.last()) =~= lines);
    }
}

/// Joining the fields of a text gives the text back, character for character.
pub proof fn lemma_joined_fields(text: Seq<char>)
    ensures
        joined(fields(text)) == text,
    decreases text.len(),
{
    if text.len() == 0 {
        assert(joined(fields(text)) =~= text);
    } else {
        let front = text.drop_last();
        let before = fields(front);
        lemma_fields_nonempty(front);
        lemma_joined_fields(front);
        if text.last() == newline() {
            let after = before.push(Seq::empty());
            assert(after.drop_last() =~= before);
            assert(joined(after) =~= front + seq![newline()]);
            assert(front + seq![newline()] =~= text);
        } else {
            let grown = before.last().push(text.last());
            let after = before.drop_last().push(grown);
            assert(after.drop_last() =~= before.drop_last());
            assert(joined(after) =~= joined(before).push(text.last()));
            assert(front.push(text.last()) =~= text);
        }
    }
}

/// Splitting undoes joining: the lines of a joined list are the list itself,
/// of the same length and with the same content at every index. This holds of
/// the empty list too. It asks that no line holds a separator and that the
/// list is not the single empty line, whose text is that of the empty list.
pub proof fn law_split_undoes_join(lines: Seq<Seq<char>>)
    requires
        all_single_line(lines),
        !(lines.len() == 1 && lines[0].len() == 0),
    ensures
        lines_of(joined(lines)) == lines,
        lines_of(joined(lines)).len() == lines.len(),
        forall|i: int| 0 <= i < lines.len() ==> lines_of(joined(lines))[i] == lines[i],
{
    if lines.len() == 0 {
        assert(lines_of(joined(lines)) =~= lines);
    } else {
        lemma_fields_of_joined(lines);
        if lines.len() >= 2 {
            assert(joined(lines).len() > 0);
        }
    }
}

/// Joining undoes splitting: the joined lines of a text are the text itself.
pub proof fn law_join_undoes_split(text: Seq<char>)
    ensures
        joined(lines_of(text)) == text,
        all_single_line(lines_of(text)),
{
    if text.len() == 0 {
        assert(joined(lines_of(text)) =~= text);
    } else {
        lemma_joined_fields(text);
        lemma_fields_single_line(text);
    }
}

/// Appends one character to a string.
///
/// Trusted: calls `String::push` of the standard library, which is documented
/// to append the given character to the end of the string.
#[verifier::external_body]
fn push_char(s: &mut String, c: char)
    ensures
        final(s)@ == old(s)@.push(c),
{
    s.push(c);
}

/// Splits a text into its lines, cutting at every `\n`.
///
/// The empty text has no line. In any other text every separator ends a line
/// and starts the next, so an empty line keeps its index, and a text that
/// ends in a separator has an empty last line.
pub fn split_lines(text: &str) -> (lines: Vec<String>)
    ensures
        texts(lines@) == lines_of(text@),
{
    broadcast use vstd::string::group_string_axioms;

    let mut lines: Vec<String> = Vec::new();
    let mut current = String::new();
    let mut seen = false;
    for c in it: text.chars()
        invariant
            it.seq() == text@,
            seen == (it.index() > 0),
            fields(text@.take(it.index())) == texts(lines@).push(current@),
    {
        proof {
            let done = text@.take(it.index());
            let next = text@.take(it.index() + 1);
            assert(next.drop_last() =~= done);
            assert(next.last() == c);
            assert(texts(lines@).push(current@).drop_last() =~= texts(lines@));
        }
        if c == '\n' {
            proof {
                assert(texts(lines@.push(current)) =~= texts(lines@).push(current@));
            }
            lines.push(current);
            current = String::new();
        } else {
            push_char(&mut current, c);
        }
        seen = true;
    }
    proof {
        assert(text@.take(text@.len() as int) =~= text@);
    }
    if seen {
        proof {
            assert(texts(lines@.push(current)) =~= texts(lines@).push(current@));
        }
        lines.push(current);
    } else {
        proof {
            assert(texts(lines@) =~= Seq::<Seq<char>>::empty());
        }
    }
    lines
}

/// Joins lines into one text, with a `\n` between each two neighbours and
/// none at the end.
pub fn join_lines(lines: &Vec<String>) -> (text: String)
    ensures
        text@ == joined(texts(lines@)),
{
    let mut text = String::new();
    let mut i: usize = 0;
    while i < lines.len()
        invariant
            i <= lines.len(),
            text@ == joined(texts(lines@).take(i as int)),
        decreases lines.len() - i,
    {
        proof {
            reveal_strlit("\n");
            let done = texts(lines@).take(i as int);
            let next = texts(lines@).take(i + 1);
            assert(next.drop_last() =~= done);
            assert(next.last() == lines@[i as int]@);
            assert("\n"@ =~= seq![newline()]);
            assert(Seq::<char>::empty() + lines@[i as int]@ =~= lines@[i as int]@);
        }
        if i > 0 {
            text.append("\n");
        }
        text.append(lines[i].as_str());
        i = i + 1;
    }
    proof {
        assert(texts(lines@).take(lines.len() as int) =~= texts(lines@));
    }
    text
}

} // verus!
