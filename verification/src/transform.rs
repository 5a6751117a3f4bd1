//! The two transforms of a text: snake_case lines to camelCase, and the
//! text as it is.

use vstd::prelude::*;
use crate::camel::{camel, camel_case, lemma_camel_single_segment, lowercase};
use crate::chars::is_whitespace;
use crate::lines::{
    contains_whitespace, has_whitespace, lemma_line_in_text, lemma_lines_concat,
    lemma_lines_single, lemma_trim_cut, lemma_trim_nothing, lines, lines_of, rows, strip_cr, trim,
    trim_of,
};
use crate::split::{free_of, join};
use crate::text::{chars_of, string_of};

verus! {

/// A line that was left out because white space stands inside it.
#[derive(Debug, PartialEq, Eq)]
pub struct Notice {
    /// The place of the line in the text, counted from 0.
    pub index: usize,
    /// The line as it stands in the text.
    pub line: String,
}

impl View for Notice {
    type V = (nat, Seq<char>);

    open spec fn view(&self) -> (nat, Seq<char>) {
        (self.index as nat, self.line@)
    }
}

impl DeepView for Notice {
    type V = (nat, Seq<char>);

    open spec fn deep_view(&self) -> (nat, Seq<char>) {
        self@
    }
}

/// What converting a text gives: the converted lines, and a notice for each
/// line that was left out for the white space inside it.
#[derive(Debug, PartialEq, Eq)]
pub struct Conversion {
    /// The converted lines, in the order of the text.
    pub lines: Vec<String>,
    /// The lines left out, in the order of the text.
    pub ignored: Vec<Notice>,
}

/// A `Conversion` with its lines as character sequences.
pub struct ConversionView {
    pub lines: Seq<Seq<char>>,
    pub ignored: Seq<(nat, Seq<char>)>,
}

impl View for Conversion {
    type V = ConversionView;

    open spec fn view(&self) -> ConversionView {
        ConversionView { lines: self.lines.deep_view(), ignored: self.ignored.deep_view() }
    }
}

/// A line that holds nothing but white space.
pub open spec fn is_blank(line: Seq<char>) -> bool {
    trim(line).len() == 0
}

/// A line with white space inside it, between other characters.
pub open spec fn is_malformed(line: Seq<char>) -> bool {
    has_whitespace(trim(line))
}

/// A line that is converted: not blank, and no white space inside it.
pub open spec fn is_identifier(line: Seq<char>) -> bool {
    !is_blank(line) && !is_malformed(line)
}

/// The converted lines: of the lines that hold an identifier, in their
/// order, the camelCase form of what stands between the white space.
pub open spec fn converted(ls: Seq<Seq<char>>) -> Seq<Seq<char>> {
    ls.filter(|l: Seq<char>| is_identifier(l)).map_values(|l: Seq<char>| camel(trim(l)))
}

/// Each line with its place in the text, counted from 0.
pub open spec fn numbered(ls: Seq<Seq<char>>) -> Seq<(nat, Seq<char>)> {
    Seq::new(ls.len(), |k: int| (k as nat, ls[k]))
}

/// The malformed lines, in their order, each with its place in the text.
pub open spec fn ignored(ls: Seq<Seq<char>>) -> Seq<(nat, Seq<char>)> {
    numbered(ls).filter(|e: (nat, Seq<char>)| is_malformed(e.1))
}

/// How many of the lines are not empty.
pub open spec fn count_nonempty(ls: Seq<Seq<char>>) -> nat {
    ls.filter(|l: Seq<char>| l.len() > 0).len()
}

/// The text that the snake-to-camel transform makes of `text`: its
/// converted lines with `line_ending` between them.
pub open spec fn snake_to_camel(text: Seq<char>, line_ending: Seq<char>) -> Seq<char> {
    join(converted(lines(text)), line_ending)
}

/// What converting `text` gives: the converted lines, and each malformed
/// line with its place.
pub open spec fn conversion_of(text: Seq<char>) -> ConversionView {
    ConversionView { lines: converted(lines(text)), ignored: ignored(lines(text)) }
}

/// The text that the identity transform makes of `text`.
pub open spec fn unchanged(text: Seq<char>) -> Seq<char> {
    text
}

/// Converts the lines of `contents` that hold an identifier, and reports
/// the lines with white space inside them. Blank lines are left out
/// without a notice.
pub fn convert(contents: &str) -> (out: Conversion)
    ensures
        out@ == conversion_of(contents@),
{
    let text = chars_of(contents);
    let all = lines_of(text.as_slice());
    let mut kept: Vec<String> = Vec::new();
    let mut left_out: Vec<Notice> = Vec::new();
    let mut k: usize = 0;
    proof {
        reveal(Seq::filter);
        assert(rows(all@).take(0) == Seq::<Seq<char>>::empty());
        assert(numbered(Seq::<Seq<char>>::empty()) == Seq::<(nat, Seq<char>)>::empty());
        assert(kept.deep_view() == converted(rows(all@).take(0)));
        assert(left_out.deep_view() == ignored(rows(all@).take(0)));
    }
    while k < all.len()
        invariant
            k <= all.len(),
            kept.deep_view() == converted(rows(all@).take(k as int)),
            left_out.deep_view() == ignored(rows(all@).take(k as int)),
        decreases all.len() - k,
    {
        let line = all[k].as_slice();
        let body = trim_of(line);
        let ghost kept_before = kept.deep_view();
        let ghost left_out_before = left_out.deep_view();
        proof {
            lemma_converted_push(rows(all@).take(k as int), line@);
            lemma_ignored_push(rows(all@).take(k as int), line@);
            assert(rows(all@).take(k as int).push(line@) == rows(all@).take(k + 1));
        }
        if body.len() > 0 {
            if contains_whitespace(body) {
                let notice = Notice { index: k, line: string_of(line) };
                left_out.push(notice);
                assert(left_out.deep_view() == left_out_before.push((k as nat, line@)));
            } else {
                let name = camel_case(body);
                let entry = string_of(name.as_slice());
                kept.push(entry);
                assert(kept.deep_view() == kept_before.push(camel(trim(line@))));
            }
        }
        k += 1;
    }
    proof {
        assert(rows(all@).take(all.len() as int) == rows(all@));
    }
    Conversion { lines: kept, ignored: left_out }
}

/// Puts lines together, with `line_ending` between each two.
pub fn join_lines(lines: &Vec<String>, line_ending: &str) -> (out: String)
    ensures
        out@ == join(lines.deep_view(), line_ending@),
{
    let mut out = String::new();
    let mut k: usize = 0;
    proof {
        assert(lines.deep_view().take(0) == Seq::<Seq<char>>::empty());
    }
    while k < lines.len()
        invariant
            k <= lines.len(),
            out@ == join(lines.deep_view().take(k as int), line_ending@),
        decreases lines.len() - k,
    {
        let ghost before = out@;
        if k > 0 {
            out.append(line_ending);
        }
        out.append(lines[k].as_str());
        proof {
            let ls = lines.deep_view();
            assert(ls.take(k + 1).drop_last() == ls.take(k as int));
            assert(ls.take(k + 1).last() == lines[k as int]@);
            if k == 0 {
                assert(before + lines[k as int]@ == lines[k as int]@);
            }
        }
        k += 1;
    }
    proof {
        assert(lines.deep_view().take(lines.len() as int) == lines.deep_view());
    }
    out
}

/// The snake-to-camel transform. Every line of `contents` that holds an
/// identifier is converted to camelCase; blank lines and lines with white
/// space inside them are left out. The converted lines stand in the
/// result in their order, with `line_ending` between each two.
pub fn uscc(contents: String, line_ending: &str) -> (out: String)
    ensures
        out@ == snake_to_camel(contents@, line_ending@),
{
    let conversion = convert(contents.as_str());
    join_lines(&conversion.lines, line_ending)
}

/// The identity transform: the text as it is.
pub fn ccus(contents: String) -> (out: String)
    ensures
        out == contents,
        out@ == unchanged(contents@),
{
    contents
}

/// One more line at the end: it adds its converted form if it holds an
/// identifier, and nothing otherwise.
pub proof fn lemma_converted_push(ls: Seq<Seq<char>>, l: Seq<char>)
    ensures
        converted(ls.push(l)) == if is_identifier(l) {
            converted(ls).push(camel(trim(l)))
        } else {
            converted(ls)
        },
{
    ls.lemma_filter_push(l, |l: Seq<char>| is_identifier(l));
    if is_identifier(l) {
        ls.filter(|l: Seq<char>| is_identifier(l)).lemma_push_map_commute(
            |l: Seq<char>| camel(trim(l)),
            l,
        );
    }
}

/// One more line at the end: it adds a notice if it is malformed, and
/// nothing otherwise.
pub proof fn lemma_ignored_push(ls: Seq<Seq<char>>, l: Seq<char>)
    ensures
        ignored(ls.push(l)) == if is_malformed(l) {
            ignored(ls).push((ls.len(), l))
        } else {
            ignored(ls)
        },
{
    assert(numbered(ls.push(l)) == numbered(ls).push((ls.len(), l)));
    numbered(ls).lemma_filter_push((ls.len(), l), |e: (nat, Seq<char>)| is_malformed(e.1));
}

/// One more line at the end: it counts if it is not empty.
pub proof fn lemma_count_nonempty_push(ls: Seq<Seq<char>>, l: Seq<char>)
    ensures
        count_nonempty(ls.push(l)) == count_nonempty(ls) + if l.len() > 0 {
            1nat
        } else {
            0nat
        },
{
    ls.lemma_filter_push(l, |l: Seq<char>| l.len() > 0);
}

/// The converted lines of two runs of lines, one after the other, are those
/// of the first followed by those of the second: every line is converted by
/// itself, and the lines keep their order.
pub proof fn lemma_converted_concat(a: Seq<Seq<char>>, b: Seq<Seq<char>>)
    ensures
        converted(a + b) == converted(a) + converted(b),
    decreases b.len(),
{
    if b.len() == 0 {
        assert(a + b == a);
        assert(converted(b) == Seq::<Seq<char>>::empty()) by {
            reveal(Seq::filter);
        }
        assert(converted(a) + converted(b) == converted(a));
    } else {
        lemma_converted_concat(a, b.drop_last());
        lemma_converted_push(a + b.drop_last(), b.last());
        lemma_converted_push(b.drop_last(), b.last());
        assert((a + b.drop_last()).push(b.last()) == a + b);
        assert(b.drop_last().push(b.last()) == b);
        if is_identifier(b.last()) {
            assert((converted(a) + converted(b.drop_last())).push(camel(trim(b.last())))
                == converted(a) + converted(b.drop_last()).push(camel(trim(b.last()))));
        }
    }
}

/// No more lines come out than lines that are not empty go in: each line
/// that is not empty is converted, or left out with a notice, or left out
/// silently because it is blank.
pub proof fn lemma_output_bounded(ls: Seq<Seq<char>>)
    ensures
        converted(ls).len() + ignored(ls).len() <= count_nonempty(ls) <= ls.len(),
    decreases ls.len(),
{
    if ls.len() == 0 {
        reveal(Seq::filter);
    } else {
        let init = ls.drop_last();
        let l = ls.last();
        lemma_output_bounded(init);
        lemma_converted_push(init, l);
        lemma_ignored_push(init, l);
        lemma_count_nonempty_push(init, l);
        assert(init.push(l) == ls);
        if l.len() == 0 {
            assert(trim(l) == l);
        }
    }
}

/// A line with white space between two other characters is malformed.
pub proof fn lemma_embedded_whitespace(line: Seq<char>, i: int, j: int, k: int)
    requires
        0 <= i < j < k < line.len(),
        !is_whitespace(line[i]),
        is_whitespace(line[j]),
        !is_whitespace(line[k]),
    ensures
        is_malformed(line),
{
    let cut = lemma_trim_cut(line);
    assert(cut.0 <= i);
    assert(k < cut.1);
    assert(trim(line)[j - cut.0] == line[j]);
}

/// What a single line gives: its converted form if it holds an identifier,
/// and nothing otherwise. A carriage return at its end changes nothing.
pub proof fn lemma_converted_one(line: Seq<char>)
    ensures
        converted(seq![line]) == if is_identifier(line) {
            seq![camel(trim(line))]
        } else {
            Seq::<Seq<char>>::empty()
        },
        converted(seq![strip_cr(line)]) == converted(seq![line]),
{
    let none = Seq::<Seq<char>>::empty();
    assert(converted(none) == none) by {
        reveal(Seq::filter);
    }
    lemma_converted_push(none, line);
    lemma_converted_push(none, strip_cr(line));
    assert(none.push(line) == seq![line]);
    assert(none.push(strip_cr(line)) == seq![strip_cr(line)]);
    assert(none.push(camel(trim(line))) == seq![camel(trim(line))]);
}

/// A line that holds an identifier stands converted in the output, between
/// what the text before it gives and what the text after it gives: one
/// line more than the text gives without it.
pub proof fn lemma_identifier_line_kept(before: Seq<char>, line: Seq<char>, after: Seq<char>)
    requires
        before.len() == 0 || before.last() == '\n',
        free_of(line, '\n'),
        is_identifier(line),
    ensures
        converted(lines(before + line + seq!['\n'] + after)) == converted(lines(before)) + seq![
            camel(trim(line)),
        ] + converted(lines(after)),
        converted(lines(before + line + seq!['\n'] + after)).len() == converted(
            lines(before + after),
        ).len() + 1,
{
    lemma_line_in_text(before, line, after);
    lemma_lines_concat(before, after);
    lemma_converted_concat(lines(before), lines(after));
    lemma_converted_concat(lines(before), seq![strip_cr(line)]);
    lemma_converted_concat(lines(before) + seq![strip_cr(line)], lines(after));
    lemma_converted_one(line);
}

/// A line that holds no identifier, be it blank or malformed, is left out
/// of the output: the text gives what it gives without the line, with the
/// other lines in their order.
pub proof fn lemma_other_line_dropped(before: Seq<char>, line: Seq<char>, after: Seq<char>)
    requires
        before.len() == 0 || before.last() == '\n',
        free_of(line, '\n'),
        !is_identifier(line),
    ensures
        converted(lines(before + line + seq!['\n'] + after)) == converted(lines(before + after)),
        converted(lines(before + line)) == converted(lines(before)),
{
    lemma_line_in_text(before, line, after);
    lemma_lines_concat(before, after);
    lemma_converted_concat(lines(before), lines(after));
    lemma_converted_concat(lines(before), seq![strip_cr(line)]);
    lemma_converted_concat(lines(before) + seq![strip_cr(line)], lines(after));
    lemma_converted_one(line);
    assert(converted(lines(before)) + Seq::<Seq<char>>::empty() == converted(lines(before)));
    lemma_lines_concat(before, line);
    if line.len() > 0 {
        lemma_lines_single(line);
        lemma_converted_concat(lines(before), seq![line]);
    } else {
        assert(before + line == before);
    }
}

/// A line with white space inside it is absent from the output, wherever
/// in the text it stands: the output is that of the text without the line.
pub proof fn lemma_malformed_line_dropped(
    before: Seq<char>,
    line: Seq<char>,
    after: Seq<char>,
    line_ending: Seq<char>,
)
    requires
        before.len() == 0 || before.last() == '\n',
        free_of(line, '\n'),
        is_malformed(line),
    ensures
        snake_to_camel(before + line + seq!['\n'] + after, line_ending) == snake_to_camel(
            before + after,
            line_ending,
        ),
        snake_to_camel(before + line, line_ending) == snake_to_camel(before, line_ending),
{
    lemma_other_line_dropped(before, line, after);
}

/// A text of one identifier without an underscore comes out in lower case,
/// and nothing else is done to it.
pub proof fn lemma_single_token(line: Seq<char>, line_ending: Seq<char>)
    requires
        line.len() > 0,
        !has_whitespace(line),
        free_of(line, '_'),
    ensures
        snake_to_camel(line, line_ending) == lowercase(line),
        snake_to_camel(line + seq!['\n'], line_ending) == lowercase(line),
{
    assert forall|i: int| 0 <= i < line.len() implies line[i] != '\n' by {
        if line[i] == '\n' {
            assert(is_whitespace(line[i]));
        }
    }
    assert(!is_whitespace(line.first()));
    assert(!is_whitespace(line.last()));
    lemma_trim_nothing(line);
    lemma_lines_single(line);
    lemma_converted_one(line);
    lemma_camel_single_segment(line);
}

/// The identity transform, applied twice, gives the text back.
pub proof fn lemma_unchanged_twice(text: Seq<char>)
    ensures
        unchanged(unchanged(text)) == text,
{
}

} // verus!
