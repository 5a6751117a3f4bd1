//! The lines of a text, and the white space around a line.

use vstd::prelude::*;
use vstd::slice::slice_subrange;
use crate::chars::{is_whitespace, whitespace};
use crate::split::{
    free_of, lemma_split_on_concat, lemma_split_on_len, lemma_split_on_whole, split_on,
};

verus! {

/// `line` without one carriage return at its end, if there is one.
pub open spec fn strip_cr(line: Seq<char>) -> Seq<char> {
    if line.len() > 0 && line.last() == '\r' {
        line.drop_last()
    } else {
        line
    }
}

/// The lines that a newline ends: every piece but the last, each without
/// the carriage return that may stand before the newline.
pub open spec fn terminated(pieces: Seq<Seq<char>>) -> Seq<Seq<char>> {
    pieces.drop_last().map_values(|p: Seq<char>| strip_cr(p))
}

/// The lines of `s`. A line ends at a newline or at a carriage return
/// followed by a newline; neither belongs to the line. What follows the
/// last newline is a line too, unless it is empty, so a newline at the very
/// end opens no further line, and the empty text has no lines.
pub open spec fn lines(s: Seq<char>) -> Seq<Seq<char>> {
    let pieces = split_on(s, '\n');
    if pieces.last().len() == 0 {
        terminated(pieces)
    } else {
        terminated(pieces).push(pieces.last())
    }
}

/// `s` without the white space at its start.
pub open spec fn trim_start(s: Seq<char>) -> Seq<char>
    decreases s.len(),
{
    if s.len() > 0 && is_whitespace(s.first()) {
        trim_start(s.drop_first())
    } else {
        s
    }
}

/// `s` without the white space at its end.
pub open spec fn trim_end(s: Seq<char>) -> Seq<char>
    decreases s.len(),
{
    if s.len() > 0 && is_whitespace(s.last()) {
        trim_end(s.drop_last())
    } else {
        s
    }
}

/// `s` without the white space at its start and at its end.
pub open spec fn trim(s: Seq<char>) -> Seq<char> {
    trim_start(trim_end(s))
}

/// Whether a white-space character occurs in `s`.
pub open spec fn has_whitespace(s: Seq<char>) -> bool {
    exists|i: int| 0 <= i < s.len() && is_whitespace(#[trigger] s[i])
}

/// The character sequences that the rows of `v` hold.
pub open spec fn rows(v: Seq<Vec<char>>) -> Seq<Seq<char>> {
    Seq::new(v.len(), |k: int| v[k]@)
}

/// Where trimming at the end cuts `s`: only white space follows the cut,
/// and none stands just before it.
pub proof fn lemma_trim_end_cut(s: Seq<char>) -> (end: int)
    ensures
        0 <= end <= s.len(),
        trim_end(s) == s.take(end),
        forall|j: int| end <= j < s.len() ==> is_whitespace(s[j]),
        end == 0 || !is_whitespace(s[end - 1]),
    decreases s.len(),
{
    if s.len() > 0 && is_whitespace(s.last()) {
        let end = lemma_trim_end_cut(s.drop_last());
        assert(s.drop_last().take(end) == s.take(end));
        assert forall|j: int| end <= j < s.len() implies is_whitespace(s[j]) by {
            if j < s.len() - 1 {
                assert(s[j] == s.drop_last()[j]);
            }
        }
        end
    } else {
        assert(s.take(s.len() as int) == s);
        s.len() as int
    }
}

/// Where trimming at the start cuts `s`: only white space stands before
/// the cut, and none at it.
pub proof fn lemma_trim_start_cut(s: Seq<char>) -> (start: int)
    ensures
        0 <= start <= s.len(),
        trim_start(s) == s.skip(start),
        forall|j: int| 0 <= j < start ==> is_whitespace(s[j]),
        start == s.len() || !is_whitespace(s[start]),
    decreases s.len(),
{
    if s.len() > 0 && is_whitespace(s.first()) {
        let start = lemma_trim_start_cut(s.drop_first());
        assert(s.drop_first().skip(start) == s.skip(start + 1));
        assert forall|j: int| 0 <= j < start + 1 implies is_whitespace(s[j]) by {
            if j > 0 {
                assert(s[j] == s.drop_first()[j - 1]);
            }
        }
        start + 1
    } else {
        assert(s.skip(0) == s);
        0
    }
}

/// Trimming keeps one stretch of `s`: white space alone stands before it
/// and after it, and it neither begins nor ends with white space.
pub proof fn lemma_trim_cut(s: Seq<char>) -> (cut: (int, int))
    ensures
        0 <= cut.0 <= cut.1 <= s.len(),
        trim(s) == s.subrange(cut.0, cut.1),
        forall|j: int| 0 <= j < cut.0 ==> is_whitespace(s[j]),
        forall|j: int| cut.1 <= j < s.len() ==> is_whitespace(s[j]),
        cut.0 < cut.1 ==> !is_whitespace(s[cut.0]) && !is_whitespace(s[cut.1 - 1]),
{
    let end = lemma_trim_end_cut(s);
    let start = lemma_trim_start_cut(s.take(end));
    assert(s.take(end).skip(start) == s.subrange(start, end));
    assert forall|j: int| 0 <= j < start implies is_whitespace(s[j]) by {
        assert(s[j] == s.take(end)[j]);
    }
    (start, end)
}

/// A line without white space at either end is its own trimmed form.
pub proof fn lemma_trim_nothing(s: Seq<char>)
    requires
        s.len() == 0 || (!is_whitespace(s.first()) && !is_whitespace(s.last())),
    ensures
        trim(s) == s,
{
}

/// The lines of a text made of two parts are the lines of the first part
/// followed by those of the second, where the first part is empty or ends
/// with a newline.
pub proof fn lemma_lines_concat(a: Seq<char>, b: Seq<char>)
    requires
        a.len() == 0 || a.last() == '\n',
    ensures
        lines(a + b) == lines(a) + lines(b),
{
    let pa = split_on(a, '\n');
    let pb = split_on(b, '\n');
    lemma_split_on_concat(a, b, '\n');
    if a.len() > 0 {
        lemma_split_on_len(a.drop_last(), '\n');
    }
    assert(pa.last() == Seq::<char>::empty());
    assert(pa.last() + pb.first() == pb.first());
    assert(seq![pb.first()] + pb.drop_first() == pb);
    let pab = split_on(a + b, '\n');
    assert(pab == pa.drop_last() + pb);
    assert(pab.drop_last() == pa.drop_last() + pb.drop_last());
    assert(terminated(pab) == terminated(pa) + terminated(pb));
    assert(lines(a) == terminated(pa));
    assert(lines(a + b) == lines(a) + lines(b));
}

/// A text without a newline is one line, unless it is empty; so is such a
/// text with a newline after it, but for the carriage return that may
/// stand before the newline.
pub proof fn lemma_lines_single(line: Seq<char>)
    requires
        free_of(line, '\n'),
    ensures
        line.len() > 0 ==> lines(line) == seq![line],
        lines(line + seq!['\n']) == seq![strip_cr(line)],
{
    lemma_split_on_whole(line, '\n');
    assert(seq![line].drop_last() == Seq::<Seq<char>>::empty());
    assert(terminated(seq![line]) == Seq::<Seq<char>>::empty());
    if line.len() > 0 {
        assert(lines(line) == seq![line]);
    }
    let ended = line + seq!['\n'];
    assert(ended.drop_last() == line);
    assert(split_on(ended, '\n') == seq![line].push(Seq::<char>::empty()));
    assert(seq![line].push(Seq::<char>::empty()).drop_last() == seq![line]);
    assert(terminated(split_on(ended, '\n')) == seq![strip_cr(line)]);
}

/// A line in the middle of a text: the lines of the text are the lines
/// before it, the line itself, and the lines after it.
pub proof fn lemma_line_in_text(before: Seq<char>, line: Seq<char>, after: Seq<char>)
    requires
        before.len() == 0 || before.last() == '\n',
        free_of(line, '\n'),
    ensures
        lines(before + line + seq!['\n'] + after) == lines(before) + seq![strip_cr(line)] + lines(
            after,
        ),
{
    let ended = line + seq!['\n'];
    lemma_lines_single(line);
    lemma_lines_concat(ended, after);
    lemma_lines_concat(before, ended + after);
    assert(before + (ended + after) == before + line + seq!['\n'] + after);
    assert(lines(before) + (seq![strip_cr(line)] + lines(after)) == lines(before) + seq![
        strip_cr(line),
    ] + lines(after));
}

/// Cuts a text into its lines.
pub fn lines_of(text: &[char]) -> (out: Vec<Vec<char>>)
    ensures
        rows(out@) == lines(text@),
{
    let mut out: Vec<Vec<char>> = Vec::new();
    let mut cur: Vec<char> = Vec::new();
    let mut i: usize = 0;
    proof {
        assert(text@.take(0) == Seq::<char>::empty());
        assert(rows(out@) == terminated(split_on(text@.take(0), '\n')));
    }
    while i < text.len()
        invariant
            i <= text.len(),
            split_on(text@.take(i as int), '\n').len() >= 1,
            rows(out@) == terminated(split_on(text@.take(i as int), '\n')),
            cur@ == split_on(text@.take(i as int), '\n').last(),
        decreases text.len() - i,
    {
        let c = text[i];
        let ghost before = split_on(text@.take(i as int), '\n');
        proof {
            assert(text@.take(i + 1).drop_last() == text@.take(i as int));
            lemma_split_on_len(text@.take(i + 1), '\n');
        }
        if c == '\n' {
            let n = cur.len();
            if n > 0 && cur[n - 1] == '\r' {
                cur.pop();
            }
            let ghost ended = rows(out@);
            let ghost line = cur@;
            out.push(cur);
            cur = Vec::new();
            proof {
                let after = split_on(text@.take(i + 1), '\n');
                assert(after.drop_last() == before);
                assert(line == strip_cr(before.last()));
                assert(rows(out@) == ended.push(line));
                assert(terminated(after) == terminated(before).push(strip_cr(before.last())));
            }
        } else {
            cur.push(c);
            proof {
                let after = split_on(text@.take(i + 1), '\n');
                assert(after.drop_last() == before.drop_last());
            }
        }
        i += 1;
    }
    proof {
        assert(text@.take(text.len() as int) == text@);
    }
    if cur.len() > 0 {
        let ghost ended = rows(out@);
        out.push(cur);
        assert(rows(out@) == ended.push(cur@));
    }
    out
}

/// Cuts the white space off both ends of a line.
pub fn trim_of<'a>(line: &'a [char]) -> (out: &'a [char])
    ensures
        out@ == trim(line@),
{
    let mut end: usize = line.len();
    while end > 0 && whitespace(line[end - 1])
        invariant
            end <= line.len(),
            forall|j: int| end <= j < line.len() ==> is_whitespace(line@[j]),
        decreases end,
    {
        end -= 1;
    }
    let mut start: usize = 0;
    while start < end && whitespace(line[start])
        invariant
            start <= end <= line.len(),
            forall|j: int| 0 <= j < start ==> is_whitespace(line@[j]),
        decreases end - start,
    {
        start += 1;
    }
    proof {
        let cut = lemma_trim_cut(line@);
        if cut.1 < end {
            assert(is_whitespace(line@[end - 1]));
        }
        if end < cut.1 {
            assert(is_whitespace(line@[cut.1 - 1]));
        }
        if cut.0 < start {
            assert(is_whitespace(line@[cut.0]));
        }
        if start < cut.0 {
            assert(is_whitespace(line@[start as int]));
        }
    }
    slice_subrange(line, start, end)
}

/// Looks for a white-space character in `s`.
pub fn contains_whitespace(s: &[char]) -> (found: bool)
    ensures
        found == has_whitespace(s@),
{
    let mut i: usize = 0;
    while i < s.len()
        invariant
            i <= s.len(),
            forall|j: int| 0 <= j < i ==> !is_whitespace(s@[j]),
        decreases s.len() - i,
    {
        if whitespace(s[i]) {
            return true;
        }
        i += 1;
    }
    false
}

} // verus!
