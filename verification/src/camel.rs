//! From one snake_case identifier to its camelCase form.

use vstd::prelude::*;
use crate::chars::{lower, to_lower, to_upper, upper};
use crate::split::{free_of, lemma_split_on_len, lemma_split_on_whole, split_on};

verus! {

/// `s` with every character in lower case.
pub open spec fn lowercase(s: Seq<char>) -> Seq<char> {
    s.map_values(|c: char| to_lower(c))
}

/// `s` with its first character in upper case and the others in lower case.
pub open spec fn capitalize(s: Seq<char>) -> Seq<char> {
    if s.len() == 0 {
        s
    } else {
        seq![to_upper(s.first())] + lowercase(s.drop_first())
    }
}

/// The segments of an identifier put together: the first in lower case,
/// each later one capitalized, with nothing between them.
pub open spec fn camel_of(segments: Seq<Seq<char>>) -> Seq<char>
    decreases segments.len(),
{
    if segments.len() == 0 {
        Seq::<char>::empty()
    } else if segments.len() == 1 {
        lowercase(segments[0])
    } else {
        camel_of(segments.drop_last()) + capitalize(segments.last())
    }
}

/// The camelCase form of `line`, whose segments the underscores part.
pub open spec fn camel(line: Seq<char>) -> Seq<char> {
    camel_of(split_on(line, '_'))
}

/// Whether the character that follows these segments opens a segment after
/// the first: an underscore has just been read.
pub open spec fn at_segment_start(segments: Seq<Seq<char>>) -> bool {
    segments.len() >= 2 && segments.last().len() == 0
}

/// An identifier without an underscore has one segment: its camelCase form
/// is the identifier in lower case.
pub proof fn lemma_camel_single_segment(line: Seq<char>)
    requires
        free_of(line, '_'),
    ensures
        camel(line) == lowercase(line),
{
    lemma_split_on_whole(line, '_');
}

/// One more character at the end of an identifier: an underscore adds
/// nothing, a character just after an underscore comes out in upper case,
/// any other in lower case.
pub proof fn lemma_camel_push(line: Seq<char>, c: char)
    ensures
        camel(line.push(c)) == if c == '_' {
            camel(line)
        } else if at_segment_start(split_on(line, '_')) {
            camel(line).push(to_upper(c))
        } else {
            camel(line).push(to_lower(c))
        },
        at_segment_start(split_on(line.push(c), '_')) == (c == '_'),
{
    let before = split_on(line, '_');
    let after = split_on(line.push(c), '_');
    lemma_split_on_len(line, '_');
    assert(line.push(c).drop_last() == line);
    if c == '_' {
        assert(after.drop_last() == before);
        assert(camel_of(before) + capitalize(Seq::<char>::empty()) == camel_of(before));
    } else {
        let open = before.last();
        assert(after == before.drop_last().push(open.push(c)));
        if before.len() == 1 {
            assert(lowercase(open.push(c)) == lowercase(open).push(to_lower(c)));
        } else {
            assert(after.drop_last() == before.drop_last());
            if open.len() == 0 {
                assert(open.push(c).drop_first() == Seq::<char>::empty());
                assert(capitalize(open.push(c)) == seq![to_upper(c)]);
                assert(camel_of(before) == camel_of(before.drop_last()));
                assert(camel_of(before.drop_last()) + seq![to_upper(c)] == camel_of(
                    before.drop_last(),
                ).push(to_upper(c)));
            } else {
                assert(open.push(c).drop_first() == open.drop_first().push(c));
                assert(lowercase(open.drop_first().push(c)) == lowercase(open.drop_first()).push(
                    to_lower(c),
                ));
                assert(capitalize(open.push(c)) == capitalize(open).push(to_lower(c)));
                assert(camel_of(before.drop_last()) + capitalize(open).push(to_lower(c))
                    == camel_of(before).push(to_lower(c)));
            }
        }
    }
}

/// Converts one identifier to camelCase.
pub fn camel_case(line: &[char]) -> (out: Vec<char>)
    ensures
        out@ == camel(line@),
{
    let mut out: Vec<char> = Vec::new();
    let mut lift = false;
    let mut i: usize = 0;
    proof {
        assert(line@.take(0) == Seq::<char>::empty());
        assert(lowercase(Seq::<char>::empty()) == Seq::<char>::empty());
    }
    while i < line.len()
        invariant
            i <= line.len(),
            out@ == camel(line@.take(i as int)),
            lift == at_segment_start(split_on(line@.take(i as int), '_')),
        decreases line.len() - i,
    {
        let c = line[i];
        proof {
            lemma_camel_push(line@.take(i as int), c);
            assert(line@.take(i as int).push(c) == line@.take(i + 1));
        }
        if c == '_' {
            lift = true;
        } else if lift {
            out.push(upper(c));
            lift = false;
        } else {
            out.push(lower(c));
        }
        i += 1;
    }
    proof {
        assert(line@.take(line.len() as int) == line@);
    }
    out
}

} // verus!
