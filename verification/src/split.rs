//! Cutting a text at a separator, and putting the pieces together again.

use vstd::prelude::*;

verus! {

/// The pieces of `s` between the occurrences of `sep`. Reading `s` from the
/// left, a separator ends the piece before it and opens a new, empty one;
/// any other character joins the piece that is open. There is always at
/// least one piece, and a text with `n` separators has `n + 1` of them.
pub open spec fn split_on(s: Seq<char>, sep: char) -> Seq<Seq<char>>
    decreases s.len(),
{
    if s.len() == 0 {
        seq![Seq::<char>::empty()]
    } else {
        let before = split_on(s.drop_last(), sep);
        if s.last() == sep {
            before.push(Seq::<char>::empty())
        } else {
            before.drop_last().push(before.last().push(s.last()))
        }
    }
}

/// The pieces in order, with `sep` between each two neighbours.
pub open spec fn join(pieces: Seq<Seq<char>>, sep: Seq<char>) -> Seq<char>
    decreases pieces.len(),
{
    if pieces.len() == 0 {
        Seq::<char>::empty()
    } else if pieces.len() == 1 {
        pieces[0]
    } else {
        join(pieces.drop_last(), sep) + sep + pieces.last()
    }
}

/// Whether `c` occurs nowhere in `s`.
pub open spec fn free_of(s: Seq<char>, c: char) -> bool {
    forall|i: int| 0 <= i < s.len() ==> s[i] != c
}

/// A split always yields at least one piece.
pub proof fn lemma_split_on_len(s: Seq<char>, sep: char)
    ensures
        split_on(s, sep).len() >= 1,
    decreases s.len(),
{
    if s.len() > 0 {
        lemma_split_on_len(s.drop_last(), sep);
    }
}

/// No piece of a split holds the separator.
pub proof fn lemma_split_on_free(s: Seq<char>, sep: char)
    ensures
        forall|k: int| 0 <= k < split_on(s, sep).len() ==> free_of(#[trigger] split_on(s, sep)[k], sep),
    decreases s.len(),
{
    if s.len() > 0 {
        lemma_split_on_len(s.drop_last(), sep);
        lemma_split_on_free(s.drop_last(), sep);
        let before = split_on(s.drop_last(), sep);
        assert forall|k: int| 0 <= k < split_on(s, sep).len() implies free_of(
            #[trigger] split_on(s, sep)[k],
            sep,
        ) by {
            if k < before.len() - 1 {
                assert(split_on(s, sep)[k] == before[k]);
            } else if k == before.len() - 1 {
                assert(free_of(before[k], sep));
            }
        }
    }
}

/// A text that is free of the separator is its own single piece.
pub proof fn lemma_split_on_whole(s: Seq<char>, sep: char)
    requires
        free_of(s, sep),
    ensures
        split_on(s, sep) == seq![s],
    decreases s.len(),
{
    if s.len() == 0 {
        assert(s == Seq::<char>::empty());
    } else {
        lemma_split_on_whole(s.drop_last(), sep);
        assert(s.drop_last().push(s.last()) == s);
        assert(seq![s.drop_last()].drop_last().push(s) == seq![s]);
    }
}

/// Splitting a text made of two parts: the last piece of the first part and
/// the first piece of the second grow together, and all other pieces stay.
pub proof fn lemma_split_on_concat(a: Seq<char>, b: Seq<char>, sep: char)
    ensures
        split_on(a, sep).len() >= 1,
        split_on(b, sep).len() >= 1,
        split_on(a + b, sep) == split_on(a, sep).drop_last() + seq![
            split_on(a, sep).last() + split_on(b, sep).first(),
        ] + split_on(b, sep).drop_first(),
    decreases b.len(),
{
    let pa = split_on(a, sep);
    let pb = split_on(b, sep);
    lemma_split_on_len(a, sep);
    lemma_split_on_len(b, sep);
    if b.len() == 0 {
        assert(a + b == a);
        assert(pa.last() + pb.first() == pa.last());
        assert(pa == pa.drop_last() + seq![pa.last() + pb.first()] + pb.drop_first());
    } else {
        let b_init = b.drop_last();
        let c = b.last();
        let pb_init = split_on(b_init, sep);
        lemma_split_on_concat(a, b_init, sep);
        assert((a + b).drop_last() == a + b_init);
        let q_init = split_on(a + b_init, sep);
        let q = split_on(a + b, sep);
        let rhs = pa.drop_last() + seq![pa.last() + pb.first()] + pb.drop_first();
        if c == sep {
            assert(q == q_init.push(Seq::<char>::empty()));
            assert(pb == pb_init.push(Seq::<char>::empty()));
            assert(pb.first() == pb_init.first());
            assert(pb.drop_first() == pb_init.drop_first().push(Seq::<char>::empty()));
            assert(q == rhs);
        } else {
            assert(q == q_init.drop_last().push(q_init.last().push(c)));
            assert(pb == pb_init.drop_last().push(pb_init.last().push(c)));
            if pb_init.len() == 1 {
                assert(q_init.last() == pa.last() + pb_init.first());
                assert(pb.first() == pb_init.first().push(c));
                assert((pa.last() + pb_init.first()).push(c) == pa.last() + pb.first());
                assert(q == rhs);
            } else {
                assert(q_init.last() == pb_init.last());
                assert(pb.first() == pb_init.first());
                assert(q == rhs);
            }
        }
    }
}

/// Joining the pieces of a split with the separator gives the text back.
pub proof fn lemma_join_split_on(s: Seq<char>, sep: char)
    ensures
        join(split_on(s, sep), seq![sep]) == s,
    decreases s.len(),
{
    if s.len() > 0 {
        let s0 = s.drop_last();
        let before = split_on(s0, sep);
        lemma_split_on_len(s0, sep);
        lemma_join_split_on(s0, sep);
        lemma_join_grow(before.drop_last(), before.last(), seq![sep], seq![s.last()]);
        assert(before.drop_last().push(before.last()) == before);
        if s.last() == sep {
            let after = before.push(Seq::<char>::empty());
            assert(after.drop_last() == before);
            assert(join(after, seq![sep]) == join(before, seq![sep]) + seq![sep] + Seq::<char>::empty());
            assert(s0 + seq![sep] + Seq::<char>::empty() == s);
        } else {
            assert(before.last() + seq![s.last()] == before.last().push(s.last()));
            assert(s0 + seq![s.last()] == s);
        }
    }
}

/// Lengthening the last piece lengthens the joined text by as much.
pub proof fn lemma_join_grow(
    init: Seq<Seq<char>>,
    last: Seq<char>,
    sep: Seq<char>,
    more: Seq<char>,
)
    ensures
        join(init.push(last + more), sep) == join(init.push(last), sep) + more,
{
    assert(init.push(last + more).drop_last() == init);
    assert(init.push(last).drop_last() == init);
    if init.len() > 0 {
        assert(join(init, sep) + sep + (last + more) == join(init, sep) + sep + last + more);
    }
}

/// Splitting the joined text gives the pieces back, where no piece holds
/// the separator.
pub proof fn lemma_split_on_join(pieces: Seq<Seq<char>>, sep: char)
    requires
        pieces.len() >= 1,
        forall|k: int| 0 <= k < pieces.len() ==> free_of(#[trigger] pieces[k], sep),
    ensures
        split_on(join(pieces, seq![sep]), sep) == pieces,
    decreases pieces.len(),
{
    if pieces.len() == 1 {
        lemma_split_on_whole(pieces[0], sep);
        assert(seq![pieces[0]] == pieces);
    } else {
        let init = pieces.drop_last();
        let last = pieces.last();
        lemma_split_on_join(init, sep);
        let head = join(init, seq![sep]);
        lemma_split_on_whole(last, sep);
        lemma_split_on_whole(Seq::<char>::empty(), sep);
        lemma_split_on_concat(head, seq![sep], sep);
        assert(seq![sep].drop_last() == Seq::<char>::empty());
        assert(split_on(seq![sep], sep) == seq![Seq::<char>::empty(), Seq::<char>::empty()]);
        assert(init.last() + Seq::<char>::empty() == init.last());
        assert(split_on(head + seq![sep], sep) == init.push(Seq::<char>::empty()));
        lemma_split_on_concat(head + seq![sep], last, sep);
        assert(Seq::<char>::empty() + last == last);
        assert(split_on(head + seq![sep] + last, sep) == pieces);
    }
}

} // verus!
