//! The mathematical model of splitting.
//!
//! [`split_spec`] says, as a recursive function over character sequences,
//! exactly which segments splitting a text by a delimiter produces: the
//! stretch before the leftmost occurrence, then the segments of what
//! follows that occurrence; or, with no occurrence left, the whole text as
//! the one final segment.  Beside it stand the occurrences themselves
//! ([`separators_spec`]), their count ([`match_count`]), and the two ways
//! of putting a text back together ([`interleave`], [`join_with`]).

use vstd::prelude::*;

use crate::pattern::DelimModel;
use crate::pattern::delim_match_at;
use crate::pattern::delim_match_len;
use crate::pattern::first_match;
use crate::pattern::lemma_first_match_props;
use crate::pattern::lemma_match_within;

verus! {

/// The tail of `hay` after the occurrence that begins at `i`.
pub open spec fn tail_after(d: DelimModel, hay: Seq<char>, i: int) -> Seq<char> {
    hay.subrange(i + delim_match_len(d), hay.len() as int)
}

/// The segments that splitting `hay` by `d` produces, in order.
pub open spec fn split_spec(d: DelimModel, hay: Seq<char>) -> Seq<Seq<char>>
    decreases hay.len(),
        via split_spec_decreases
{
    match first_match(d, hay) {
        Some(i) => seq![hay.subrange(0, i)] + split_spec(d, tail_after(d, hay, i)),
        None => seq![hay],
    }
}

#[via_fn]
proof fn split_spec_decreases(d: DelimModel, hay: Seq<char>) {
    lemma_first_match_props(d, hay);
}

/// The occurrences of `d` that splitting `hay` consumes, in order: the
/// leftmost occurrence, then those consumed in the tail after it.
pub open spec fn separators_spec(d: DelimModel, hay: Seq<char>) -> Seq<Seq<char>>
    decreases hay.len(),
        via separators_spec_decreases
{
    match first_match(d, hay) {
        Some(i) => seq![hay.subrange(i, i + delim_match_len(d))] + separators_spec(
            d,
            tail_after(d, hay, i),
        ),
        None => Seq::empty(),
    }
}

#[via_fn]
proof fn separators_spec_decreases(d: DelimModel, hay: Seq<char>) {
    lemma_first_match_props(d, hay);
}

/// How many occurrences of `d` splitting `hay` consumes.
pub open spec fn match_count(d: DelimModel, hay: Seq<char>) -> nat
    decreases hay.len(),
        via match_count_decreases
{
    match first_match(d, hay) {
        Some(i) => 1 + match_count(d, tail_after(d, hay, i)),
        None => 0,
    }
}

#[via_fn]
proof fn match_count_decreases(d: DelimModel, hay: Seq<char>) {
    lemma_first_match_props(d, hay);
}

/// `segs` and `seps` riffled back together: the first segment, then the
/// first separator, and so on, ending with the last segment.
pub open spec fn interleave(segs: Seq<Seq<char>>, seps: Seq<Seq<char>>) -> Seq<char>
    decreases segs.len(),
{
    if segs.len() == 0 {
        Seq::empty()
    } else if seps.len() == 0 {
        segs[0]
    } else {
        segs[0] + seps[0] + interleave(segs.drop_first(), seps.drop_first())
    }
}

/// `segs` joined with the one separator `sep` between consecutive entries.
pub open spec fn join_with(segs: Seq<Seq<char>>, sep: Seq<char>) -> Seq<char>
    decreases segs.len(),
{
    if segs.len() == 0 {
        Seq::empty()
    } else if segs.len() == 1 {
        segs[0]
    } else {
        segs[0] + sep + join_with(segs.drop_first(), sep)
    }
}

/// Splitting always produces at least one segment.
pub proof fn lemma_split_len_at_least_one(d: DelimModel, hay: Seq<char>)
    ensures
        split_spec(d, hay).len() >= 1,
{
}

/// Splitting an empty text produces exactly one empty segment.
pub proof fn lemma_split_empty(d: DelimModel)
    ensures
        split_spec(d, Seq::<char>::empty()) == seq![Seq::<char>::empty()],
{
    lemma_first_match_props(d, Seq::<char>::empty());
    match first_match(d, Seq::<char>::empty()) {
        Some(i) => {
            lemma_match_within(d, Seq::<char>::empty(), i);
        },
        None => {},
    }
}

/// The one-step reading of `split_spec`, with the bounds of the leftmost
/// occurrence spelt out: with an occurrence at `i`, the first segment is
/// the stretch before `i` and the rest are the segments of the tail after
/// the occurrence; with none, the whole text is the one segment.
pub proof fn lemma_split_unfold(d: DelimModel, hay: Seq<char>)
    ensures
        (match first_match(d, hay) {
            Some(i) => {
                &&& 0 <= i
                &&& i + delim_match_len(d) <= hay.len()
                &&& 1 <= delim_match_len(d)
                &&& delim_match_at(d, hay, i)
                &&& split_spec(d, hay) == seq![hay.subrange(0, i)] + split_spec(
                    d,
                    tail_after(d, hay, i),
                )
                &&& split_spec(d, hay)[0] == hay.subrange(0, i)
                &&& split_spec(d, hay).drop_first() == split_spec(d, tail_after(d, hay, i))
            },
            None => {
                &&& split_spec(d, hay) == seq![hay]
                &&& split_spec(d, hay)[0] == hay
                &&& split_spec(d, hay).drop_first() == Seq::<Seq<char>>::empty()
            },
        }),
{
    lemma_first_match_props(d, hay);
    match first_match(d, hay) {
        Some(i) => {
            lemma_match_within(d, hay, i);
            let segs = seq![hay.subrange(0, i)] + split_spec(d, tail_after(d, hay, i));
            assert(split_spec(d, hay) == segs);
            assert(segs.drop_first() =~= split_spec(d, tail_after(d, hay, i)));
        },
        None => {
            assert(split_spec(d, hay) == seq![hay]);
            assert(seq![hay].drop_first() =~= Seq::<Seq<char>>::empty());
        },
    }
}

} // verus!
