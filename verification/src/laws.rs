//! The general laws of splitting.
//!
//! Each public proof function here states one law of the splitting model
//! for all inputs: splitting is deterministic; the segments joined with
//! the consumed occurrences give back the source text exactly; the number
//! of segments is the number of consumed occurrences plus one; every
//! segment is a contiguous slice of the source text; and a text that ends
//! with a delimiter occurrence ends its split with exactly one empty
//! segment.

use vstd::prelude::*;

use crate::pattern::DelimModel;
use crate::pattern::delim_match_at;
use crate::pattern::delim_match_len;
use crate::pattern::first_match;
use crate::pattern::is_occurrence;
use crate::pattern::lemma_first_match_props;
use crate::pattern::lemma_match_within;
use crate::split::interleave;
use crate::split::join_with;
use crate::split::lemma_split_empty;
use crate::split::lemma_split_len_at_least_one;
use crate::split::lemma_split_unfold;
use crate::split::match_count;
use crate::split::separators_spec;
use crate::split::split_spec;
use crate::split::tail_after;

verus! {

/// Determinism: splitting equal texts by equal delimiters gives equal
/// segment sequences.  Splitting is a pure function of its two inputs, so
/// repeated construction and full consumption can never differ.
pub proof fn lemma_split_deterministic(
    d1: DelimModel,
    d2: DelimModel,
    hay1: Seq<char>,
    hay2: Seq<char>,
)
    requires
        d1 == d2,
        hay1 == hay2,
    ensures
        split_spec(d1, hay1) == split_spec(d2, hay2),
{
}

/// Finiteness: splitting produces exactly one segment more than the
/// number of delimiter occurrences it consumes.
pub proof fn lemma_split_count(d: DelimModel, hay: Seq<char>)
    ensures
        split_spec(d, hay).len() == match_count(d, hay) + 1,
    decreases hay.len(),
{
    lemma_split_unfold(d, hay);
    match first_match(d, hay) {
        Some(i) => {
            lemma_split_count(d, tail_after(d, hay, i));
        },
        None => {},
    }
}

/// The occurrences consumed by a split: there is one fewer than there are
/// segments, and each reads as one occurrence of the delimiter — the
/// pattern itself, the character, or a member of the set.
pub proof fn lemma_separators_are_occurrences(d: DelimModel, hay: Seq<char>)
    ensures
        separators_spec(d, hay).len() == match_count(d, hay),
        forall|k: int|
            0 <= k < separators_spec(d, hay).len() ==> is_occurrence(
                d,
                #[trigger] separators_spec(d, hay)[k],
            ),
    decreases hay.len(),
{
    lemma_split_unfold(d, hay);
    match first_match(d, hay) {
        Some(i) => {
            let e = i + delim_match_len(d);
            let occ = hay.subrange(i, e);
            let tail = tail_after(d, hay, i);
            lemma_separators_are_occurrences(d, tail);
            assert(is_occurrence(d, occ)) by {
                match d {
                    DelimModel::Substr(w) => {},
                    DelimModel::OneChar(c) => {
                        assert(occ =~= seq![c]);
                    },
                    DelimModel::AnyOf(s) => {
                        assert(occ[0] == hay[i]);
                    },
                }
            }
            assert forall|k: int|
                0 <= k < separators_spec(d, hay).len() implies is_occurrence(
                d,
                #[trigger] separators_spec(d, hay)[k],
            ) by {
                if k == 0 {
                    assert(separators_spec(d, hay)[0] == occ);
                } else {
                    assert(separators_spec(d, hay)[k] == separators_spec(d, tail)[k - 1]);
                }
            }
        },
        None => {},
    }
}

/// Reconstruction: riffling the produced segments back together with the
/// consumed delimiter occurrences, in order, gives back the source text
/// exactly.  The segments are therefore contiguous, non-overlapping and
/// in source order, and nothing of the text is lost or invented.
pub proof fn lemma_split_reconstruct(d: DelimModel, hay: Seq<char>)
    ensures
        interleave(split_spec(d, hay), separators_spec(d, hay)) == hay,
    decreases hay.len(),
{
    lemma_split_unfold(d, hay);
    match first_match(d, hay) {
        Some(i) => {
            let e = i + delim_match_len(d);
            let pre = hay.subrange(0, i);
            let occ = hay.subrange(i, e);
            let tail = tail_after(d, hay, i);
            lemma_split_reconstruct(d, tail);
            lemma_split_len_at_least_one(d, tail);
            let segs = split_spec(d, hay);
            let seps = separators_spec(d, hay);
            assert(segs.drop_first() =~= split_spec(d, tail));
            assert(seps.drop_first() =~= separators_spec(d, tail));
            assert(segs[0] == pre);
            assert(seps[0] == occ);
            assert(pre + occ + tail =~= hay);
        },
        None => {},
    }
}

/// Joining with one fixed separator equals riffling with separators that
/// all read as that one separator.
proof fn lemma_interleave_uniform(segs: Seq<Seq<char>>, seps: Seq<Seq<char>>, sep: Seq<char>)
    requires
        segs.len() >= 1,
        seps.len() == segs.len() - 1,
        forall|k: int| 0 <= k < seps.len() ==> #[trigger] seps[k] == sep,
    ensures
        interleave(segs, seps) == join_with(segs, sep),
    decreases segs.len(),
{
    if segs.len() >= 2 {
        lemma_interleave_uniform(segs.drop_first(), seps.drop_first(), sep);
        assert(seps[0] == sep);
    }
}

/// Reconstruction with an exact-substring delimiter: joining the segments
/// with the pattern itself gives back the source text exactly.
pub proof fn lemma_reconstruct_with_substring(w: Seq<char>, hay: Seq<char>)
    ensures
        join_with(split_spec(DelimModel::Substr(w), hay), w) == hay,
{
    let d = DelimModel::Substr(w);
    lemma_split_reconstruct(d, hay);
    lemma_separators_are_occurrences(d, hay);
    lemma_split_count(d, hay);
    lemma_interleave_uniform(split_spec(d, hay), separators_spec(d, hay), w);
}

/// Reconstruction with a single-character delimiter: joining the segments
/// with that one character gives back the source text exactly.
pub proof fn lemma_reconstruct_with_char(c: char, hay: Seq<char>)
    ensures
        join_with(split_spec(DelimModel::OneChar(c), hay), seq![c]) == hay,
{
    let d = DelimModel::OneChar(c);
    lemma_split_reconstruct(d, hay);
    lemma_separators_are_occurrences(d, hay);
    lemma_split_count(d, hay);
    lemma_interleave_uniform(split_spec(d, hay), separators_spec(d, hay), seq![c]);
}

/// True when `seg` is one contiguous stretch of `hay`.
pub open spec fn is_slice_of(seg: Seq<char>, hay: Seq<char>) -> bool {
    exists|a: int, b: int| 0 <= a <= b <= hay.len() && seg == #[trigger] hay.subrange(a, b)
}

/// Boundary safety: every produced segment is a contiguous slice of the
/// source text's character sequence.  Segment boundaries are character
/// positions by construction, so no boundary can fall inside a code
/// point.
/// Boundary safety for one segment: the `k`-th produced segment is a
/// contiguous slice of the source text's character sequence, and here are
/// its bounds.
#[verifier::rlimit(100)]
pub proof fn lemma_segment_is_slice(d: DelimModel, hay: Seq<char>, k: int) -> (r: (int, int))
    requires
        0 <= k < split_spec(d, hay).len(),
    ensures
        0 <= r.0 <= r.1 <= hay.len(),
        split_spec(d, hay)[k] == hay.subrange(r.0, r.1),
    decreases hay.len(),
{
    lemma_split_unfold(d, hay);
    match first_match(d, hay) {
        Some(i) => {
            let e = i + delim_match_len(d);
            let tail = tail_after(d, hay, i);
            if k == 0 {
                assert(split_spec(d, hay)[0] == hay.subrange(0, i));
                (0, i)
            } else {
                assert(split_spec(d, hay)[k] == split_spec(d, tail)[k - 1]);
                let (a, b) = lemma_segment_is_slice(d, tail, k - 1);
                assert(tail.subrange(a, b) =~= hay.subrange(e + a, e + b));
                (e + a, e + b)
            }
        },
        None => {
            assert(hay =~= hay.subrange(0, hay.len() as int));
            (0, hay.len() as int)
        },
    }
}

/// Boundary safety: every produced segment is a contiguous slice of the
/// source text's character sequence.  Segment boundaries are character
/// positions by construction, so no boundary can fall inside a code
/// point.
pub proof fn lemma_segments_are_slices(d: DelimModel, hay: Seq<char>)
    ensures
        forall|k: int|
            0 <= k < split_spec(d, hay).len() ==> is_slice_of(
                #[trigger] split_spec(d, hay)[k],
                hay,
            ),
{
    assert forall|k: int| 0 <= k < split_spec(d, hay).len() implies is_slice_of(
        #[trigger] split_spec(d, hay)[k],
        hay,
    ) by {
        let (a, b) = lemma_segment_is_slice(d, hay, k);
        assert(split_spec(d, hay)[k] == hay.subrange(a, b));
    }
}

/// A delimiter whose occurrences can never overlap one another in `hay`.
/// Every delimiter that spans a single character is such, as is any exact
/// pattern without overlapping occurrences.
pub open spec fn no_overlapping_matches(d: DelimModel, hay: Seq<char>) -> bool {
    forall|i: int, j: int|
        #[trigger] delim_match_at(d, hay, i) && #[trigger] delim_match_at(d, hay, j) && i < j
            ==> i + delim_match_len(d) <= j
}

/// An occurrence inside a suffix of the text is exactly an occurrence of
/// the text at the shifted position.
proof fn lemma_match_suffix(d: DelimModel, hay: Seq<char>, e: int, q: int)
    requires
        0 <= e <= hay.len(),
    ensures
        delim_match_at(d, hay.subrange(e, hay.len() as int), q) <==> (0 <= q && delim_match_at(
            d,
            hay,
            e + q,
        )),
{
    let tail = hay.subrange(e, hay.len() as int);
    if delim_match_at(d, tail, q) {
        lemma_match_within(d, tail, q);
        match d {
            DelimModel::Substr(w) => {
                assert(hay.subrange(e + q, e + q + w.len() as int) =~= tail.subrange(
                    q,
                    q + w.len() as int,
                ));
            },
            DelimModel::OneChar(c) => {},
            DelimModel::AnyOf(s) => {},
        }
    }
    if 0 <= q && delim_match_at(d, hay, e + q) {
        lemma_match_within(d, hay, e + q);
        match d {
            DelimModel::Substr(w) => {
                assert(tail.subrange(q, q + w.len() as int) =~= hay.subrange(
                    e + q,
                    e + q + w.len() as int,
                ));
            },
            DelimModel::OneChar(c) => {},
            DelimModel::AnyOf(s) => {},
        }
    }
}

/// The trailing-delimiter rule: when the source text ends with a
/// delimiter occurrence, and occurrences cannot overlap, the split ends
/// with exactly one empty segment — the empty stretch after that final
/// occurrence.
pub proof fn lemma_trailing_delimiter(d: DelimModel, hay: Seq<char>)
    requires
        delim_match_at(d, hay, hay.len() - delim_match_len(d)),
        no_overlapping_matches(d, hay),
    ensures
        split_spec(d, hay).len() >= 2,
        split_spec(d, hay).last() == Seq::<char>::empty(),
    decreases hay.len(),
{
    let t = hay.len() - delim_match_len(d);
    lemma_match_within(d, hay, t);
    lemma_first_match_props(d, hay);
    lemma_split_unfold(d, hay);
    let i = first_match(d, hay)->Some_0;
    let e = i + delim_match_len(d);
    let tail = tail_after(d, hay, i);
    let segs = split_spec(d, hay);
    assert(segs.drop_first() == split_spec(d, tail));
    lemma_split_len_at_least_one(d, tail);
    assert(segs.last() == split_spec(d, tail).last());
    if i == t {
        assert(tail =~= Seq::<char>::empty());
        lemma_split_empty(d);
    } else {
        assert(e <= t);
        assert(delim_match_at(d, tail, t - e)) by {
            lemma_match_suffix(d, hay, e, t - e);
        }
        assert(no_overlapping_matches(d, tail)) by {
            assert forall|p: int, q: int|
                #[trigger] delim_match_at(d, tail, p) && #[trigger] delim_match_at(d, tail, q) && p
                    < q implies p + delim_match_len(d) <= q by {
                lemma_match_suffix(d, hay, e, p);
                lemma_match_suffix(d, hay, e, q);
                assert(delim_match_at(d, hay, e + p) && delim_match_at(d, hay, e + q));
            }
        }
        assert(tail.len() - delim_match_len(d) == t - e);
        lemma_trailing_delimiter(d, tail);
    }
}

/// The converse of the trailing-delimiter rule: when a split of a
/// non-empty text ends with an empty segment, the text did end with a
/// delimiter occurrence — the empty final segment appears there and
/// nowhere else.
pub proof fn lemma_trailing_empty_implies_trailing_delimiter(d: DelimModel, hay: Seq<char>)
    requires
        hay.len() > 0,
        split_spec(d, hay).last() == Seq::<char>::empty(),
    ensures
        delim_match_at(d, hay, hay.len() - delim_match_len(d)),
    decreases hay.len(),
{
    lemma_split_unfold(d, hay);
    match first_match(d, hay) {
        Some(i) => {
            let e = i + delim_match_len(d);
            let tail = tail_after(d, hay, i);
            lemma_split_len_at_least_one(d, tail);
            assert(split_spec(d, hay).last() == split_spec(d, tail).last());
            if tail.len() == 0 {
                assert(e == hay.len());
            } else {
                lemma_trailing_empty_implies_trailing_delimiter(d, tail);
                lemma_match_suffix(d, hay, e, tail.len() - delim_match_len(d));
            }
        },
        None => {},
    }
}

/// The trailing-delimiter rule for any delimiter that spans one
/// character — a single character, a character set, or a one-character
/// pattern: such occurrences can never overlap.
pub proof fn lemma_trailing_delimiter_single(d: DelimModel, hay: Seq<char>)
    requires
        delim_match_len(d) == 1,
        delim_match_at(d, hay, hay.len() - 1),
    ensures
        split_spec(d, hay).len() >= 2,
        split_spec(d, hay).last() == Seq::<char>::empty(),
{
    lemma_trailing_delimiter(d, hay);
}

} // verus!
