//! The mathematical model of a delimiter.
//!
//! A delimiter is modelled as a [`DelimModel`]: an exact character sequence,
//! a single character, or a set of characters.  Over that model this module
//! defines where a delimiter occurrence begins in a character sequence
//! ([`delim_match_at`]), how many characters an occurrence spans
//! ([`delim_match_len`]), and the position of the leftmost occurrence
//! ([`first_match`]), together with the lemmas that characterise it.

use vstd::prelude::*;

verus! {

/// The three kinds of delimiter, as pure mathematical data: an exact
/// character sequence, one character, or a set of characters.
pub ghost enum DelimModel {
    /// Matches an exact, contiguous character sequence.  An empty sequence
    /// never matches anywhere: a zero-length pattern is treated as
    /// permanently non-matching rather than rejected at construction.
    Substr(Seq<char>),
    /// Matches one single character.
    OneChar(char),
    /// Matches any one character drawn from the set.
    AnyOf(Set<char>),
}

/// True when an occurrence of delimiter `d` begins at position `i` of `hay`.
pub open spec fn delim_match_at(d: DelimModel, hay: Seq<char>, i: int) -> bool {
    match d {
        DelimModel::Substr(w) => {
            &&& w.len() > 0
            &&& 0 <= i
            &&& i + w.len() <= hay.len()
            &&& hay.subrange(i, i + w.len() as int) == w
        },
        DelimModel::OneChar(c) => 0 <= i < hay.len() && hay[i] == c,
        DelimModel::AnyOf(s) => 0 <= i < hay.len() && s.contains(hay[i]),
    }
}

/// How many characters an occurrence of `d` spans.
pub open spec fn delim_match_len(d: DelimModel) -> int {
    match d {
        DelimModel::Substr(w) => w.len() as int,
        DelimModel::OneChar(_) => 1,
        DelimModel::AnyOf(_) => 1,
    }
}

/// True when the character sequence `occ` is what one occurrence of `d`
/// reads as: the pattern itself, the character, or one member of the set.
pub open spec fn is_occurrence(d: DelimModel, occ: Seq<char>) -> bool {
    match d {
        DelimModel::Substr(w) => occ == w,
        DelimModel::OneChar(c) => occ == seq![c],
        DelimModel::AnyOf(s) => occ.len() == 1 && s.contains(occ[0]),
    }
}

/// The position of the leftmost occurrence of `d` in `hay` at or after
/// position `i`, if any.
pub open spec fn first_match_from(d: DelimModel, hay: Seq<char>, i: int) -> Option<int>
    decreases hay.len() - i,
{
    if i < 0 || i >= hay.len() {
        None
    } else if delim_match_at(d, hay, i) {
        Some(i)
    } else {
        first_match_from(d, hay, i + 1)
    }
}

/// The position of the leftmost occurrence of `d` in `hay`, if any.
pub open spec fn first_match(d: DelimModel, hay: Seq<char>) -> Option<int> {
    first_match_from(d, hay, 0)
}

/// A match lies within the text and spans at least one character.
pub proof fn lemma_match_within(d: DelimModel, hay: Seq<char>, i: int)
    requires
        delim_match_at(d, hay, i),
    ensures
        0 <= i,
        1 <= delim_match_len(d),
        i + delim_match_len(d) <= hay.len(),
{
}

/// What a `first_match_from` answer means: a found position is a match, is
/// the leftmost one at or after the start, and a `None` answer means there
/// is none at or after the start.
pub proof fn lemma_first_match_from_props(d: DelimModel, hay: Seq<char>, i: int)
    requires
        0 <= i,
    ensures
        (match first_match_from(d, hay, i) {
            Some(k) => {
                &&& i <= k < hay.len()
                &&& delim_match_at(d, hay, k)
                &&& forall|j: int| i <= j < k ==> !delim_match_at(d, hay, j)
            },
            None => forall|j: int| i <= j ==> !delim_match_at(d, hay, j),
        }),
    decreases hay.len() - i,
{
    if i >= hay.len() {
        assert forall|j: int| i <= j implies !delim_match_at(d, hay, j) by {
            if delim_match_at(d, hay, j) {
                lemma_match_within(d, hay, j);
            }
        }
    } else if delim_match_at(d, hay, i) {
    } else {
        lemma_first_match_from_props(d, hay, i + 1);
    }
}

/// What a `first_match` answer means: a found position is the leftmost
/// match, and a `None` answer means no position matches at all.
pub proof fn lemma_first_match_props(d: DelimModel, hay: Seq<char>)
    ensures
        (match first_match(d, hay) {
            Some(k) => {
                &&& 0 <= k < hay.len()
                &&& delim_match_at(d, hay, k)
                &&& forall|j: int| 0 <= j < k ==> !delim_match_at(d, hay, j)
            },
            None => forall|j: int| !delim_match_at(d, hay, j),
        }),
{
    lemma_first_match_from_props(d, hay, 0);
    match first_match(d, hay) {
        Some(k) => {},
        None => {
            assert forall|j: int| !delim_match_at(d, hay, j) by {
                if delim_match_at(d, hay, j) {
                    lemma_match_within(d, hay, j);
                }
            }
        },
    }
}

/// The converse: a position that matches and has no match before it is
/// exactly what `first_match` finds.
pub proof fn lemma_first_match_is(d: DelimModel, hay: Seq<char>, k: int)
    requires
        delim_match_at(d, hay, k),
        forall|j: int| 0 <= j < k ==> !delim_match_at(d, hay, j),
    ensures
        first_match(d, hay) == Some(k),
{
    lemma_match_within(d, hay, k);
    lemma_first_match_from_is(d, hay, 0, k);
}

/// The converse for `first_match_from`, generalised over the start.
pub proof fn lemma_first_match_from_is(d: DelimModel, hay: Seq<char>, i: int, k: int)
    requires
        0 <= i <= k,
        delim_match_at(d, hay, k),
        forall|j: int| i <= j < k ==> !delim_match_at(d, hay, j),
    ensures
        first_match_from(d, hay, i) == Some(k),
    decreases k - i,
{
    lemma_match_within(d, hay, k);
    if i < k {
        lemma_first_match_from_is(d, hay, i + 1, k);
    }
}

/// With no match anywhere, `first_match` finds nothing.
pub proof fn lemma_first_match_none(d: DelimModel, hay: Seq<char>)
    requires
        forall|j: int| 0 <= j < hay.len() ==> !delim_match_at(d, hay, j),
    ensures
        first_match(d, hay) is None,
{
    lemma_first_match_props(d, hay);
    if first_match(d, hay) is Some {
        let k = first_match(d, hay)->Some_0;
        assert(!delim_match_at(d, hay, k));
    }
}

} // verus!
