//! The splitting engine.
//!
//! [`StrSplit`] walks a borrowed source text once, left to right.  Its one
//! piece of state is the remainder: `Some` view of the not-yet-consumed
//! tail, or `None` once the split is finished.  Each [`StrSplit::next`]
//! either slices off the stretch before the leftmost delimiter occurrence
//! and steps past the occurrence, or — with no occurrence left — hands out
//! the whole remainder as the final segment and becomes exhausted.  Every
//! segment is a borrowed slice of the source text; nothing is copied.

use vstd::prelude::*;

use crate::delimiter::Delimiter;
use crate::pattern::DelimModel;
use crate::pattern::first_match;
use crate::split::lemma_split_unfold;
use crate::split::split_spec;

verus! {

/// A lazy splitter over a borrowed source text.
///
/// The source text lives at least as long as `'h`; every produced segment
/// borrows from it, not from the splitter, so the segments may outlive the
/// splitter itself.  The delimiter is owned by the splitter and its
/// lifetime is independent of the text's.
pub struct StrSplit<'h, D> {
    /// The not-yet-consumed tail of the source text, or `None` once the
    /// split is finished.  An empty-but-present remainder still yields one
    /// final empty segment: this is what makes a trailing delimiter
    /// produce exactly one trailing empty segment.
    pub remainder: Option<&'h str>,
    /// The delimiter looked for in the remainder.
    pub delimiter: D,
}

impl<'h, D: Delimiter> StrSplit<'h, D> {
    /// The segments this splitter has still to produce, in order.
    pub open spec fn segments_left(self) -> Seq<Seq<char>> {
        match self.remainder {
            Some(r) => split_spec(self.delimiter.model(), r@),
            None => Seq::empty(),
        }
    }

    /// Start a split of `haystack` by `delimiter`: everything is still to
    /// be produced.
    pub fn new(haystack: &'h str, delimiter: D) -> (r: Self)
        ensures
            r.remainder == Some(haystack),
            r.delimiter == delimiter,
            r.segments_left() == split_spec(delimiter.model(), haystack@),
    {
        StrSplit { remainder: Some(haystack), delimiter }
    }

    /// Produce the next segment, or `None` once the split is finished.
    ///
    /// While segments remain, the one handed out is exactly the first
    /// segment still to be produced, and the rest remain in order; once
    /// the splitter is exhausted it stays exhausted and yields nothing.
    pub fn next(&mut self) -> (r: Option<&'h str>)
        ensures
            final(self).delimiter == old(self).delimiter,
            (match r {
                Some(seg) => {
                    &&& old(self).remainder is Some
                    &&& old(self).segments_left().len() >= 1
                    &&& seg@ == old(self).segments_left()[0]
                    &&& final(self).segments_left() == old(self).segments_left().drop_first()
                    &&& (final(self).remainder is Some <==> old(self).segments_left().len() >= 2)
                },
                None => {
                    &&& old(self).remainder is None
                    &&& *final(self) == *old(self)
                },
            }),
    {
        match self.remainder {
            None => None,
            Some(rem) => {
                proof {
                    lemma_split_unfold(self.delimiter.model(), rem@);
                }
                match self.delimiter.find_next(rem) {
                    Some((start, end)) => {
                        let len: usize = rem.unicode_len();
                        let seg: &'h str = rem.substring_char(0, start);
                        let rest: &'h str = rem.substring_char(end, len);
                        proof {
                            lemma_split_unfold(self.delimiter.model(), rest@);
                        }
                        self.remainder = Some(rest);
                        Some(seg)
                    },
                    None => {
                        self.remainder = None;
                        Some(rem)
                    },
                }
            },
        }
    }

    /// Produce every remaining segment at once, in order.
    pub fn segments(self) -> (r: Vec<&'h str>)
        ensures
            r.deep_view() == self.segments_left(),
    {
        let ghost total = self.segments_left();
        let mut it = self;
        let mut out: Vec<&'h str> = Vec::new();
        proof {
            assert(out.deep_view() + it.segments_left() =~= total);
        }
        loop
            invariant
                total == self.segments_left(),
                out.deep_view() + it.segments_left() == total,
            decreases it.segments_left().len(),
        {
            let ghost out_before = out.deep_view();
            match it.next() {
                Some(seg) => {
                    out.push(seg);
                    proof {
                        assert(out.deep_view() =~= out_before.push(seg@));
                        assert(out.deep_view() + it.segments_left() =~= total);
                    }
                },
                None => {
                    proof {
                        assert(out.deep_view() =~= out.deep_view() + it.segments_left());
                    }
                    return out;
                },
            }
        }
    }
}

/// The stretch of `s` before the first occurrence of the character `c`,
/// or all of `s` when `c` does not occur: the first segment of a split of
/// `s` by `c`.
///
/// This leans on the splitting engine always yielding at least one
/// segment, so there is no empty case to fall back to.
pub fn until_char<'h>(s: &'h str, c: char) -> (r: &'h str)
    ensures
        r@ == (match first_match(DelimModel::OneChar(c), s@) {
            Some(i) => s@.subrange(0, i),
            None => s@,
        }),
        r@ == split_spec(DelimModel::OneChar(c), s@)[0],
{
    proof {
        lemma_split_unfold(DelimModel::OneChar(c), s@);
    }
    let mut it = StrSplit::new(s, c);
    match it.next() {
        Some(seg) => seg,
        None => vstd::pervasive::unreached(),
    }
}

} // verus!
