//! Delimiter values and their search.
//!
//! A [`Delimiter`] is anything that can find the leftmost occurrence of
//! itself in a text and say which [`DelimModel`] it stands for.  Three
//! implementations are provided: an exact substring (`&str`), a single
//! character (`char`), and a set of characters given as a slice
//! (`&[char]`).  Each search is written out over character positions and
//! proved to return exactly the leftmost occurrence of its model.

use vstd::prelude::*;

use crate::pattern::DelimModel;
use crate::pattern::delim_match_at;
use crate::pattern::delim_match_len;
use crate::pattern::first_match;
use crate::pattern::lemma_first_match_is;
use crate::pattern::lemma_first_match_none;

verus! {

/// What a completed search reports: a found pair is the position of the
/// leftmost occurrence of `d` in `hay` together with the position one past
/// its end, and `None` means `hay` holds no occurrence at all.
pub open spec fn found_next(d: DelimModel, hay: Seq<char>, r: Option<(usize, usize)>) -> bool {
    match r {
        Some(p) => {
            &&& first_match(d, hay) == Some(p.0 as int)
            &&& p.1 as int == p.0 as int + delim_match_len(d)
        },
        None => first_match(d, hay) is None,
    }
}

/// A value that can act as the delimiter of a split.
///
/// The two halves belong together: `model` says which mathematical
/// delimiter the value stands for, and `find_next` must find exactly the
/// leftmost occurrence of that model.
pub trait Delimiter: Sized {
    /// The mathematical delimiter this value stands for.
    spec fn model(&self) -> DelimModel;

    /// Find the leftmost occurrence of this delimiter in `s`.
    ///
    /// Returns `Some((start, end))` with the character position where the
    /// occurrence begins and the position one past where it ends, or
    /// `None` when `s` holds no occurrence.
    fn find_next(&self, s: &str) -> (r: Option<(usize, usize)>)
        ensures
            found_next(self.model(), s@, r),
    ;
}

/// Whether the characters of `needle` appear in `hay` starting at
/// position `i`.
fn substr_matches_at(hay: &str, needle: &str, i: usize) -> (b: bool)
    requires
        i as int + needle@.len() <= hay@.len(),
        hay@.len() <= usize::MAX,
    ensures
        b == (hay@.subrange(i as int, i as int + needle@.len() as int) == needle@),
{
    let m: usize = needle.unicode_len();
    let ghost window = hay@.subrange(i as int, i as int + needle@.len() as int);
    let mut j: usize = 0;
    while j < m
        invariant
            m == needle@.len(),
            i as int + m <= hay@.len() <= usize::MAX,
            j <= m,
            window == hay@.subrange(i as int, i as int + needle@.len() as int),
            forall|k: int| 0 <= k < j ==> hay@[i + k] == needle@[k],
        decreases m - j,
    {
        if hay.get_char(i + j) != needle.get_char(j) {
            proof {
                assert(window[j as int] == hay@[i + j]);
            }
            return false;
        }
        j += 1;
    }
    proof {
        assert(window =~= needle@);
    }
    true
}

impl<'d> Delimiter for &'d str {
    /// An exact-substring delimiter: its model is its character sequence.
    open spec fn model(&self) -> DelimModel {
        DelimModel::Substr(self@)
    }

    fn find_next(&self, s: &str) -> (r: Option<(usize, usize)>) {
        let ghost d = self.model();
        let n: usize = s.unicode_len();
        let m: usize = self.unicode_len();
        if m == 0 || m > n {
            proof {
                lemma_first_match_none(d, s@);
            }
            None
        } else {
            let bound: usize = n - m;
            let mut i: usize = 0;
            while i <= bound
                invariant
                    n == s@.len(),
                    m == self@.len(),
                    0 < m <= n,
                    bound == n - m,
                    i <= bound + 1,
                    d == DelimModel::Substr(self@),
                    forall|j: int| 0 <= j < i ==> !delim_match_at(d, s@, j),
                decreases bound + 1 - i,
            {
                if substr_matches_at(s, self, i) {
                    proof {
                        lemma_first_match_is(d, s@, i as int);
                    }
                    return Some((i, i + m));
                }
                i += 1;
            }
            proof {
                lemma_first_match_none(d, s@);
            }
            None
        }
    }
}

impl Delimiter for char {
    /// A single-character delimiter: its model is that one character.
    open spec fn model(&self) -> DelimModel {
        DelimModel::OneChar(*self)
    }

    fn find_next(&self, s: &str) -> (r: Option<(usize, usize)>) {
        let ghost d = self.model();
        let n: usize = s.unicode_len();
        let mut i: usize = 0;
        while i < n
            invariant
                n == s@.len(),
                i <= n,
                d == DelimModel::OneChar(*self),
                forall|j: int| 0 <= j < i ==> !delim_match_at(d, s@, j),
            decreases n - i,
        {
            if s.get_char(i) == *self {
                proof {
                    lemma_first_match_is(d, s@, i as int);
                }
                return Some((i, i + 1));
            }
            i += 1;
        }
        proof {
            lemma_first_match_none(d, s@);
        }
        None
    }
}

/// Whether `c` is one of the characters of `cs`.
fn slice_contains_char(cs: &[char], c: char) -> (b: bool)
    ensures
        b == cs@.to_set().contains(c),
{
    let n: usize = cs.len();
    let mut k: usize = 0;
    while k < n
        invariant
            n == cs@.len(),
            k <= n,
            forall|t: int| 0 <= t < k ==> cs@[t] != c,
        decreases n - k,
    {
        if *vstd::slice::slice_index_get(cs, k) == c {
            proof {
                assert(cs@.contains(c));
            }
            return true;
        }
        k += 1;
    }
    proof {
        if cs@.contains(c) {
            let t = choose|t: int| 0 <= t < cs@.len() && cs@[t] == c;
            assert(cs@[t] != c);
        }
    }
    false
}

impl<'d> Delimiter for &'d [char] {
    /// A character-set delimiter: its model is the set of the slice's
    /// characters; their order and repetition do not matter.
    open spec fn model(&self) -> DelimModel {
        DelimModel::AnyOf(self@.to_set())
    }

    fn find_next(&self, s: &str) -> (r: Option<(usize, usize)>) {
        let ghost d = self.model();
        let n: usize = s.unicode_len();
        let mut i: usize = 0;
        while i < n
            invariant
                n == s@.len(),
                i <= n,
                d == DelimModel::AnyOf(self@.to_set()),
                forall|j: int| 0 <= j < i ==> !delim_match_at(d, s@, j),
            decreases n - i,
        {
            if slice_contains_char(self, s.get_char(i)) {
                proof {
                    lemma_first_match_is(d, s@, i as int);
                }
                return Some((i, i + 1));
            }
            i += 1;
        }
        proof {
            lemma_first_match_none(d, s@);
        }
        None
    }
}

} // verus!
