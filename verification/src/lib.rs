//! A lazy, zero-copy string splitter.
//!
//! Given a borrowed source text and a delimiter — an exact substring, a
//! single code point, or a set of code points — [`StrSplit`] yields the
//! successive stretches of the text between delimiter occurrences, each one
//! a borrowed slice of the original text.  The behaviour of every operation
//! is pinned down against a mathematical model of splitting over character
//! sequences, and the general laws of that model (reconstruction of the
//! source, determinism, segment count, the trailing-delimiter rule) are
//! proved in [`laws`].

pub mod delimiter;
pub mod laws;
pub mod pattern;
pub mod split;
pub mod splitter;

pub use delimiter::Delimiter;
pub use pattern::DelimModel;
pub use splitter::StrSplit;
pub use splitter::until_char;
