//! The fuzzy-matching capability the list depends on but does not implement.
//!
//! A query matches a haystack when the query's characters occur in the
//! haystack in order, compared case-insensitively unless the query holds an
//! ASCII upper-case letter ("smart case"). Where one match starts inside the
//! haystack is decided by the matcher's scoring algorithm, which this library
//! treats as opaque: only the name `fuzzy_index_of` stands for it.

use fuzzy_matcher::FuzzyMatcher;
use vstd::prelude::*;

verus! {

/// Whether two characters are equal ignoring ASCII case.
pub open spec fn chars_eq_nocase(a: char, b: char) -> bool {
    a == b || ('A' <= a <= 'Z' && 'a' <= b <= 'z' && a as u32 + 32 == b as u32) || ('A' <= b <= 'Z'
        && 'a' <= a <= 'z' && b as u32 + 32 == a as u32)
}

/// Character equality as the matcher applies it: exact when case-sensitive,
/// ignoring ASCII case otherwise.
pub open spec fn chars_eq(a: char, b: char, case_sensitive: bool) -> bool {
    if case_sensitive {
        a == b
    } else {
        chars_eq_nocase(a, b)
    }
}

/// Whether a sequence holds an ASCII upper-case letter; a query with one is
/// matched case-sensitively.
pub open spec fn has_ascii_upper(s: Seq<char>) -> bool {
    exists|i: int| 0 <= i < s.len() && 'A' <= #[trigger] s[i] <= 'Z'
}

/// Whether `needle`'s characters occur in order within `hay`, scanned
/// greedily from the left.
pub open spec fn subseq_match(hay: Seq<char>, needle: Seq<char>, case_sensitive: bool) -> bool
    decreases hay.len(),
{
    if needle.len() == 0 {
        true
    } else if hay.len() == 0 {
        false
    } else if chars_eq(hay[0], needle[0], case_sensitive) {
        subseq_match(hay.skip(1), needle.skip(1), case_sensitive)
    } else {
        subseq_match(hay.skip(1), needle, case_sensitive)
    }
}

/// Whether the query fuzzy-matches the haystack, with smart case.
pub open spec fn fuzzy_matches(hay: Seq<char>, needle: Seq<char>) -> bool {
    subseq_match(hay, needle, has_ascii_upper(needle))
}

/// The character position inside `hay` where the matcher reports that its
/// best match of `needle` starts, or `None` when `needle` does not match.
/// The position is a function of the matcher's scoring algorithm, which is
/// not restated here.
pub uninterp spec fn fuzzy_index_of(hay: Seq<char>, needle: Seq<char>) -> Option<usize>;

/// Relies on fuzzy_matcher's `SkimMatcherV2::fuzzy_indices` with the default
/// configuration: it returns `Some` exactly when the pattern's characters
/// occur in order in the choice (compared case-insensitively unless the
/// pattern holds an ASCII upper-case letter), together with the character
/// positions of one best-scoring match. The result depends on the two
/// strings alone: the matcher's thread-local matrices are scratch buffers
/// that every call rebuilds. A reported position list that is empty is
/// clamped to position 0.
#[verifier::external_body]
pub(crate) fn fuzzy_first_index(hay: &str, needle: &str) -> (r: Option<usize>)
    requires
        needle@.len() >= 1,
    ensures
        r == fuzzy_index_of(hay@, needle@),
        r is Some <==> fuzzy_matches(hay@, needle@),
{
    let matcher = fuzzy_matcher::skim::SkimMatcherV2::default();
    matcher.fuzzy_indices(hay, needle).map(
        |(_score, indices)| indices.first().copied().unwrap_or(0),
    )
}

} // verus!
