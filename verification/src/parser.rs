//! The combinator algebra: the fallible/total trait pair and the composite
//! parsers over tuples, options, repetitions, alternation, negative lookahead
//! and owned indirection.

pub mod boxed;
pub mod char;
pub mod character;
pub mod either;
pub mod not;
pub mod option;
pub mod tuple;
pub mod vec;
pub mod vec1;

use vstd::prelude::*;
use crate::input::Input;

verus! {

/// `t` is what is left of `s` after consuming zero or more leading characters.
pub open spec fn suffix_of(t: Seq<char>, s: Seq<char>) -> bool {
    t.len() <= s.len() && t == s.skip(s.len() - t.len())
}

/// A suffix of a suffix is a suffix.
pub proof fn lemma_suffix_trans(u: Seq<char>, t: Seq<char>, s: Seq<char>)
    requires
        suffix_of(u, t),
        suffix_of(t, s),
    ensures
        suffix_of(u, s),
{
    assert(u =~= s.skip(s.len() - u.len()));
}

/// Every sequence is a suffix of itself.
pub proof fn lemma_suffix_refl(s: Seq<char>)
    ensures
        suffix_of(s, s),
{
    assert(s =~= s.skip(0));
}

/// A parser that may report "no match here" as a first-class outcome:
/// `spec_try_parse` gives, for every position, either the remaining input and
/// the view of the value produced, or `None` for a miss.
pub trait TryParse<T: Input>: Sized + DeepView {
    /// The meaning of this parser: `None` where it misses, otherwise the
    /// remaining input and the produced value's view.
    spec fn spec_try_parse(s: Seq<char>) -> Option<(Seq<char>, <Self as DeepView>::V)>;

    /// A hit only ever consumes: the remaining input after a hit is a suffix
    /// of the input parsed from, never a rewind.
    proof fn lemma_no_rewind(s: Seq<char>)
        ensures
            Self::spec_try_parse(s) matches Some(q) ==> suffix_of(q.0, s),
    ;

    /// Attempt a parse at the cursor's position; the outcome is exactly
    /// `spec_try_parse` of the remaining input the cursor was handed.
    fn try_parse(input: T) -> (r: Option<(T, Self)>)
        ensures
            match r {
                Some(p) => Self::spec_try_parse(input.rem()) matches Some(q)
                    && p.0.rem() == q.0 && p.1.deep_view() == q.1,
                None => Self::spec_try_parse(input.rem()) is None,
            },
    ;

    /// Attempt a parse and keep only the value, discarding the cursor.
    fn try_parse_value(input: T) -> (r: Option<Self>)
        ensures
            match r {
                Some(v) => Self::spec_try_parse(input.rem()) matches Some(q)
                    && v.deep_view() == q.1,
                None => Self::spec_try_parse(input.rem()) is None,
            },
    {
        match Self::try_parse(input) {
            Some(p) => Some(p.1),
            None => None,
        }
    }
}

/// A parser that always resolves: parsing from any position yields exactly
/// one `(remaining input, value)` pair, given by `spec_parse`.
pub trait Parse<T: Input>: TryParse<T> {
    /// The meaning of this parser: the remaining input and the view of the
    /// value produced when parsing at `s`.
    spec fn spec_parse(s: Seq<char>) -> (Seq<char>, <Self as DeepView>::V);

    /// A total parser never misses: its fallible form always succeeds, with
    /// the same outcome.
    proof fn lemma_infallible(s: Seq<char>)
        ensures
            Self::spec_try_parse(s) matches Some(q) && q.0 == Self::spec_parse(s).0
                && q.1 == Self::spec_parse(s).1,
    ;

    /// Parse, never failing: the outcome is exactly `spec_parse` of the
    /// remaining input the cursor was handed.
    fn parse(input: T) -> (r: (T, Self))
        ensures
            r.0.rem() == Self::spec_parse(input.rem()).0,
            r.1.deep_view() == Self::spec_parse(input.rem()).1,
    ;
}

} // verus!
