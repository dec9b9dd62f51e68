//! Optional: attempts the inner fallible parser once; on a miss it succeeds
//! with an absent value and an unmoved cursor. It never fails itself.

use vstd::prelude::*;
use crate::input::Input;
use crate::parser::{lemma_suffix_refl, Parse, TryParse};

verus! {

/// The outcome of trying `A` once at `s`: the hit, or an absent value with
/// the input unmoved.
pub open spec fn spec_optional<T: Input, A: TryParse<T>>(s: Seq<char>) -> (
    Seq<char>,
    Option<A::V>,
) {
    match A::spec_try_parse(s) {
        Some(q) => (q.0, Some(q.1)),
        None => (s, None),
    }
}

impl<A: TryParse<T>, T: Input> Parse<T> for Option<A> {
    open spec fn spec_parse(s: Seq<char>) -> (Seq<char>, Option<A::V>) {
        spec_optional::<T, A>(s)
    }

    proof fn lemma_infallible(s: Seq<char>) {
    }

    fn parse(input: T) -> (r: (T, Option<A>)) {
        proof {
            assert(Self::spec_parse(input.rem()) == spec_optional::<T, A>(input.rem()));
        }
        let snapshot = input.dup();
        match A::try_parse(snapshot) {
            Some(p) => (p.0, Some(p.1)),
            None => (input, None),
        }
    }
}

impl<A: TryParse<T>, T: Input> TryParse<T> for Option<A> {
    open spec fn spec_try_parse(s: Seq<char>) -> Option<(Seq<char>, Option<A::V>)> {
        Some(spec_optional::<T, A>(s))
    }

    proof fn lemma_no_rewind(s: Seq<char>) {
        A::lemma_no_rewind(s);
        lemma_suffix_refl(s);
    }

    fn try_parse(input: T) -> (r: Option<(T, Option<A>)>) {
        proof {
            assert(Self::spec_try_parse(input.rem()) == Some(spec_optional::<T, A>(input.rem())));
        }
        let p = <Option<A> as Parse<T>>::parse(input);
        Some(p)
    }
}

} // verus!
