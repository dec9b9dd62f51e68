//! Owned indirection: a boxed parser behaves exactly as the parser it wraps.
//! The indirection lets a parser definition refer to itself without an
//! infinite type expansion; it has no effect on matching.

use vstd::prelude::*;
use crate::input::Input;
use crate::parser::{Parse, TryParse};

verus! {

impl<A: Parse<T>, T: Input> Parse<T> for Box<A> {
    open spec fn spec_parse(s: Seq<char>) -> (Seq<char>, A::V) {
        A::spec_parse(s)
    }

    proof fn lemma_infallible(s: Seq<char>) {
        A::lemma_infallible(s);
    }

    fn parse(input: T) -> (r: (T, Box<A>)) {
        let (input, value) = A::parse(input);
        (input, Box::new(value))
    }
}

impl<A: TryParse<T>, T: Input> TryParse<T> for Box<A> {
    open spec fn spec_try_parse(s: Seq<char>) -> Option<(Seq<char>, A::V)> {
        A::spec_try_parse(s)
    }

    proof fn lemma_no_rewind(s: Seq<char>) {
        A::lemma_no_rewind(s);
    }

    fn try_parse(input: T) -> (r: Option<(T, Box<A>)>) {
        match A::try_parse(input) {
            Some(p) => Some((p.0, Box::new(p.1))),
            None => None,
        }
    }
}

} // verus!
