//! Negative lookahead: a zero-width assertion that succeeds, with a no-value
//! marker and an unmoved cursor, exactly where the wrapped parser misses.

use core::marker::PhantomData;

use vstd::prelude::*;
use crate::input::Input;
use crate::parser::{lemma_suffix_refl, TryParse};

verus! {

/// Succeeds iff the wrapped parser `T` misses here; consumes nothing in
/// either outcome.
#[derive(Debug, Default, Hash, PartialEq, Eq)]
pub struct Not<T>(PhantomData<T>);

impl<T> Clone for Not<T> {
    fn clone(&self) -> (r: Self)
        ensures
            r == *self,
    {
        Not(PhantomData)
    }
}

impl<T> Copy for Not<T> {

}

impl<T> DeepView for Not<T> {
    type V = ();

    open spec fn deep_view(&self) -> () {
        ()
    }
}

impl<A: TryParse<T>, T: Input> TryParse<T> for Not<A> {
    open spec fn spec_try_parse(s: Seq<char>) -> Option<(Seq<char>, ())> {
        match A::spec_try_parse(s) {
            None => Some((s, ())),
            Some(_) => None,
        }
    }

    proof fn lemma_no_rewind(s: Seq<char>) {
        lemma_suffix_refl(s);
    }

    fn try_parse(input: T) -> (r: Option<(T, Not<A>)>) {
        let snapshot = input.dup();
        match A::try_parse(snapshot) {
            None => Some((input, Not(PhantomData))),
            Some(_) => None,
        }
    }
}

} // verus!
