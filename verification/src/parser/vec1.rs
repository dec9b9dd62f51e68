//! Repetition, one or more: as zero-or-more, but the repetition must collect
//! at least one hit; it misses outright when the very first attempt yields
//! nothing. The collected values live in `Vec1`, a vector that is never
//! empty.
//!
//! As with zero-or-more, a hit that consumes no input ends the repetition
//! with that hit discarded; one-or-more over a parser that can only match
//! without consuming therefore misses.

use vstd::prelude::*;
use crate::input::Input;
use crate::parser::{Parse, TryParse};
use crate::parser::vec::{lemma_star_no_rewind, spec_star};

verus! {

/// A vector holding at least one element.
#[derive(Debug, Hash, PartialEq, Eq)]
pub struct Vec1<A> {
    items: Vec<A>,
}

impl<A: DeepView> DeepView for Vec1<A> {
    type V = Seq<A::V>;

    closed spec fn deep_view(&self) -> Seq<A::V> {
        self.items.deep_view()
    }
}

impl<A> Vec1<A> {
    #[verifier::type_invariant]
    closed spec fn at_least_one(self) -> bool {
        self.items@.len() >= 1
    }
}

impl<A: DeepView> Vec1<A> {
    /// Wrap a vector, refusing an empty one.
    pub fn from_vec(items: Vec<A>) -> (r: Option<Vec1<A>>)
        ensures
            match r {
                Some(v) => items.deep_view().len() >= 1 && v.deep_view() == items.deep_view(),
                None => items.deep_view().len() == 0,
            },
    {
        proof {
            assert(items.deep_view().len() == items@.len());
        }
        if items.len() >= 1 {
            Some(Vec1 { items })
        } else {
            None
        }
    }

    /// Give up the wrapper, keeping the elements.
    pub fn into_vec(self) -> (r: Vec<A>)
        ensures
            r.deep_view() == self.deep_view(),
            r.deep_view().len() >= 1,
    {
        proof {
            use_type_invariant(&self);
            assert(self.items.deep_view().len() == self.items@.len());
        }
        let Vec1 { items } = self;
        items
    }

    /// How many elements are held: always at least one.
    pub fn len(&self) -> (n: usize)
        ensures
            n == self.deep_view().len(),
            n >= 1,
    {
        proof {
            use_type_invariant(self);
            assert(self.items.deep_view().len() == self.items@.len());
        }
        self.items.len()
    }
}

impl<A: TryParse<T>, T: Input> TryParse<T> for Vec1<A> {
    open spec fn spec_try_parse(s: Seq<char>) -> Option<(Seq<char>, Seq<A::V>)> {
        let st = spec_star::<T, A>(s);
        if st.1.len() >= 1 {
            Some(st)
        } else {
            None
        }
    }

    proof fn lemma_no_rewind(s: Seq<char>) {
        lemma_star_no_rewind::<T, A>(s);
    }

    fn try_parse(input: T) -> (r: Option<(T, Vec1<A>)>) {
        proof {
            assert(Self::spec_try_parse(input.rem()) == (if spec_star::<T, A>(
                input.rem(),
            ).1.len() >= 1 {
                Some(spec_star::<T, A>(input.rem()))
            } else {
                None::<(Seq<char>, Seq<A::V>)>
            }));
        }
        let (cur, items) = <Vec<A> as Parse<T>>::parse(input);
        proof {
            assert(items.deep_view().len() == items@.len());
        }
        if items.len() >= 1 {
            Some((cur, Vec1 { items }))
        } else {
            None
        }
    }
}

/// One-or-more misses exactly where its first attempt yields nothing: the
/// element parser misses outright, or hits without consuming.
pub proof fn lemma_one_or_more_first_attempt<T: Input, A: TryParse<T>>(s: Seq<char>)
    ensures
        (<Vec1<A> as TryParse<T>>::spec_try_parse(s) is None) <==> match A::spec_try_parse(s) {
            None => true,
            Some(q) => q.0.len() >= s.len(),
        },
{
}

} // verus!
