//! Two-way alternation: try the first alternative; on a miss, try the second
//! from the original position and tag which one matched.

use vstd::prelude::*;
use crate::input::Input;
use crate::parser::{Parse, TryParse};

verus! {

/// The value of a two-way alternation, tagged by which alternative matched.
#[derive(Clone, Copy, Debug, Hash, PartialEq, Eq)]
pub enum Either<A, B> {
    A(A),
    B(B),
}

impl<A: DeepView, B: DeepView> DeepView for Either<A, B> {
    type V = Either<A::V, B::V>;

    open spec fn deep_view(&self) -> Either<A::V, B::V> {
        match self {
            Either::A(a) => Either::A(a.deep_view()),
            Either::B(b) => Either::B(b.deep_view()),
        }
    }
}

/// The outcome of alternation at `s`: the first alternative's hit, tagged
/// left; otherwise the second alternative tried from the same `s`, tagged
/// right; a miss only if both miss.
pub open spec fn spec_alt<T: Input, A: TryParse<T>, B: TryParse<T>>(s: Seq<char>) -> Option<
    (Seq<char>, Either<A::V, B::V>),
> {
    match A::spec_try_parse(s) {
        Some(q) => Some((q.0, Either::A(q.1))),
        None => match B::spec_try_parse(s) {
            Some(q) => Some((q.0, Either::B(q.1))),
            None => None,
        },
    }
}

impl<A: TryParse<T>, B: Parse<T>, T: Input> Parse<T> for Either<A, B> {
    open spec fn spec_parse(s: Seq<char>) -> (Seq<char>, Either<A::V, B::V>) {
        match A::spec_try_parse(s) {
            Some(q) => (q.0, Either::A(q.1)),
            None => (B::spec_parse(s).0, Either::B(B::spec_parse(s).1)),
        }
    }

    proof fn lemma_infallible(s: Seq<char>) {
        B::lemma_infallible(s);
    }

    fn parse(input: T) -> (r: (T, Either<A, B>)) {
        let snapshot = input.dup();
        match A::try_parse(snapshot) {
            Some(p) => (p.0, Either::A(p.1)),
            None => {
                let (input, b) = B::parse(input);
                (input, Either::B(b))
            },
        }
    }
}

impl<A: TryParse<T>, B: TryParse<T>, T: Input> TryParse<T> for Either<A, B> {
    open spec fn spec_try_parse(s: Seq<char>) -> Option<(Seq<char>, Either<A::V, B::V>)> {
        spec_alt::<T, A, B>(s)
    }

    proof fn lemma_no_rewind(s: Seq<char>) {
        A::lemma_no_rewind(s);
        B::lemma_no_rewind(s);
    }

    fn try_parse(input: T) -> (r: Option<(T, Either<A, B>)>) {
        let snapshot = input.dup();
        match A::try_parse(snapshot) {
            Some(p) => Some((p.0, Either::A(p.1))),
            None => match B::try_parse(input) {
                Some(p) => Some((p.0, Either::B(p.1))),
                None => None,
            },
        }
    }
}

/// Backtrack isolation: when the first alternative misses at `s` — however
/// far it advanced internally before failing — the second alternative is
/// tried from exactly `s`, and the whole outcome is the second alternative's
/// outcome, tagged.
pub proof fn lemma_backtrack_isolation<T: Input, A: TryParse<T>, B: TryParse<T>>(s: Seq<char>)
    requires
        A::spec_try_parse(s) is None,
    ensures
        match B::spec_try_parse(s) {
            Some(q) => spec_alt::<T, A, B>(s) == Some((q.0, Either::<A::V, B::V>::B(q.1))),
            None => spec_alt::<T, A, B>(s) is None,
        },
{
}

} // verus!
