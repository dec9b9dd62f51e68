//! Repetition, zero or more: repeatedly attempt the inner parser from the
//! current position, collecting the hits in order, stopping at the first miss
//! and keeping the cursor where the last hit left it. It always succeeds,
//! possibly with an empty collection.
//!
//! A hit that consumes no input also ends the repetition, with that hit
//! discarded: without this rule a repetition over a parser that can match
//! without consuming would never stop, so every iteration is required to
//! consume at least one character.

use vstd::prelude::*;
use crate::input::Input;
use crate::parser::{lemma_suffix_refl, lemma_suffix_trans, suffix_of, Parse, TryParse};

verus! {

/// The outcome of repetition at `s`: collect hits of `A` while each consumes
/// at least one character; stop at the first miss or non-consuming hit.
pub open spec fn spec_star<T: Input, A: TryParse<T>>(s: Seq<char>) -> (Seq<char>, Seq<A::V>)
    decreases s.len(),
{
    match A::spec_try_parse(s) {
        None => (s, Seq::empty()),
        Some(q) => if q.0.len() < s.len() {
            let r = spec_star::<T, A>(q.0);
            (r.0, seq![q.1] + r.1)
        } else {
            (s, Seq::empty())
        },
    }
}

/// Repetition only ever consumes: what remains after it is a suffix of what
/// it started from.
pub proof fn lemma_star_no_rewind<T: Input, A: TryParse<T>>(s: Seq<char>)
    ensures
        suffix_of(spec_star::<T, A>(s).0, s),
    decreases s.len(),
{
    lemma_suffix_refl(s);
    A::lemma_no_rewind(s);
    if let Some(q) = A::spec_try_parse(s) {
        if q.0.len() < s.len() {
            lemma_star_no_rewind::<T, A>(q.0);
            lemma_suffix_trans(spec_star::<T, A>(q.0).0, q.0, s);
        }
    }
}

impl<A: TryParse<T>, T: Input> Parse<T> for Vec<A> {
    open spec fn spec_parse(s: Seq<char>) -> (Seq<char>, Seq<A::V>) {
        spec_star::<T, A>(s)
    }

    proof fn lemma_infallible(s: Seq<char>) {
    }

    fn parse(input: T) -> (r: (T, Vec<A>)) {
        proof {
            assert(Self::spec_parse(input.rem()) == spec_star::<T, A>(input.rem()));
        }
        let ghost orig = input.rem();
        let mut cur = input;
        let mut out: Vec<A> = Vec::new();
        proof {
            assert(out.deep_view() =~= Seq::<A::V>::empty());
            assert(spec_star::<T, A>(orig).1 =~= out.deep_view() + spec_star::<T, A>(
                cur.rem(),
            ).1);
        }
        #[verifier::loop_isolation(false)]
        loop
            invariant
                spec_star::<T, A>(orig).0 == spec_star::<T, A>(cur.rem()).0,
                spec_star::<T, A>(orig).1 == out.deep_view() + spec_star::<T, A>(cur.rem()).1,
            decreases cur.rem().len(),
        {
            let len_before = cur.rem_len();
            let snapshot = cur.dup();
            match A::try_parse(snapshot) {
                Some(p) => {
                    let (next, value) = p;
                    if next.rem_len() < len_before {
                        let ghost out_prev = out.deep_view();
                        let ghost mid = cur.rem();
                        out.push(value);
                        proof {
                            assert(out.deep_view() =~= out_prev.push(value.deep_view()));
                            assert(spec_star::<T, A>(mid).1 =~= seq![value.deep_view()]
                                + spec_star::<T, A>(next.rem()).1);
                            assert(out_prev + spec_star::<T, A>(mid).1 =~= out.deep_view()
                                + spec_star::<T, A>(next.rem()).1);
                        }
                        cur = next;
                    } else {
                        proof {
                            assert(spec_star::<T, A>(cur.rem()).1 =~= Seq::<A::V>::empty());
                            assert(out.deep_view() + spec_star::<T, A>(cur.rem()).1
                                =~= out.deep_view());
                        }
                        return (cur, out);
                    }
                },
                None => {
                    proof {
                        assert(spec_star::<T, A>(cur.rem()).1 =~= Seq::<A::V>::empty());
                        assert(out.deep_view() + spec_star::<T, A>(cur.rem()).1
                            =~= out.deep_view());
                    }
                    return (cur, out);
                },
            }
        }
    }
}

impl<A: TryParse<T>, T: Input> TryParse<T> for Vec<A> {
    open spec fn spec_try_parse(s: Seq<char>) -> Option<(Seq<char>, Seq<A::V>)> {
        Some(spec_star::<T, A>(s))
    }

    proof fn lemma_no_rewind(s: Seq<char>) {
        lemma_star_no_rewind::<T, A>(s);
    }

    fn try_parse(input: T) -> (r: Option<(T, Vec<A>)>) {
        proof {
            assert(Self::spec_try_parse(input.rem()) == Some(spec_star::<T, A>(input.rem())));
        }
        let p = <Vec<A> as Parse<T>>::parse(input);
        Some(p)
    }
}

} // verus!
