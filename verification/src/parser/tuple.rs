//! Sequencing: a tuple parses its components in declared order, threading the
//! cursor forward, and fails as soon as one component fails — no partial
//! tuple is ever produced. The empty tuple always succeeds and consumes
//! nothing; the one-element tuple is an identity wrapper.

use vstd::prelude::*;
use crate::input::Input;
use crate::parser::{lemma_suffix_refl, lemma_suffix_trans, Parse, TryParse};

verus! {

impl<T: Input> Parse<T> for () {
    open spec fn spec_parse(s: Seq<char>) -> (Seq<char>, ()) {
        (s, ())
    }

    proof fn lemma_infallible(s: Seq<char>) {
    }

    fn parse(input: T) -> (r: (T, ())) {
        (input, ())
    }
}

impl<T: Input> TryParse<T> for () {
    open spec fn spec_try_parse(s: Seq<char>) -> Option<(Seq<char>, ())> {
        Some((s, ()))
    }

    proof fn lemma_no_rewind(s: Seq<char>) {
        lemma_suffix_refl(s);
    }

    fn try_parse(input: T) -> (r: Option<(T, ())>) {
        Some((input, ()))
    }
}

/// A zero-field product is a no-op: it always succeeds, consumes nothing,
/// and hands back exactly the remaining input it was given.
pub proof fn lemma_unit_identity<T: Input>(s: Seq<char>)
    ensures
        <() as TryParse<T>>::spec_try_parse(s) == Some((s, ())),
        <() as Parse<T>>::spec_parse(s) == (s, ()),
{
}

impl<A: Parse<T>, T: Input> Parse<T> for (A,) {
    open spec fn spec_parse(s: Seq<char>) -> (Seq<char>, (A::V,)) {
        let qa = A::spec_parse(s);
        (qa.0, (qa.1,))
    }

    proof fn lemma_infallible(s: Seq<char>) {
        A::lemma_infallible(s);
    }

    fn parse(input: T) -> (r: (T, (A,))) {
        let (input, a) = A::parse(input);
        (input, (a,))
    }
}

impl<A: TryParse<T>, T: Input> TryParse<T> for (A,) {
    open spec fn spec_try_parse(s: Seq<char>) -> Option<(Seq<char>, (A::V,))> {
        match A::spec_try_parse(s) {
            Some(qa) => Some((qa.0, (qa.1,))),
            None => None,
        }
    }

    proof fn lemma_no_rewind(s: Seq<char>) {
        A::lemma_no_rewind(s);
    }

    fn try_parse(input: T) -> (r: Option<(T, (A,))>) {
        match A::try_parse(input) {
            Some(p) => Some((p.0, (p.1,))),
            None => None,
        }
    }
}

impl<A: Parse<T>, B: Parse<T>, T: Input> Parse<T> for (A, B) {
    open spec fn spec_parse(s: Seq<char>) -> (Seq<char>, (A::V, B::V)) {
        let qa = A::spec_parse(s);
        let qb = B::spec_parse(qa.0);
        (qb.0, (qa.1, qb.1))
    }

    proof fn lemma_infallible(s: Seq<char>) {
        A::lemma_infallible(s);
        B::lemma_infallible(A::spec_parse(s).0);
    }

    fn parse(input: T) -> (r: (T, (A, B))) {
        let (input, a) = A::parse(input);
        let (input, b) = B::parse(input);
        (input, (a, b))
    }
}

impl<A: TryParse<T>, B: TryParse<T>, T: Input> TryParse<T> for (A, B) {
    open spec fn spec_try_parse(s: Seq<char>) -> Option<(Seq<char>, (A::V, B::V))> {
        match A::spec_try_parse(s) {
            None => None,
            Some(qa) => match B::spec_try_parse(qa.0) {
                None => None,
                Some(qb) => Some((qb.0, (qa.1, qb.1))),
            },
        }
    }

    proof fn lemma_no_rewind(s: Seq<char>) {
        A::lemma_no_rewind(s);
        if let Some(qa) = A::spec_try_parse(s) {
            B::lemma_no_rewind(qa.0);
            if let Some(qb) = B::spec_try_parse(qa.0) {
                lemma_suffix_trans(qb.0, qa.0, s);
            }
        }
    }

    fn try_parse(input: T) -> (r: Option<(T, (A, B))>) {
        match A::try_parse(input) {
            None => None,
            Some((input, a)) => match B::try_parse(input) {
                None => None,
                Some((input, b)) => Some((input, (a, b))),
            },
        }
    }
}

impl<A: Parse<T>, B: Parse<T>, C: Parse<T>, T: Input> Parse<T> for (A, B, C) {
    open spec fn spec_parse(s: Seq<char>) -> (Seq<char>, (A::V, B::V, C::V)) {
        let qa = A::spec_parse(s);
        let qb = B::spec_parse(qa.0);
        let qc = C::spec_parse(qb.0);
        (qc.0, (qa.1, qb.1, qc.1))
    }

    proof fn lemma_infallible(s: Seq<char>) {
        A::lemma_infallible(s);
        B::lemma_infallible(A::spec_parse(s).0);
        C::lemma_infallible(B::spec_parse(A::spec_parse(s).0).0);
    }

    fn parse(input: T) -> (r: (T, (A, B, C))) {
        let (input, a) = A::parse(input);
        let (input, b) = B::parse(input);
        let (input, c) = C::parse(input);
        (input, (a, b, c))
    }
}

impl<A: TryParse<T>, B: TryParse<T>, C: TryParse<T>, T: Input> TryParse<T> for (A, B, C) {
    open spec fn spec_try_parse(s: Seq<char>) -> Option<(Seq<char>, (A::V, B::V, C::V))> {
        match A::spec_try_parse(s) {
            None => None,
            Some(qa) => match B::spec_try_parse(qa.0) {
                None => None,
                Some(qb) => match C::spec_try_parse(qb.0) {
                    None => None,
                    Some(qc) => Some((qc.0, (qa.1, qb.1, qc.1))),
                },
            },
        }
    }

    proof fn lemma_no_rewind(s: Seq<char>) {
        A::lemma_no_rewind(s);
        if let Some(qa) = A::spec_try_parse(s) {
            B::lemma_no_rewind(qa.0);
            if let Some(qb) = B::spec_try_parse(qa.0) {
                lemma_suffix_trans(qb.0, qa.0, s);
                C::lemma_no_rewind(qb.0);
                if let Some(qc) = C::spec_try_parse(qb.0) {
                    lemma_suffix_trans(qc.0, qb.0, s);
                }
            }
        }
    }

    fn try_parse(input: T) -> (r: Option<(T, (A, B, C))>) {
        match A::try_parse(input) {
            None => None,
            Some((input, a)) => match B::try_parse(input) {
                None => None,
                Some((input, b)) => match C::try_parse(input) {
                    None => None,
                    Some((input, c)) => Some((input, (a, b, c))),
                },
            },
        }
    }
}

impl<A: Parse<T>, B: Parse<T>, C: Parse<T>, D: Parse<T>, T: Input> Parse<T> for (A, B, C, D) {
    open spec fn spec_parse(s: Seq<char>) -> (Seq<char>, (A::V, B::V, C::V, D::V)) {
        let qa = A::spec_parse(s);
        let qb = B::spec_parse(qa.0);
        let qc = C::spec_parse(qb.0);
        let qd = D::spec_parse(qc.0);
        (qd.0, (qa.1, qb.1, qc.1, qd.1))
    }

    proof fn lemma_infallible(s: Seq<char>) {
        let s0 = s;
        A::lemma_infallible(s0);
        let s1 = A::spec_parse(s0).0;
        B::lemma_infallible(s1);
        let s2 = B::spec_parse(s1).0;
        C::lemma_infallible(s2);
        let s3 = C::spec_parse(s2).0;
        D::lemma_infallible(s3);
    }

    fn parse(input: T) -> (r: (T, (A, B, C, D))) {
        let (input, a) = A::parse(input);
        let (input, b) = B::parse(input);
        let (input, c) = C::parse(input);
        let (input, d) = D::parse(input);
        (input, (a, b, c, d))
    }
}

impl<A: TryParse<T>, B: TryParse<T>, C: TryParse<T>, D: TryParse<T>, T: Input> TryParse<T> for (A, B, C, D) {
    open spec fn spec_try_parse(s: Seq<char>) -> Option<(Seq<char>, (A::V, B::V, C::V, D::V))> {
        match A::spec_try_parse(s) {
            None => None,
            Some(qa) => {
                match B::spec_try_parse(qa.0) {
                    None => None,
                    Some(qb) => {
                        match C::spec_try_parse(qb.0) {
                            None => None,
                            Some(qc) => {
                                match D::spec_try_parse(qc.0) {
                                    None => None,
                                    Some(qd) => {
                                        Some((qd.0, (qa.1, qb.1, qc.1, qd.1)))
                                    },
                                }
                            },
                        }
                    },
                }
            },
        }
    }

    proof fn lemma_no_rewind(s: Seq<char>) {
        A::lemma_no_rewind(s);
        if let Some(qa) = A::spec_try_parse(s) {
            B::lemma_no_rewind(qa.0);
            if let Some(qb) = B::spec_try_parse(qa.0) {
                lemma_suffix_trans(qb.0, qa.0, s);
                C::lemma_no_rewind(qb.0);
                if let Some(qc) = C::spec_try_parse(qb.0) {
                    lemma_suffix_trans(qc.0, qb.0, s);
                    D::lemma_no_rewind(qc.0);
                    if let Some(qd) = D::spec_try_parse(qc.0) {
                        lemma_suffix_trans(qd.0, qc.0, s);
                    }
                }
            }
        }
    }

    fn try_parse(input: T) -> (r: Option<(T, (A, B, C, D))>) {
        match A::try_parse(input) {
            None => None,
            Some((input, a)) => {
                match B::try_parse(input) {
                    None => None,
                    Some((input, b)) => {
                        match C::try_parse(input) {
                            None => None,
                            Some((input, c)) => {
                                match D::try_parse(input) {
                                    None => None,
                                    Some((input, d)) => {
                                        Some((input, (a, b, c, d)))
                                    },
                                }
                            },
                        }
                    },
                }
            },
        }
    }
}

impl<A: Parse<T>, B: Parse<T>, C: Parse<T>, D: Parse<T>, E: Parse<T>, T: Input> Parse<T> for (A, B, C, D, E) {
    open spec fn spec_parse(s: Seq<char>) -> (Seq<char>, (A::V, B::V, C::V, D::V, E::V)) {
        let qa = A::spec_parse(s);
        let qb = B::spec_parse(qa.0);
        let qc = C::spec_parse(qb.0);
        let qd = D::spec_parse(qc.0);
        let qe = E::spec_parse(qd.0);
        (qe.0, (qa.1, qb.1, qc.1, qd.1, qe.1))
    }

    proof fn lemma_infallible(s: Seq<char>) {
        let s0 = s;
        A::lemma_infallible(s0);
        let s1 = A::spec_parse(s0).0;
        B::lemma_infallible(s1);
        let s2 = B::spec_parse(s1).0;
        C::lemma_infallible(s2);
        let s3 = C::spec_parse(s2).0;
        D::lemma_infallible(s3);
        let s4 = D::spec_parse(s3).0;
        E::lemma_infallible(s4);
    }

    fn parse(input: T) -> (r: (T, (A, B, C, D, E))) {
        let (input, a) = A::parse(input);
        let (input, b) = B::parse(input);
        let (input, c) = C::parse(input);
        let (input, d) = D::parse(input);
        let (input, e) = E::parse(input);
        (input, (a, b, c, d, e))
    }
}

impl<A: TryParse<T>, B: TryParse<T>, C: TryParse<T>, D: TryParse<T>, E: TryParse<T>, T: Input> TryParse<T> for (A, B, C, D, E) {
    open spec fn spec_try_parse(s: Seq<char>) -> Option<(Seq<char>, (A::V, B::V, C::V, D::V, E::V))> {
        match A::spec_try_parse(s) {
            None => None,
            Some(qa) => {
                match B::spec_try_parse(qa.0) {
                    None => None,
                    Some(qb) => {
                        match C::spec_try_parse(qb.0) {
                            None => None,
                            Some(qc) => {
                                match D::spec_try_parse(qc.0) {
                                    None => None,
                                    Some(qd) => {
                                        match E::spec_try_parse(qd.0) {
                                            None => None,
                                            Some(qe) => {
                                                Some((qe.0, (qa.1, qb.1, qc.1, qd.1, qe.1)))
                                            },
                                        }
                                    },
                                }
                            },
                        }
                    },
                }
            },
        }
    }

    proof fn lemma_no_rewind(s: Seq<char>) {
        A::lemma_no_rewind(s);
        if let Some(qa) = A::spec_try_parse(s) {
            B::lemma_no_rewind(qa.0);
            if let Some(qb) = B::spec_try_parse(qa.0) {
                lemma_suffix_trans(qb.0, qa.0, s);
                C::lemma_no_rewind(qb.0);
                if let Some(qc) = C::spec_try_parse(qb.0) {
                    lemma_suffix_trans(qc.0, qb.0, s);
                    D::lemma_no_rewind(qc.0);
                    if let Some(qd) = D::spec_try_parse(qc.0) {
                        lemma_suffix_trans(qd.0, qc.0, s);
                        E::lemma_no_rewind(qd.0);
                        if let Some(qe) = E::spec_try_parse(qd.0) {
                            lemma_suffix_trans(qe.0, qd.0, s);
                        }
                    }
                }
            }
        }
    }

    fn try_parse(input: T) -> (r: Option<(T, (A, B, C, D, E))>) {
        match A::try_parse(input) {
            None => None,
            Some((input, a)) => {
                match B::try_parse(input) {
                    None => None,
                    Some((input, b)) => {
                        match C::try_parse(input) {
                            None => None,
                            Some((input, c)) => {
                                match D::try_parse(input) {
                                    None => None,
                                    Some((input, d)) => {
                                        match E::try_parse(input) {
                                            None => None,
                                            Some((input, e)) => {
                                                Some((input, (a, b, c, d, e)))
                                            },
                                        }
                                    },
                                }
                            },
                        }
                    },
                }
            },
        }
    }
}

impl<A: Parse<T>, B: Parse<T>, C: Parse<T>, D: Parse<T>, E: Parse<T>, F: Parse<T>, T: Input> Parse<T> for (A, B, C, D, E, F) {
    open spec fn spec_parse(s: Seq<char>) -> (Seq<char>, (A::V, B::V, C::V, D::V, E::V, F::V)) {
        let qa = A::spec_parse(s);
        let qb = B::spec_parse(qa.0);
        let qc = C::spec_parse(qb.0);
        let qd = D::spec_parse(qc.0);
        let qe = E::spec_parse(qd.0);
        let qf = F::spec_parse(qe.0);
        (qf.0, (qa.1, qb.1, qc.1, qd.1, qe.1, qf.1))
    }

    proof fn lemma_infallible(s: Seq<char>) {
        let s0 = s;
        A::lemma_infallible(s0);
        let s1 = A::spec_parse(s0).0;
        B::lemma_infallible(s1);
        let s2 = B::spec_parse(s1).0;
        C::lemma_infallible(s2);
        let s3 = C::spec_parse(s2).0;
        D::lemma_infallible(s3);
        let s4 = D::spec_parse(s3).0;
        E::lemma_infallible(s4);
        let s5 = E::spec_parse(s4).0;
        F::lemma_infallible(s5);
    }

    fn parse(input: T) -> (r: (T, (A, B, C, D, E, F))) {
        let (input, a) = A::parse(input);
        let (input, b) = B::parse(input);
        let (input, c) = C::parse(input);
        let (input, d) = D::parse(input);
        let (input, e) = E::parse(input);
        let (input, f) = F::parse(input);
        (input, (a, b, c, d, e, f))
    }
}

impl<A: TryParse<T>, B: TryParse<T>, C: TryParse<T>, D: TryParse<T>, E: TryParse<T>, F: TryParse<T>, T: Input> TryParse<T> for (A, B, C, D, E, F) {
    open spec fn spec_try_parse(s: Seq<char>) -> Option<(Seq<char>, (A::V, B::V, C::V, D::V, E::V, F::V))> {
        match A::spec_try_parse(s) {
            None => None,
            Some(qa) => {
                match B::spec_try_parse(qa.0) {
                    None => None,
                    Some(qb) => {
                        match C::spec_try_parse(qb.0) {
                            None => None,
                            Some(qc) => {
                                match D::spec_try_parse(qc.0) {
                                    None => None,
                                    Some(qd) => {
                                        match E::spec_try_parse(qd.0) {
                                            None => None,
                                            Some(qe) => {
                                                match F::spec_try_parse(qe.0) {
                                                    None => None,
                                                    Some(qf) => {
                                                        Some((qf.0, (qa.1, qb.1, qc.1, qd.1, qe.1, qf.1)))
                                                    },
                                                }
                                            },
                                        }
                                    },
                                }
                            },
                        }
                    },
                }
            },
        }
    }

    proof fn lemma_no_rewind(s: Seq<char>) {
        A::lemma_no_rewind(s);
        if let Some(qa) = A::spec_try_parse(s) {
            B::lemma_no_rewind(qa.0);
            if let Some(qb) = B::spec_try_parse(qa.0) {
                lemma_suffix_trans(qb.0, qa.0, s);
                C::lemma_no_rewind(qb.0);
                if let Some(qc) = C::spec_try_parse(qb.0) {
                    lemma_suffix_trans(qc.0, qb.0, s);
                    D::lemma_no_rewind(qc.0);
                    if let Some(qd) = D::spec_try_parse(qc.0) {
                        lemma_suffix_trans(qd.0, qc.0, s);
                        E::lemma_no_rewind(qd.0);
                        if let Some(qe) = E::spec_try_parse(qd.0) {
                            lemma_suffix_trans(qe.0, qd.0, s);
                            F::lemma_no_rewind(qe.0);
                            if let Some(qf) = F::spec_try_parse(qe.0) {
                                lemma_suffix_trans(qf.0, qe.0, s);
                            }
                        }
                    }
                }
            }
        }
    }

    fn try_parse(input: T) -> (r: Option<(T, (A, B, C, D, E, F))>) {
        match A::try_parse(input) {
            None => None,
            Some((input, a)) => {
                match B::try_parse(input) {
                    None => None,
                    Some((input, b)) => {
                        match C::try_parse(input) {
                            None => None,
                            Some((input, c)) => {
                                match D::try_parse(input) {
                                    None => None,
                                    Some((input, d)) => {
                                        match E::try_parse(input) {
                                            None => None,
                                            Some((input, e)) => {
                                                match F::try_parse(input) {
                                                    None => None,
                                                    Some((input, f)) => {
                                                        Some((input, (a, b, c, d, e, f)))
                                                    },
                                                }
                                            },
                                        }
                                    },
                                }
                            },
                        }
                    },
                }
            },
        }
    }
}

impl<A: Parse<T>, B: Parse<T>, C: Parse<T>, D: Parse<T>, E: Parse<T>, F: Parse<T>, G: Parse<T>, T: Input> Parse<T> for (A, B, C, D, E, F, G) {
    open spec fn spec_parse(s: Seq<char>) -> (Seq<char>, (A::V, B::V, C::V, D::V, E::V, F::V, G::V)) {
        let qa = A::spec_parse(s);
        let qb = B::spec_parse(qa.0);
        let qc = C::spec_parse(qb.0);
        let qd = D::spec_parse(qc.0);
        let qe = E::spec_parse(qd.0);
        let qf = F::spec_parse(qe.0);
        let qg = G::spec_parse(qf.0);
        (qg.0, (qa.1, qb.1, qc.1, qd.1, qe.1, qf.1, qg.1))
    }

    proof fn lemma_infallible(s: Seq<char>) {
        let s0 = s;
        A::lemma_infallible(s0);
        let s1 = A::spec_parse(s0).0;
        B::lemma_infallible(s1);
        let s2 = B::spec_parse(s1).0;
        C::lemma_infallible(s2);
        let s3 = C::spec_parse(s2).0;
        D::lemma_infallible(s3);
        let s4 = D::spec_parse(s3).0;
        E::lemma_infallible(s4);
        let s5 = E::spec_parse(s4).0;
        F::lemma_infallible(s5);
        let s6 = F::spec_parse(s5).0;
        G::lemma_infallible(s6);
    }

    fn parse(input: T) -> (r: (T, (A, B, C, D, E, F, G))) {
        let (input, a) = A::parse(input);
        let (input, b) = B::parse(input);
        let (input, c) = C::parse(input);
        let (input, d) = D::parse(input);
        let (input, e) = E::parse(input);
        let (input, f) = F::parse(input);
        let (input, g) = G::parse(input);
        (input, (a, b, c, d, e, f, g))
    }
}

impl<A: TryParse<T>, B: TryParse<T>, C: TryParse<T>, D: TryParse<T>, E: TryParse<T>, F: TryParse<T>, G: TryParse<T>, T: Input> TryParse<T> for (A, B, C, D, E, F, G) {
    open spec fn spec_try_parse(s: Seq<char>) -> Option<(Seq<char>, (A::V, B::V, C::V, D::V, E::V, F::V, G::V))> {
        match A::spec_try_parse(s) {
            None => None,
            Some(qa) => {
                match B::spec_try_parse(qa.0) {
                    None => None,
                    Some(qb) => {
                        match C::spec_try_parse(qb.0) {
                            None => None,
                            Some(qc) => {
                                match D::spec_try_parse(qc.0) {
                                    None => None,
                                    Some(qd) => {
                                        match E::spec_try_parse(qd.0) {
                                            None => None,
                                            Some(qe) => {
                                                match F::spec_try_parse(qe.0) {
                                                    None => None,
                                                    Some(qf) => {
                                                        match G::spec_try_parse(qf.0) {
                                                            None => None,
                                                            Some(qg) => {
                                                                Some((qg.0, (qa.1, qb.1, qc.1, qd.1, qe.1, qf.1, qg.1)))
                                                            },
                                                        }
                                                    },
                                                }
                                            },
                                        }
                                    },
                                }
                            },
                        }
                    },
                }
            },
        }
    }

    proof fn lemma_no_rewind(s: Seq<char>) {
        A::lemma_no_rewind(s);
        if let Some(qa) = A::spec_try_parse(s) {
            B::lemma_no_rewind(qa.0);
            if let Some(qb) = B::spec_try_parse(qa.0) {
                lemma_suffix_trans(qb.0, qa.0, s);
                C::lemma_no_rewind(qb.0);
                if let Some(qc) = C::spec_try_parse(qb.0) {
                    lemma_suffix_trans(qc.0, qb.0, s);
                    D::lemma_no_rewind(qc.0);
                    if let Some(qd) = D::spec_try_parse(qc.0) {
                        lemma_suffix_trans(qd.0, qc.0, s);
                        E::lemma_no_rewind(qd.0);
                        if let Some(qe) = E::spec_try_parse(qd.0) {
                            lemma_suffix_trans(qe.0, qd.0, s);
                            F::lemma_no_rewind(qe.0);
                            if let Some(qf) = F::spec_try_parse(qe.0) {
                                lemma_suffix_trans(qf.0, qe.0, s);
                                G::lemma_no_rewind(qf.0);
                                if let Some(qg) = G::spec_try_parse(qf.0) {
                                    lemma_suffix_trans(qg.0, qf.0, s);
                                }
                            }
                        }
                    }
                }
            }
        }
    }

    fn try_parse(input: T) -> (r: Option<(T, (A, B, C, D, E, F, G))>) {
        match A::try_parse(input) {
            None => None,
            Some((input, a)) => {
                match B::try_parse(input) {
                    None => None,
                    Some((input, b)) => {
                        match C::try_parse(input) {
                            None => None,
                            Some((input, c)) => {
                                match D::try_parse(input) {
                                    None => None,
                                    Some((input, d)) => {
                                        match E::try_parse(input) {
                                            None => None,
                                            Some((input, e)) => {
                                                match F::try_parse(input) {
                                                    None => None,
                                                    Some((input, f)) => {
                                                        match G::try_parse(input) {
                                                            None => None,
                                                            Some((input, g)) => {
                                                                Some((input, (a, b, c, d, e, f, g)))
                                                            },
                                                        }
                                                    },
                                                }
                                            },
                                        }
                                    },
                                }
                            },
                        }
                    },
                }
            },
        }
    }
}

impl<A: Parse<T>, B: Parse<T>, C: Parse<T>, D: Parse<T>, E: Parse<T>, F: Parse<T>, G: Parse<T>, H: Parse<T>, T: Input> Parse<T> for (A, B, C, D, E, F, G, H) {
    open spec fn spec_parse(s: Seq<char>) -> (Seq<char>, (A::V, B::V, C::V, D::V, E::V, F::V, G::V, H::V)) {
        let qa = A::spec_parse(s);
        let qb = B::spec_parse(qa.0);
        let qc = C::spec_parse(qb.0);
        let qd = D::spec_parse(qc.0);
        let qe = E::spec_parse(qd.0);
        let qf = F::spec_parse(qe.0);
        let qg = G::spec_parse(qf.0);
        let qh = H::spec_parse(qg.0);
        (qh.0, (qa.1, qb.1, qc.1, qd.1, qe.1, qf.1, qg.1, qh.1))
    }

    proof fn lemma_infallible(s: Seq<char>) {
        let s0 = s;
        A::lemma_infallible(s0);
        let s1 = A::spec_parse(s0).0;
        B::lemma_infallible(s1);
        let s2 = B::spec_parse(s1).0;
        C::lemma_infallible(s2);
        let s3 = C::spec_parse(s2).0;
        D::lemma_infallible(s3);
        let s4 = D::spec_parse(s3).0;
        E::lemma_infallible(s4);
        let s5 = E::spec_parse(s4).0;
        F::lemma_infallible(s5);
        let s6 = F::spec_parse(s5).0;
        G::lemma_infallible(s6);
        let s7 = G::spec_parse(s6).0;
        H::lemma_infallible(s7);
    }

    fn parse(input: T) -> (r: (T, (A, B, C, D, E, F, G, H))) {
        let (input, a) = A::parse(input);
        let (input, b) = B::parse(input);
        let (input, c) = C::parse(input);
        let (input, d) = D::parse(input);
        let (input, e) = E::parse(input);
        let (input, f) = F::parse(input);
        let (input, g) = G::parse(input);
        let (input, h) = H::parse(input);
        (input, (a, b, c, d, e, f, g, h))
    }
}

impl<A: TryParse<T>, B: TryParse<T>, C: TryParse<T>, D: TryParse<T>, E: TryParse<T>, F: TryParse<T>, G: TryParse<T>, H: TryParse<T>, T: Input> TryParse<T> for (A, B, C, D, E, F, G, H) {
    open spec fn spec_try_parse(s: Seq<char>) -> Option<(Seq<char>, (A::V, B::V, C::V, D::V, E::V, F::V, G::V, H::V))> {
        match A::spec_try_parse(s) {
            None => None,
            Some(qa) => {
                match B::spec_try_parse(qa.0) {
                    None => None,
                    Some(qb) => {
                        match C::spec_try_parse(qb.0) {
                            None => None,
                            Some(qc) => {
                                match D::spec_try_parse(qc.0) {
                                    None => None,
                                    Some(qd) => {
                                        match E::spec_try_parse(qd.0) {
                                            None => None,
                                            Some(qe) => {
                                                match F::spec_try_parse(qe.0) {
                                                    None => None,
                                                    Some(qf) => {
                                                        match G::spec_try_parse(qf.0) {
                                                            None => None,
                                                            Some(qg) => {
                                                                match H::spec_try_parse(qg.0) {
                                                                    None => None,
                                                                    Some(qh) => {
                                                                        Some((qh.0, (qa.1, qb.1, qc.1, qd.1, qe.1, qf.1, qg.1, qh.1)))
                                                                    },
                                                                }
                                                            },
                                                        }
                                                    },
                                                }
                                            },
                                        }
                                    },
                                }
                            },
                        }
                    },
                }
            },
        }
    }

    proof fn lemma_no_rewind(s: Seq<char>) {
        A::lemma_no_rewind(s);
        if let Some(qa) = A::spec_try_parse(s) {
            B::lemma_no_rewind(qa.0);
            if let Some(qb) = B::spec_try_parse(qa.0) {
                lemma_suffix_trans(qb.0, qa.0, s);
                C::lemma_no_rewind(qb.0);
                if let Some(qc) = C::spec_try_parse(qb.0) {
                    lemma_suffix_trans(qc.0, qb.0, s);
                    D::lemma_no_rewind(qc.0);
                    if let Some(qd) = D::spec_try_parse(qc.0) {
                        lemma_suffix_trans(qd.0, qc.0, s);
                        E::lemma_no_rewind(qd.0);
                        if let Some(qe) = E::spec_try_parse(qd.0) {
                            lemma_suffix_trans(qe.0, qd.0, s);
                            F::lemma_no_rewind(qe.0);
                            if let Some(qf) = F::spec_try_parse(qe.0) {
                                lemma_suffix_trans(qf.0, qe.0, s);
                                G::lemma_no_rewind(qf.0);
                                if let Some(qg) = G::spec_try_parse(qf.0) {
                                    lemma_suffix_trans(qg.0, qf.0, s);
                                    H::lemma_no_rewind(qg.0);
                                    if let Some(qh) = H::spec_try_parse(qg.0) {
                                        lemma_suffix_trans(qh.0, qg.0, s);
                                    }
                                }
                            }
                        }
                    }
                }
            }
        }
    }

    fn try_parse(input: T) -> (r: Option<(T, (A, B, C, D, E, F, G, H))>) {
        match A::try_parse(input) {
            None => None,
            Some((input, a)) => {
                match B::try_parse(input) {
                    None => None,
                    Some((input, b)) => {
                        match C::try_parse(input) {
                            None => None,
                            Some((input, c)) => {
                                match D::try_parse(input) {
                                    None => None,
                                    Some((input, d)) => {
                                        match E::try_parse(input) {
                                            None => None,
                                            Some((input, e)) => {
                                                match F::try_parse(input) {
                                                    None => None,
                                                    Some((input, f)) => {
                                                        match G::try_parse(input) {
                                                            None => None,
                                                            Some((input, g)) => {
                                                                match H::try_parse(input) {
                                                                    None => None,
                                                                    Some((input, h)) => {
                                                                        Some((input, (a, b, c, d, e, f, g, h)))
                                                                    },
                                                                }
                                                            },
                                                        }
                                                    },
                                                }
                                            },
                                        }
                                    },
                                }
                            },
                        }
                    },
                }
            },
        }
    }
}

} // verus!
