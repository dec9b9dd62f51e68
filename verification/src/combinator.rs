//! A first-class representation of combinator pipelines: the expression tree
//! a derived parser is built from, and a verified interpreter for it, in both
//! the fallible and the total form.
//!
//! Repetition values are held as right-nested `Pair` chains ending in
//! `Empty`, the same chains sequencing produces, so a pipeline's value domain
//! is one recursive type.

use vstd::prelude::*;
use crate::input::Input;
use crate::parser::{lemma_suffix_refl, lemma_suffix_trans, suffix_of};

verus! {

/// A combinator pipeline over character input.
#[derive(Debug, PartialEq, Eq)]
pub enum Combinator {
    /// Match exactly this character.
    Lit(char),
    /// Match any one character.
    Any,
    /// Always succeed, consuming nothing.
    Empty,
    /// Sequence: the first, then the second from where the first stopped.
    Pair(Box<Combinator>, Box<Combinator>),
    /// Ordered alternation: the first, or else the second from the same spot.
    Alt(Box<Combinator>, Box<Combinator>),
    /// Try once; on a miss succeed with an absent value, consuming nothing.
    Opt(Box<Combinator>),
    /// Zero or more consuming hits.
    Star(Box<Combinator>),
    /// One or more consuming hits.
    Plus(Box<Combinator>),
    /// Negative lookahead: succeed, consuming nothing, iff the inner misses.
    Not(Box<Combinator>),
}

/// What a pipeline produces.
#[derive(Debug, PartialEq, Eq)]
pub enum Value {
    /// A matched character.
    Char(char),
    /// The no-value marker: an empty sequence, a lookahead, an end of chain.
    Empty,
    /// A sequencing step: one value, then the chain of the rest.
    Pair(Box<Value>, Box<Value>),
    /// The first alternative matched.
    Left(Box<Value>),
    /// The second alternative matched.
    Right(Box<Value>),
    /// An optional that missed.
    Absent,
    /// An optional that hit.
    Present(Box<Value>),
    /// A sum variant, by position, with the chain of its field values.
    Tagged(usize, Box<Value>),
}

/// Why a total parse failed.
#[derive(Clone, Copy, Debug, PartialEq, Eq)]
pub enum ParseError {
    /// Expected one character, found another.
    Mismatch { expected: char, found: char },
    /// Input exhausted while one fixed character was expected.
    Exhausted { expected: char },
    /// Input exhausted where any character would have done.
    EndOfInput,
    /// A negative lookahead found what it asserts absent.
    Unexpected,
    /// A one-or-more repetition collected nothing: its element parser can
    /// match here only without consuming.
    Unproductive,
}

/// The meaning of a pipeline at `s`: `None` for a miss, otherwise the
/// remaining input and the value produced.
pub open spec fn spec_run(c: Combinator, s: Seq<char>) -> Option<(Seq<char>, Value)>
    decreases c, s.len(), 0int,
{
    match c {
        Combinator::Lit(ch) => if s.len() > 0 && s[0] == ch {
            Some((s.skip(1), Value::Char(ch)))
        } else {
            None
        },
        Combinator::Any => if s.len() > 0 {
            Some((s.skip(1), Value::Char(s[0])))
        } else {
            None
        },
        Combinator::Empty => Some((s, Value::Empty)),
        Combinator::Pair(a, b) => match spec_run(*a, s) {
            None => None,
            Some(qa) => match spec_run(*b, qa.0) {
                None => None,
                Some(qb) => Some((qb.0, Value::Pair(Box::new(qa.1), Box::new(qb.1)))),
            },
        },
        Combinator::Alt(a, b) => match spec_run(*a, s) {
            Some(qa) => Some((qa.0, Value::Left(Box::new(qa.1)))),
            None => match spec_run(*b, s) {
                Some(qb) => Some((qb.0, Value::Right(Box::new(qb.1)))),
                None => None,
            },
        },
        Combinator::Opt(a) => match spec_run(*a, s) {
            Some(qa) => Some((qa.0, Value::Present(Box::new(qa.1)))),
            None => Some((s, Value::Absent)),
        },
        Combinator::Star(a) => {
            let st = spec_run_star(*a, s);
            Some((st.0, spec_chain(st.1)))
        },
        Combinator::Plus(a) => {
            let st = spec_run_star(*a, s);
            if st.1.len() >= 1 {
                Some((st.0, spec_chain(st.1)))
            } else {
                None
            }
        },
        Combinator::Not(a) => match spec_run(*a, s) {
            None => Some((s, Value::Empty)),
            Some(_) => None,
        },
    }
}

/// Repetition at `s`: the item values collected while each hit consumes at
/// least one character, and where the last consuming hit stopped. A miss or a
/// non-consuming hit ends the repetition.
pub open spec fn spec_run_star(c: Combinator, s: Seq<char>) -> (Seq<char>, Seq<Value>)
    decreases c, s.len(), 1int,
{
    match spec_run(c, s) {
        None => (s, Seq::empty()),
        Some(q) => if q.0.len() < s.len() {
            let r = spec_run_star(c, q.0);
            (r.0, seq![q.1] + r.1)
        } else {
            (s, Seq::empty())
        },
    }
}

/// A sequence of values as a right-nested `Pair` chain ending in `Empty`.
pub open spec fn spec_chain(vs: Seq<Value>) -> Value
    decreases vs.len(),
{
    if vs.len() == 0 {
        Value::Empty
    } else {
        Value::Pair(Box::new(vs[0]), Box::new(spec_chain(vs.drop_first())))
    }
}

/// The error a total parse reports where the pipeline misses at `s`; it is
/// meaningful only there — combinators that cannot miss never surface it.
/// Sequencing reports the first failing component's error unchanged;
/// alternation reports the second arm's, the arm with no fallback left.
pub open spec fn spec_run_err(c: Combinator, s: Seq<char>) -> ParseError
    decreases c, s.len(),
{
    match c {
        Combinator::Lit(ch) => if s.len() == 0 {
            ParseError::Exhausted { expected: ch }
        } else {
            ParseError::Mismatch { expected: ch, found: s[0] }
        },
        Combinator::Any => ParseError::EndOfInput,
        Combinator::Empty => ParseError::EndOfInput,
        Combinator::Pair(a, b) => match spec_run(*a, s) {
            None => spec_run_err(*a, s),
            Some(qa) => spec_run_err(*b, qa.0),
        },
        Combinator::Alt(a, b) => spec_run_err(*b, s),
        Combinator::Opt(a) => ParseError::EndOfInput,
        Combinator::Star(a) => ParseError::EndOfInput,
        Combinator::Plus(a) => match spec_run(*a, s) {
            None => spec_run_err(*a, s),
            Some(_) => ParseError::Unproductive,
        },
        Combinator::Not(a) => ParseError::Unexpected,
    }
}

/// A pipeline only ever consumes: what remains after a hit is a suffix of
/// what it was run on, never a rewind.
pub proof fn lemma_run_no_rewind(c: Combinator, s: Seq<char>)
    ensures
        spec_run(c, s) matches Some(q) ==> suffix_of(q.0, s),
    decreases c, s.len(), 0int,
{
    lemma_suffix_refl(s);
    if s.len() > 0 {
        assert(s.skip(1) =~= s.skip(s.len() - s.skip(1).len()));
    }
    match c {
        Combinator::Pair(a, b) => {
            lemma_run_no_rewind(*a, s);
            if let Some(qa) = spec_run(*a, s) {
                lemma_run_no_rewind(*b, qa.0);
                if let Some(qb) = spec_run(*b, qa.0) {
                    lemma_suffix_trans(qb.0, qa.0, s);
                }
            }
        },
        Combinator::Alt(a, b) => {
            lemma_run_no_rewind(*a, s);
            lemma_run_no_rewind(*b, s);
        },
        Combinator::Opt(a) => {
            lemma_run_no_rewind(*a, s);
        },
        Combinator::Star(a) => {
            lemma_run_star_no_rewind(*a, s);
        },
        Combinator::Plus(a) => {
            lemma_run_star_no_rewind(*a, s);
        },
        _ => {
        },
    }
}

/// Repetition of a pipeline only ever consumes.
pub proof fn lemma_run_star_no_rewind(c: Combinator, s: Seq<char>)
    ensures
        suffix_of(spec_run_star(c, s).0, s),
    decreases c, s.len(), 1int,
{
    lemma_suffix_refl(s);
    lemma_run_no_rewind(c, s);
    if let Some(q) = spec_run(c, s) {
        if q.0.len() < s.len() {
            lemma_run_star_no_rewind(c, q.0);
            lemma_suffix_trans(spec_run_star(c, q.0).0, q.0, s);
        }
    }
}

/// Fold a collected vector of item values into the chain the value domain
/// holds them as.
pub fn build_chain(items: Vec<Value>) -> (r: Value)
    ensures
        r == spec_chain(items@),
{
    let mut items = items;
    let mut chain = Value::Empty;
    let ghost orig = items@;
    let ghost mut k: int = orig.len() as int;
    proof {
        assert(items@ =~= orig.take(k));
        assert(orig.skip(k) =~= Seq::<Value>::empty());
    }
    #[verifier::loop_isolation(false)]
    while items.len() > 0
        invariant
            0 <= k <= orig.len(),
            items@ == orig.take(k),
            chain == spec_chain(orig.skip(k)),
        decreases items@.len(),
    {
        let v = items.pop().unwrap();
        proof {
            k = k - 1;
            assert(items@ =~= orig.take(k));
            assert(v == orig[k]);
        }
        chain = Value::Pair(Box::new(v), Box::new(chain));
        proof {
            assert(orig.skip(k)[0] == orig[k]);
            assert(orig.skip(k).drop_first() =~= orig.skip(k + 1));
        }
    }
    proof {
        assert(orig.skip(0) =~= orig);
    }
    chain
}

/// Run a repetition: attempt the pipeline from the current position while
/// each hit consumes at least one character; collect the hits in order.
pub fn run_star<T: Input>(c: &Combinator, input: T) -> (r: (T, Vec<Value>))
    ensures
        r.0.rem() == spec_run_star(*c, input.rem()).0,
        r.1@ == spec_run_star(*c, input.rem()).1,
    decreases *c, 1int,
{
    let ghost orig = input.rem();
    let mut cur = input;
    let mut out: Vec<Value> = Vec::new();
    proof {
        assert(out@ =~= Seq::<Value>::empty());
        assert(spec_run_star(*c, orig).1 =~= out@ + spec_run_star(*c, cur.rem()).1);
    }
    #[verifier::loop_isolation(false)]
    loop
        invariant
            spec_run_star(*c, orig).0 == spec_run_star(*c, cur.rem()).0,
            spec_run_star(*c, orig).1 == out@ + spec_run_star(*c, cur.rem()).1,
        decreases cur.rem().len(),
    {
        let len_before = cur.rem_len();
        let snapshot = cur.dup();
        match try_run(c, snapshot) {
            Some(p) => {
                let (next, value) = p;
                if next.rem_len() < len_before {
                    let ghost out_prev = out@;
                    let ghost mid = cur.rem();
                    out.push(value);
                    proof {
                        assert(spec_run_star(*c, mid).1 =~= seq![value] + spec_run_star(
                            *c,
                            next.rem(),
                        ).1);
                        assert(out_prev + spec_run_star(*c, mid).1 =~= out@ + spec_run_star(
                            *c,
                            next.rem(),
                        ).1);
                    }
                    cur = next;
                } else {
                    proof {
                        assert(spec_run_star(*c, cur.rem()).1 =~= Seq::<Value>::empty());
                        assert(out@ + spec_run_star(*c, cur.rem()).1 =~= out@);
                    }
                    return (cur, out);
                }
            },
            None => {
                proof {
                    assert(spec_run_star(*c, cur.rem()).1 =~= Seq::<Value>::empty());
                    assert(out@ + spec_run_star(*c, cur.rem()).1 =~= out@);
                }
                return (cur, out);
            },
        }
    }
}

/// Attempt a pipeline at the cursor's position; the outcome is exactly
/// `spec_run` of the remaining input the cursor was handed.
pub fn try_run<T: Input>(c: &Combinator, input: T) -> (r: Option<(T, Value)>)
    ensures
        match r {
            Some(p) => spec_run(*c, input.rem()) matches Some(q) && p.0.rem() == q.0 && p.1
                == q.1,
            None => spec_run(*c, input.rem()) is None,
        },
    decreases *c, 0int,
{
    match c {
        Combinator::Lit(ch) => {
            let mut input = input;
            match input.next() {
                Some(found) => if found == *ch {
                    Some((input, Value::Char(found)))
                } else {
                    None
                },
                None => None,
            }
        },
        Combinator::Any => {
            let mut input = input;
            match input.next() {
                Some(found) => Some((input, Value::Char(found))),
                None => None,
            }
        },
        Combinator::Empty => Some((input, Value::Empty)),
        Combinator::Pair(a, b) => match try_run(&**a, input) {
            None => None,
            Some((mid, va)) => match try_run(&**b, mid) {
                None => None,
                Some((end, vb)) => Some((end, Value::Pair(Box::new(va), Box::new(vb)))),
            },
        },
        Combinator::Alt(a, b) => {
            let snapshot = input.dup();
            match try_run(&**a, snapshot) {
                Some((end, va)) => Some((end, Value::Left(Box::new(va)))),
                None => match try_run(&**b, input) {
                    Some((end, vb)) => Some((end, Value::Right(Box::new(vb)))),
                    None => None,
                },
            }
        },
        Combinator::Opt(a) => {
            let snapshot = input.dup();
            match try_run(&**a, snapshot) {
                Some((end, va)) => Some((end, Value::Present(Box::new(va)))),
                None => Some((input, Value::Absent)),
            }
        },
        Combinator::Star(a) => {
            let (end, items) = run_star(&**a, input);
            Some((end, build_chain(items)))
        },
        Combinator::Plus(a) => {
            let (end, items) = run_star(&**a, input);
            if items.len() >= 1 {
                Some((end, build_chain(items)))
            } else {
                None
            }
        },
        Combinator::Not(a) => {
            let snapshot = input.dup();
            match try_run(&**a, snapshot) {
                None => Some((input, Value::Empty)),
                Some(_) => None,
            }
        },
    }
}

/// Parse totally: every position yields a value or a structured error saying
/// why the required match failed, exactly as `spec_run` and `spec_run_err`
/// give them.
pub fn run<T: Input>(c: &Combinator, input: T) -> (r: Result<(T, Value), ParseError>)
    ensures
        match r {
            Ok(p) => spec_run(*c, input.rem()) matches Some(q) && p.0.rem() == q.0 && p.1 == q.1,
            Err(e) => spec_run(*c, input.rem()) is None && e == spec_run_err(*c, input.rem()),
        },
    decreases *c, 2int,
{
    match c {
        Combinator::Lit(ch) => {
            let mut input = input;
            match input.next() {
                Some(found) => if found == *ch {
                    Ok((input, Value::Char(found)))
                } else {
                    Err(ParseError::Mismatch { expected: *ch, found })
                },
                None => Err(ParseError::Exhausted { expected: *ch }),
            }
        },
        Combinator::Any => {
            let mut input = input;
            match input.next() {
                Some(found) => Ok((input, Value::Char(found))),
                None => Err(ParseError::EndOfInput),
            }
        },
        Combinator::Empty => Ok((input, Value::Empty)),
        Combinator::Pair(a, b) => match run(&**a, input) {
            Err(e) => Err(e),
            Ok((mid, va)) => match run(&**b, mid) {
                Err(e) => Err(e),
                Ok((end, vb)) => Ok((end, Value::Pair(Box::new(va), Box::new(vb)))),
            },
        },
        Combinator::Alt(a, b) => {
            let snapshot = input.dup();
            match try_run(&**a, snapshot) {
                Some((end, va)) => Ok((end, Value::Left(Box::new(va)))),
                None => match run(&**b, input) {
                    Ok((end, vb)) => Ok((end, Value::Right(Box::new(vb)))),
                    Err(e) => Err(e),
                },
            }
        },
        Combinator::Opt(a) => {
            let snapshot = input.dup();
            match try_run(&**a, snapshot) {
                Some((end, va)) => Ok((end, Value::Present(Box::new(va)))),
                None => Ok((input, Value::Absent)),
            }
        },
        Combinator::Star(a) => {
            let (end, items) = run_star(&**a, input);
            Ok((end, build_chain(items)))
        },
        Combinator::Plus(a) => {
            let snapshot = input.dup();
            let (end, items) = run_star(&**a, input);
            if items.len() >= 1 {
                Ok((end, build_chain(items)))
            } else {
                match run(&**a, snapshot) {
                    Err(e) => Err(e),
                    Ok(_) => Err(ParseError::Unproductive),
                }
            }
        },
        Combinator::Not(a) => {
            let snapshot = input.dup();
            match try_run(&**a, snapshot) {
                None => Ok((input, Value::Empty)),
                Some(_) => Err(ParseError::Unexpected),
            }
        },
    }
}

} // verus!
