//! Structural schemas and the derivation algorithm: a schema describes a
//! product type (ordered fields) or a sum type (ordered variants, each with
//! its fields), and `derive_parse` compiles it into the combinator pipeline
//! for it — sequencing for products, ordered first-match-wins alternation for
//! sums.
//!
//! The derived sum parser snapshots the cursor before every variant that
//! still has a fallback and restores it on a miss; the last variant runs
//! against the live cursor, there being nothing left to fall back to. The
//! total form reports the last variant's error, the error standing when every
//! alternative has been exhausted. Binding is positional throughout: a
//! variant is identified by its place in the list, never by a name.

use vstd::prelude::*;
use crate::combinator::{
    build_chain, run, spec_chain, spec_run, spec_run_err, try_run, Combinator, ParseError, Value,
};
use crate::input::Input;

verus! {

/// One variant of a sum: its ordered field parsers.
#[derive(Debug, PartialEq, Eq)]
pub struct Variant {
    /// The parsers of the variant's fields, in declaration order.
    pub fields: Vec<Combinator>,
}

/// The declared shape a parser is derived from.
#[derive(Debug, PartialEq, Eq)]
pub enum Schema {
    /// A product type: its ordered field parsers.
    Product(Vec<Combinator>),
    /// A sum type: its ordered variants.
    Sum(Vec<Variant>),
}

/// A sequence of values as a chain hanging off `tail`.
pub open spec fn spec_chain_append(vs: Seq<Value>, tail: Value) -> Value
    decreases vs.len(),
{
    if vs.len() == 0 {
        tail
    } else {
        Value::Pair(Box::new(vs[0]), Box::new(spec_chain_append(vs.drop_first(), tail)))
    }
}

/// A chain hanging off `Empty` is the plain chain of its values.
pub proof fn lemma_chain_append_empty(vs: Seq<Value>)
    ensures
        spec_chain_append(vs, Value::Empty) == spec_chain(vs),
    decreases vs.len(),
{
    if vs.len() > 0 {
        lemma_chain_append_empty(vs.drop_first());
    }
}

/// Moving one value from the tail into the list keeps the chain.
pub proof fn lemma_chain_append_push(vs: Seq<Value>, x: Value, tail: Value)
    ensures
        spec_chain_append(vs.push(x), tail) == spec_chain_append(
            vs,
            Value::Pair(Box::new(x), Box::new(tail)),
        ),
    decreases vs.len(),
{
    if vs.len() == 0 {
        assert(vs.push(x).drop_first() =~= Seq::<Value>::empty());
        assert(vs.push(x)[0] == x);
        assert(spec_chain_append(vs.push(x), tail) == Value::Pair(
            Box::new(x),
            Box::new(spec_chain_append(vs.push(x).drop_first(), tail)),
        ));
    } else {
        assert(vs.push(x).drop_first() =~= vs.drop_first().push(x));
        assert(vs.push(x)[0] == vs[0]);
        lemma_chain_append_push(vs.drop_first(), x, tail);
        assert(spec_chain_append(vs.push(x), tail) == Value::Pair(
            Box::new(vs[0]),
            Box::new(spec_chain_append(vs.drop_first().push(x), tail)),
        ));
    }
}

/// The meaning of a product's field list at `s`: each field in declared
/// order, threading the remaining input; a miss of any field is a miss of the
/// whole, with no partial value. The value is the chain of the field values.
pub open spec fn spec_run_fields(fields: Seq<Combinator>, s: Seq<char>) -> Option<
    (Seq<char>, Value),
>
    decreases fields.len(),
{
    if fields.len() == 0 {
        Some((s, Value::Empty))
    } else {
        match spec_run(fields[0], s) {
            None => None,
            Some(q) => match spec_run_fields(fields.drop_first(), q.0) {
                None => None,
                Some(qr) => Some((qr.0, Value::Pair(Box::new(q.1), Box::new(qr.1)))),
            },
        }
    }
}

/// The error a failing product reports: the first failing field's, unchanged.
pub open spec fn spec_fields_err(fields: Seq<Combinator>, s: Seq<char>) -> ParseError
    decreases fields.len(),
{
    if fields.len() == 0 {
        ParseError::EndOfInput
    } else {
        match spec_run(fields[0], s) {
            None => spec_run_err(fields[0], s),
            Some(q) => spec_fields_err(fields.drop_first(), q.0),
        }
    }
}

/// The meaning of a sum tried from variant `i` on: variant `i`'s fields at
/// `s`; on a miss, the next variant from the same `s`. A hit is tagged with
/// the variant's position.
pub open spec fn spec_run_sum_from(variants: Seq<Variant>, i: int, s: Seq<char>) -> Option<
    (Seq<char>, Value),
>
    decreases variants.len() - i,
{
    if i < 0 || i >= variants.len() {
        None
    } else {
        match spec_run_fields(variants[i].fields@, s) {
            Some(q) => Some((q.0, Value::Tagged(i as usize, Box::new(q.1)))),
            None => spec_run_sum_from(variants, i + 1, s),
        }
    }
}

/// The meaning of a schema's derived parser at `s`.
pub open spec fn spec_run_schema(schema: Schema, s: Seq<char>) -> Option<(Seq<char>, Value)> {
    match schema {
        Schema::Product(fields) => spec_run_fields(fields@, s),
        Schema::Sum(variants) => spec_run_sum_from(variants@, 0, s),
    }
}

/// The error a failing derived parser reports: for a product, the first
/// failing field's; for a sum, the last variant's, the one with no fallback.
/// A sum with no variants reports `Unexpected`, as the pipeline it compiles
/// to does.
pub open spec fn spec_schema_err(schema: Schema, s: Seq<char>) -> ParseError {
    match schema {
        Schema::Product(fields) => spec_fields_err(fields@, s),
        Schema::Sum(variants) => if variants@.len() == 0 {
            ParseError::Unexpected
        } else {
            spec_fields_err(variants@.last().fields@, s)
        },
    }
}

/// What product derivation emits: the fields in declared order as a
/// right-nested sequencing pipeline ending in the empty parser.
pub open spec fn spec_compile_fields(fields: Seq<Combinator>) -> Combinator
    decreases fields.len(),
{
    if fields.len() == 0 {
        Combinator::Empty
    } else {
        Combinator::Pair(
            Box::new(fields[0]),
            Box::new(spec_compile_fields(fields.drop_first())),
        )
    }
}

/// What sum derivation emits: the variants' field pipelines as an ordered
/// alternation chain; the last variant stands alone, never snapshotted. A sum
/// with no variants compiles to a parser that never matches.
pub open spec fn spec_compile_sum(variants: Seq<Variant>) -> Combinator
    decreases variants.len(),
{
    if variants.len() == 0 {
        Combinator::Not(Box::new(Combinator::Empty))
    } else if variants.len() == 1 {
        spec_compile_fields(variants[0].fields@)
    } else {
        Combinator::Alt(
            Box::new(spec_compile_fields(variants[0].fields@)),
            Box::new(spec_compile_sum(variants.drop_first())),
        )
    }
}

/// What derivation emits for a schema.
pub open spec fn spec_compile(schema: Schema) -> Combinator {
    match schema {
        Schema::Product(fields) => spec_compile_fields(fields@),
        Schema::Sum(variants) => spec_compile_sum(variants@),
    }
}

/// Compile a field list into its sequencing pipeline.
fn compile_fields(fields: Vec<Combinator>) -> (r: Combinator)
    ensures
        r == spec_compile_fields(fields@),
{
    let mut fields = fields;
    let mut acc = Combinator::Empty;
    let ghost orig = fields@;
    let ghost mut k: int = orig.len() as int;
    proof {
        assert(fields@ =~= orig.take(k));
        assert(orig.skip(k) =~= Seq::<Combinator>::empty());
    }
    #[verifier::loop_isolation(false)]
    while fields.len() > 0
        invariant
            0 <= k <= orig.len(),
            fields@ == orig.take(k),
            acc == spec_compile_fields(orig.skip(k)),
        decreases fields@.len(),
    {
        let f = fields.pop().unwrap();
        proof {
            k = k - 1;
            assert(fields@ =~= orig.take(k));
            assert(f == orig[k]);
        }
        acc = Combinator::Pair(Box::new(f), Box::new(acc));
        proof {
            assert(orig.skip(k)[0] == orig[k]);
            assert(orig.skip(k).drop_first() =~= orig.skip(k + 1));
        }
    }
    proof {
        assert(orig.skip(0) =~= orig);
    }
    acc
}

/// Compile a variant list into its ordered alternation pipeline.
fn compile_sum(variants: Vec<Variant>) -> (r: Combinator)
    ensures
        r == spec_compile_sum(variants@),
{
    let mut variants = variants;
    let ghost orig = variants@;
    if variants.len() == 0 {
        return Combinator::Not(Box::new(Combinator::Empty));
    }
    let last = variants.pop().unwrap();
    let ghost mut k: int = orig.len() as int - 1;
    let mut acc = compile_fields(last.fields);
    proof {
        assert(variants@ =~= orig.take(k));
        assert(orig.skip(k) =~= seq![orig[k]]);
        assert(orig.skip(k)[0] == orig[k]);
    }
    #[verifier::loop_isolation(false)]
    while variants.len() > 0
        invariant
            0 <= k <= orig.len() - 1,
            variants@ == orig.take(k),
            acc == spec_compile_sum(orig.skip(k)),
        decreases variants@.len(),
    {
        let v = variants.pop().unwrap();
        proof {
            k = k - 1;
            assert(variants@ =~= orig.take(k));
            assert(v == orig[k]);
        }
        let head = compile_fields(v.fields);
        acc = Combinator::Alt(Box::new(head), Box::new(acc));
        proof {
            assert(orig.skip(k)[0] == orig[k]);
            assert(orig.skip(k).drop_first() =~= orig.skip(k + 1));
            assert(orig.skip(k).len() >= 2);
        }
    }
    proof {
        assert(orig.skip(0) =~= orig);
    }
    acc
}

/// The derivation generator: compile a schema into the combinator pipeline
/// for it, per the rules above.
pub fn derive_parse(schema: Schema) -> (r: Combinator)
    ensures
        r == spec_compile(schema),
{
    match schema {
        Schema::Product(fields) => compile_fields(fields),
        Schema::Sum(variants) => compile_sum(variants),
    }
}

/// Run a product's fields in declared order against the cursor.
pub fn run_fields<T: Input>(fields: &Vec<Combinator>, input: T) -> (r: Option<(T, Value)>)
    ensures
        match r {
            Some(p) => spec_run_fields(fields@, input.rem()) matches Some(q) && p.0.rem() == q.0
                && p.1 == q.1,
            None => spec_run_fields(fields@, input.rem()) is None,
        },
{
    let ghost orig = input.rem();
    let mut cur = input;
    let mut out: Vec<Value> = Vec::new();
    let mut i: usize = 0;
    proof {
        assert(fields@.skip(0) =~= fields@);
        assert(out@ =~= Seq::<Value>::empty());
    }
    #[verifier::loop_isolation(false)]
    while i < fields.len()
        invariant
            0 <= i <= fields@.len(),
            match spec_run_fields(fields@.skip(i as int), cur.rem()) {
                Some(q) => spec_run_fields(fields@, orig) matches Some(w) && w.0 == q.0 && w.1
                    == spec_chain_append(out@, q.1),
                None => spec_run_fields(fields@, orig) is None,
            },
        decreases fields@.len() - i,
    {
        let ghost mid = cur.rem();
        let ghost out_prev = out@;
        match try_run(&fields[i], cur) {
            None => {
                proof {
                    assert(fields@.skip(i as int)[0] == fields@[i as int]);
                    assert(spec_run_fields(fields@.skip(i as int), mid) is None);
                }
                return None;
            },
            Some((next, value)) => {
                out.push(value);
                cur = next;
                proof {
                    assert(fields@.skip(i as int)[0] == fields@[i as int]);
                    assert(fields@.skip(i as int).drop_first() =~= fields@.skip(i + 1));
                    if let Some(q) = spec_run_fields(fields@.skip(i + 1), cur.rem()) {
                        lemma_chain_append_push(
                            out_prev,
                            value,
                            q.1,
                        );
                    }
                }
                i = i + 1;
            },
        }
    }
    proof {
        assert(fields@.skip(fields@.len() as int) =~= Seq::<Combinator>::empty());
        lemma_chain_append_empty(out@);
    }
    Some((cur, build_chain(out)))
}

/// Run a schema's derived parser: a product as its field sequence; a sum by
/// trying each variant in order, snapshotting before every variant that still
/// has a fallback and handing the last the live cursor.
pub fn run_schema<T: Input>(schema: &Schema, input: T) -> (r: Option<(T, Value)>)
    ensures
        match r {
            Some(p) => spec_run_schema(*schema, input.rem()) matches Some(q) && p.0.rem() == q.0
                && p.1 == q.1,
            None => spec_run_schema(*schema, input.rem()) is None,
        },
{
    match schema {
        Schema::Product(fields) => run_fields(fields, input),
        Schema::Sum(variants) => {
            let ghost orig = input.rem();
            let n = variants.len();
            if n == 0 {
                return None;
            }
            let mut cur = input;
            let mut i: usize = 0;
            #[verifier::loop_isolation(false)]
            while i < n - 1
                invariant
                    0 <= i < n,
                    cur.rem() == orig,
                    spec_run_sum_from(variants@, 0, orig) == spec_run_sum_from(
                        variants@,
                        i as int,
                        orig,
                    ),
                decreases n - 1 - i,
            {
                let snapshot = cur.dup();
                match run_fields(&variants[i].fields, snapshot) {
                    Some((end, v)) => {
                        proof {
                            assert(spec_run_fields(variants@[i as int].fields@, orig) is Some);
                            assert(spec_run_sum_from(variants@, i as int, orig) matches Some(w)
                                && w.0 == end.rem() && w.1 == Value::Tagged(i, Box::new(v)));
                        }
                        return Some((end, Value::Tagged(i, Box::new(v))));
                    },
                    None => {
                        proof {
                            assert(spec_run_fields(variants@[i as int].fields@, orig) is None);
                            assert(spec_run_sum_from(variants@, i as int, orig)
                                == spec_run_sum_from(variants@, i as int + 1, orig));
                        }
                        i = i + 1;
                    },
                }
            }
            match run_fields(&variants[i].fields, cur) {
                Some((end, v)) => {
                    proof {
                        assert(spec_run_fields(variants@[i as int].fields@, orig) is Some);
                        assert(spec_run_sum_from(variants@, i as int, orig) matches Some(w)
                            && w.0 == end.rem() && w.1 == Value::Tagged(i, Box::new(v)));
                    }
                    Some((end, Value::Tagged(i, Box::new(v))))
                },
                None => {
                    proof {
                        assert(spec_run_fields(variants@[i as int].fields@, orig) is None);
                        assert(spec_run_sum_from(variants@, i as int + 1, orig) is None);
                    }
                    None
                },
            }
        },
    }
}

/// Run a product's fields totally: the first failing field's error is the
/// whole pipeline's error, propagated unchanged.
pub fn parse_fields<T: Input>(fields: &Vec<Combinator>, input: T) -> (r: Result<
    (T, Value),
    ParseError,
>)
    ensures
        match r {
            Ok(p) => spec_run_fields(fields@, input.rem()) matches Some(q) && p.0.rem() == q.0
                && p.1 == q.1,
            Err(e) => spec_run_fields(fields@, input.rem()) is None && e == spec_fields_err(
                fields@,
                input.rem(),
            ),
        },
{
    let ghost orig = input.rem();
    let mut cur = input;
    let mut out: Vec<Value> = Vec::new();
    let mut i: usize = 0;
    proof {
        assert(fields@.skip(0) =~= fields@);
        assert(out@ =~= Seq::<Value>::empty());
    }
    #[verifier::loop_isolation(false)]
    while i < fields.len()
        invariant
            0 <= i <= fields@.len(),
            match spec_run_fields(fields@.skip(i as int), cur.rem()) {
                Some(q) => spec_run_fields(fields@, orig) matches Some(w) && w.0 == q.0 && w.1
                    == spec_chain_append(out@, q.1),
                None => spec_run_fields(fields@, orig) is None,
            },
            spec_fields_err(fields@, orig) == spec_fields_err(fields@.skip(i as int), cur.rem()),
        decreases fields@.len() - i,
    {
        let ghost mid = cur.rem();
        let ghost out_prev = out@;
        match run(&fields[i], cur) {
            Err(e) => {
                proof {
                    assert(fields@.skip(i as int)[0] == fields@[i as int]);
                    assert(spec_run_fields(fields@.skip(i as int), mid) is None);
                    assert(spec_fields_err(fields@.skip(i as int), mid) == spec_run_err(
                        fields@[i as int],
                        mid,
                    ));
                }
                return Err(e);
            },
            Ok((next, value)) => {
                out.push(value);
                cur = next;
                proof {
                    assert(fields@.skip(i as int)[0] == fields@[i as int]);
                    assert(fields@.skip(i as int).drop_first() =~= fields@.skip(i + 1));
                    if let Some(q) = spec_run_fields(fields@.skip(i + 1), cur.rem()) {
                        lemma_chain_append_push(out_prev, value, q.1);
                    }
                }
                i = i + 1;
            },
        }
    }
    proof {
        assert(fields@.skip(fields@.len() as int) =~= Seq::<Combinator>::empty());
        lemma_chain_append_empty(out@);
    }
    Ok((cur, build_chain(out)))
}

/// Run a schema's derived parser totally. A product reports its first
/// failing field's error; a sum that exhausts every variant reports the last
/// variant's, the one invoked with no fallback left.
pub fn parse_schema<T: Input>(schema: &Schema, input: T) -> (r: Result<(T, Value), ParseError>)
    ensures
        match r {
            Ok(p) => spec_run_schema(*schema, input.rem()) matches Some(q) && p.0.rem() == q.0
                && p.1 == q.1,
            Err(e) => spec_run_schema(*schema, input.rem()) is None && e == spec_schema_err(
                *schema,
                input.rem(),
            ),
        },
{
    match schema {
        Schema::Product(fields) => parse_fields(fields, input),
        Schema::Sum(variants) => {
            let ghost orig = input.rem();
            let n = variants.len();
            if n == 0 {
                return Err(ParseError::Unexpected);
            }
            let mut cur = input;
            let mut i: usize = 0;
            #[verifier::loop_isolation(false)]
            while i < n - 1
                invariant
                    0 <= i < n,
                    cur.rem() == orig,
                    spec_run_sum_from(variants@, 0, orig) == spec_run_sum_from(
                        variants@,
                        i as int,
                        orig,
                    ),
                decreases n - 1 - i,
            {
                let snapshot = cur.dup();
                match run_fields(&variants[i].fields, snapshot) {
                    Some((end, v)) => {
                        proof {
                            assert(spec_run_fields(variants@[i as int].fields@, orig) is Some);
                            assert(spec_run_sum_from(variants@, i as int, orig) matches Some(w)
                                && w.0 == end.rem() && w.1 == Value::Tagged(i, Box::new(v)));
                        }
                        return Ok((end, Value::Tagged(i, Box::new(v))));
                    },
                    None => {
                        proof {
                            assert(spec_run_fields(variants@[i as int].fields@, orig) is None);
                            assert(spec_run_sum_from(variants@, i as int, orig)
                                == spec_run_sum_from(variants@, i as int + 1, orig));
                        }
                        i = i + 1;
                    },
                }
            }
            match parse_fields(&variants[i].fields, cur) {
                Ok((end, v)) => {
                    proof {
                        assert(spec_run_fields(variants@[i as int].fields@, orig) is Some);
                        assert(spec_run_sum_from(variants@, i as int, orig) matches Some(w)
                            && w.0 == end.rem() && w.1 == Value::Tagged(i, Box::new(v)));
                    }
                    Ok((end, Value::Tagged(i, Box::new(v))))
                },
                Err(e) => {
                    proof {
                        assert(spec_run_fields(variants@[i as int].fields@, orig) is None);
                        assert(spec_run_sum_from(variants@, i as int + 1, orig) is None);
                        assert(variants@.last() == variants@[i as int]);
                    }
                    Err(e)
                },
            }
        },
    }
}

/// A zero-field product consumes nothing and always succeeds: its derived
/// parser hands back exactly the remaining input it was given.
pub proof fn lemma_empty_product_identity(fields: Vec<Combinator>, s: Seq<char>)
    requires
        fields@.len() == 0,
    ensures
        spec_run_schema(Schema::Product(fields), s) == Some((s, Value::Empty)),
{
}

/// Backtrack isolation for sum derivation: when variant `i`'s fields miss at
/// `s` — however far they advanced internally — the next variant is tried
/// from exactly `s`, and nothing of the missed attempt is visible in the
/// outcome.
pub proof fn lemma_sum_backtrack_isolation(variants: Seq<Variant>, i: int, s: Seq<char>)
    requires
        0 <= i < variants.len(),
        spec_run_fields(variants[i].fields@, s) is None,
    ensures
        spec_run_sum_from(variants, i, s) == spec_run_sum_from(variants, i + 1, s),
{
}

/// Sequencing short-circuit: in a three-field product whose second field
/// misses after the first hit, the whole misses, the total error is the
/// second field's, and the third field is never consulted — the outcome and
/// the error are the same whatever parser stands in its place.
pub proof fn lemma_sequencing_short_circuit(
    f0: Combinator,
    f1: Combinator,
    f2: Combinator,
    g2: Combinator,
    s: Seq<char>,
)
    requires
        spec_run(f0, s) matches Some(q) && spec_run(f1, q.0) is None,
    ensures
        spec_run_fields(seq![f0, f1, f2], s) is None,
        spec_fields_err(seq![f0, f1, f2], s) == spec_run_err(f1, spec_run(f0, s).unwrap().0),
        spec_run_fields(seq![f0, f1, f2], s) == spec_run_fields(seq![f0, f1, g2], s),
        spec_fields_err(seq![f0, f1, f2], s) == spec_fields_err(seq![f0, f1, g2], s),
{
    let q = spec_run(f0, s).unwrap();
    assert(seq![f0, f1, f2][0] == f0);
    assert(seq![f0, f1, f2].drop_first() =~= seq![f1, f2]);
    assert(seq![f1, f2][0] == f1);
    assert(seq![f0, f1, g2][0] == f0);
    assert(seq![f0, f1, g2].drop_first() =~= seq![f1, g2]);
    assert(seq![f1, g2][0] == f1);
    assert(spec_run_fields(seq![f1, f2], q.0) is None);
    assert(spec_run_fields(seq![f1, g2], q.0) is None);
    assert(spec_fields_err(seq![f1, f2], q.0) == spec_run_err(f1, q.0));
    assert(spec_fields_err(seq![f1, g2], q.0) == spec_run_err(f1, q.0));
}

/// A variant with no fields always matches without consuming; from any start
/// variant at or before it, the derived sum parser cannot miss.
pub proof fn lemma_unit_variant_unconditional(
    variants: Seq<Variant>,
    i: int,
    j: int,
    s: Seq<char>,
)
    requires
        0 <= j <= i < variants.len(),
        variants[i].fields@.len() == 0,
    ensures
        spec_run_sum_from(variants, j, s) is Some,
    decreases i - j,
{
    if j < i {
        lemma_unit_variant_unconditional(variants, i, j + 1, s);
    }
}

/// How the alternation pipeline tags the value of variant `i` among `n`
/// alternatives: `Right` steps down to the variant's position, then `Left`
/// unless it is the last alternative, which stands untagged.
pub open spec fn spec_tag(n: int, i: int, v: Value) -> Value
    decreases n,
{
    if n <= 1 {
        v
    } else if i <= 0 {
        Value::Left(Box::new(v))
    } else {
        Value::Right(Box::new(spec_tag(n - 1, i - 1, v)))
    }
}

proof fn lemma_fields_equiv(fields: Seq<Combinator>, s: Seq<char>)
    ensures
        spec_run(spec_compile_fields(fields), s) == spec_run_fields(fields, s),
    decreases fields.len(),
{
    if fields.len() > 0 {
        match spec_run(fields[0], s) {
            None => {
            },
            Some(q) => {
                lemma_fields_equiv(fields.drop_first(), q.0);
            },
        }
    }
}

proof fn lemma_fields_err_equiv(fields: Seq<Combinator>, s: Seq<char>)
    ensures
        spec_run_err(spec_compile_fields(fields), s) == spec_fields_err(fields, s),
    decreases fields.len(),
{
    if fields.len() > 0 {
        match spec_run(fields[0], s) {
            None => {
            },
            Some(q) => {
                lemma_fields_err_equiv(fields.drop_first(), q.0);
            },
        }
    }
}

proof fn lemma_sum_equiv_from(variants: Seq<Variant>, i: int, s: Seq<char>)
    requires
        0 <= i <= variants.len(),
        variants.len() <= usize::MAX,
    ensures
        match (spec_run(spec_compile_sum(variants.skip(i)), s), spec_run_sum_from(
            variants,
            i,
            s,
        )) {
            (None, None) => true,
            (Some(c), Some(d)) => c.0 == d.0 && (d.1 matches Value::Tagged(j, v) && i <= j
                < variants.len() && c.1 == spec_tag(variants.len() - i, j - i, *v)),
            _ => false,
        },
        spec_run_err(spec_compile_sum(variants.skip(i)), s) == (if i == variants.len() {
            ParseError::Unexpected
        } else {
            spec_fields_err(variants.last().fields@, s)
        }),
    decreases variants.len() - i,
{
    let n = variants.len() as int;
    if i == n {
        assert(variants.skip(i) =~= Seq::<Variant>::empty());
        assert(spec_compile_sum(variants.skip(i)) == Combinator::Not(
            Box::new(Combinator::Empty),
        ));
        assert(spec_run(Combinator::Empty, s) == Some((s, Value::Empty)));
        assert(spec_run(Combinator::Not(Box::new(Combinator::Empty)), s) is None);
        assert(spec_run_err(Combinator::Not(Box::new(Combinator::Empty)), s)
            == ParseError::Unexpected);
    } else if i == n - 1 {
        assert(variants.skip(i)[0] == variants[i]);
        assert(variants.skip(i).len() == 1);
        lemma_fields_equiv(variants[i].fields@, s);
        lemma_fields_err_equiv(variants[i].fields@, s);
        assert(variants.last() == variants[i]);
        assert(spec_compile_sum(variants.skip(i)) == spec_compile_fields(
            variants[i].fields@,
        ));
        match spec_run_fields(variants[i].fields@, s) {
            Some(q) => {
                assert(spec_run_sum_from(variants, i, s) == Some(
                    (q.0, Value::Tagged(i as usize, Box::new(q.1))),
                ));
                assert((i as usize) as int == i);
                assert(spec_tag(1, 0, q.1) == q.1);
            },
            None => {
                assert(spec_run_sum_from(variants, i, s) == spec_run_sum_from(
                    variants,
                    i + 1,
                    s,
                ));
            },
        }
    } else {
        assert(variants.skip(i)[0] == variants[i]);
        assert(variants.skip(i).drop_first() =~= variants.skip(i + 1));
        assert(variants.skip(i).len() >= 2);
        lemma_fields_equiv(variants[i].fields@, s);
        lemma_sum_equiv_from(variants, i + 1, s);
        let a = spec_compile_fields(variants[i].fields@);
        let b = spec_compile_sum(variants.skip(i + 1));
        assert(spec_compile_sum(variants.skip(i)) == Combinator::Alt(
            Box::new(a),
            Box::new(b),
        ));
        match spec_run_fields(variants[i].fields@, s) {
            Some(q) => {
                assert(spec_run(spec_compile_sum(variants.skip(i)), s) == Some(
                    (q.0, Value::Left(Box::new(q.1))),
                ));
                assert(spec_run_sum_from(variants, i, s) == Some(
                    (q.0, Value::Tagged(i as usize, Box::new(q.1))),
                ));
                assert((i as usize) as int == i);
                assert(spec_tag(n - i, 0, q.1) == Value::Left(Box::new(q.1)));
            },
            None => {
                assert(spec_run(a, s) is None);
                assert(spec_run_sum_from(variants, i, s) == spec_run_sum_from(
                    variants,
                    i + 1,
                    s,
                ));
                match spec_run_sum_from(variants, i + 1, s) {
                    Some(d) => {
                        let c = spec_run(b, s).unwrap();
                        assert(spec_run(spec_compile_sum(variants.skip(i)), s) == Some(
                            (c.0, Value::Right(Box::new(c.1))),
                        ));
                        if let Value::Tagged(j, v) = d.1 {
                            assert(spec_tag(n - i, j - i, *v) == Value::Right(
                                Box::new(spec_tag(n - i - 1, j - (i + 1), *v)),
                            ));
                        }
                    },
                    None => {
                        assert(spec_run(b, s) is None);
                        assert(spec_run(spec_compile_sum(variants.skip(i)), s) is None);
                    },
                }
            },
        }
    }
}

/// Derivation and hand-composition agree: for any schema, the pipeline
/// `spec_compile` emits has, at every position, exactly the outcome of the
/// schema's derived parser — the same miss, the same remaining input, the
/// same value up to the alternation tagging of sum variants — and, on a
/// miss, the same structural error.
pub proof fn lemma_derivation_equivalence(schema: Schema, s: Seq<char>)
    requires
        match schema {
            Schema::Sum(variants) => variants@.len() <= usize::MAX,
            Schema::Product(_) => true,
        },
    ensures
        match (spec_run(spec_compile(schema), s), spec_run_schema(schema, s)) {
            (None, None) => spec_run_err(spec_compile(schema), s) == spec_schema_err(schema, s),
            (Some(c), Some(d)) => c.0 == d.0 && match schema {
                Schema::Product(_) => c.1 == d.1,
                Schema::Sum(variants) => d.1 matches Value::Tagged(j, v) && c.1 == spec_tag(
                    variants@.len() as int,
                    j as int,
                    *v,
                ),
            },
            _ => false,
        },
{
    match schema {
        Schema::Product(fields) => {
            lemma_fields_equiv(fields@, s);
            lemma_fields_err_equiv(fields@, s);
        },
        Schema::Sum(variants) => {
            assert(variants@.skip(0) =~= variants@);
            lemma_sum_equiv_from(variants@, 0, s);
        },
    }
}

} // verus!
