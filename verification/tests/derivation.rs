use zparse::combinator::{run, try_run, Combinator, ParseError, Value};
use zparse::input::{CharCursor, Input};
use zparse::schema::{derive_parse, parse_schema, run_schema, Schema, Variant};

fn chars(s: &str) -> Vec<char> {
    s.chars().collect()
}

fn lit(c: char) -> Combinator {
    Combinator::Lit(c)
}

fn chain(vs: Vec<Value>) -> Value {
    let mut out = Value::Empty;
    for v in vs.into_iter().rev() {
        out = Value::Pair(Box::new(v), Box::new(out));
    }
    out
}

#[test]
fn literal_hits_and_misses() {
    let text = chars("ab");
    let (rest, v) = try_run(&lit('a'), CharCursor::new(&text)).unwrap();
    assert_eq!(v, Value::Char('a'));
    assert_eq!(rest.remaining(), chars("b"));
    assert!(try_run(&lit('b'), CharCursor::new(&text)).is_none());
}

#[test]
fn literal_total_errors() {
    let text = chars("b");
    let e = run(&lit('a'), CharCursor::new(&text)).unwrap_err();
    assert_eq!(e, ParseError::Mismatch { expected: 'a', found: 'b' });
    let empty = chars("");
    let e = run(&lit('a'), CharCursor::new(&empty)).unwrap_err();
    assert_eq!(e, ParseError::Exhausted { expected: 'a' });
}

#[test]
fn any_total_error_is_end_of_input() {
    let empty = chars("");
    let e = run(&Combinator::Any, CharCursor::new(&empty)).unwrap_err();
    assert_eq!(e, ParseError::EndOfInput);
}

#[test]
fn lookahead_total_error_is_unexpected() {
    let text = chars("a");
    let e = run(&Combinator::Not(Box::new(lit('a'))), CharCursor::new(&text)).unwrap_err();
    assert_eq!(e, ParseError::Unexpected);
}

#[test]
fn star_collects_three_and_leaves_rest() {
    let text = chars("aaabc");
    let star = Combinator::Star(Box::new(lit('a')));
    let (rest, v) = try_run(&star, CharCursor::new(&text)).unwrap();
    assert_eq!(
        v,
        chain(vec![Value::Char('a'), Value::Char('a'), Value::Char('a')])
    );
    assert_eq!(rest.remaining(), chars("bc"));
}

#[test]
fn plus_misses_without_a_hit() {
    let text = chars("bbb");
    let plus = Combinator::Plus(Box::new(lit('a')));
    let cur = CharCursor::new(&text);
    let snap = cur.dup();
    assert!(try_run(&plus, cur).is_none());
    assert_eq!(snap.remaining(), chars("bbb"));
    let e = run(&plus, snap).unwrap_err();
    assert_eq!(e, ParseError::Mismatch { expected: 'a', found: 'b' });
}

#[test]
fn plus_over_non_consuming_parser_is_unproductive() {
    // The inner star always hits, consuming nothing on "bbb"; one-or-more
    // over it collects nothing and reports so.
    let text = chars("bbb");
    let plus = Combinator::Plus(Box::new(Combinator::Star(Box::new(lit('a')))));
    let e = run(&plus, CharCursor::new(&text)).unwrap_err();
    assert_eq!(e, ParseError::Unproductive);
}

#[test]
fn star_drops_a_non_consuming_hit() {
    let text = chars("ab");
    let star = Combinator::Star(Box::new(Combinator::Star(Box::new(lit('a')))));
    let (rest, v) = try_run(&star, CharCursor::new(&text)).unwrap();
    assert_eq!(v, chain(vec![chain(vec![Value::Char('a')])]));
    assert_eq!(rest.remaining(), chars("b"));
}

#[test]
fn alternation_tags_the_arm_that_matched() {
    let text = chars("b");
    let alt = Combinator::Alt(Box::new(lit('a')), Box::new(lit('b')));
    let (rest, v) = try_run(&alt, CharCursor::new(&text)).unwrap();
    assert_eq!(v, Value::Right(Box::new(Value::Char('b'))));
    assert_eq!(rest.remaining(), chars(""));
}

#[test]
fn product_derivation_emits_sequencing() {
    let schema = Schema::Product(vec![lit('a'), lit('b')]);
    let pipeline = derive_parse(schema);
    assert_eq!(
        pipeline,
        Combinator::Pair(
            Box::new(lit('a')),
            Box::new(Combinator::Pair(Box::new(lit('b')), Box::new(Combinator::Empty)))
        )
    );
}

#[test]
fn sum_derivation_emits_ordered_alternation() {
    let schema = Schema::Sum(vec![
        Variant { fields: vec![lit('x')] },
        Variant { fields: vec![lit('y')] },
    ]);
    let pipeline = derive_parse(schema);
    assert_eq!(
        pipeline,
        Combinator::Alt(
            Box::new(Combinator::Pair(Box::new(lit('x')), Box::new(Combinator::Empty))),
            Box::new(Combinator::Pair(Box::new(lit('y')), Box::new(Combinator::Empty)))
        )
    );
}

#[test]
fn empty_product_never_advances() {
    let text = chars("xy");
    let schema = Schema::Product(Vec::new());
    let (rest, v) = run_schema(&schema, CharCursor::new(&text)).unwrap();
    assert_eq!(v, Value::Empty);
    assert_eq!(rest.remaining(), chars("xy"));
}

#[test]
fn product_runs_fields_in_order() {
    let text = chars("abcd");
    let schema = Schema::Product(vec![lit('a'), lit('b'), lit('c')]);
    let (rest, v) = run_schema(&schema, CharCursor::new(&text)).unwrap();
    assert_eq!(
        v,
        chain(vec![Value::Char('a'), Value::Char('b'), Value::Char('c')])
    );
    assert_eq!(rest.remaining(), chars("d"));
}

#[test]
fn product_reports_second_field_and_spares_third() {
    let text = chars("axc");
    let schema = Schema::Product(vec![lit('a'), lit('b'), lit('c')]);
    let cur = CharCursor::new(&text);
    let snap = cur.dup();
    let e = parse_schema(&schema, cur).unwrap_err();
    assert_eq!(e, ParseError::Mismatch { expected: 'b', found: 'x' });
    // The failure left the caller's input untouched, and the same failure
    // comes whatever the third field would have been.
    let other = Schema::Product(vec![lit('a'), lit('b'), lit('z')]);
    let e = parse_schema(&other, snap).unwrap_err();
    assert_eq!(e, ParseError::Mismatch { expected: 'b', found: 'x' });
}

#[test]
fn sum_tries_variants_in_order() {
    let text = chars("y");
    let schema = Schema::Sum(vec![
        Variant { fields: vec![lit('x')] },
        Variant { fields: vec![lit('y')] },
    ]);
    let (rest, v) = run_schema(&schema, CharCursor::new(&text)).unwrap();
    assert_eq!(v, Value::Tagged(1, Box::new(chain(vec![Value::Char('y')]))));
    assert_eq!(rest.remaining(), chars(""));
}

#[test]
fn sum_backtracks_a_partial_variant() {
    // Variant 0 consumes 'a' and then misses; variant 1 must be tried from
    // the very same starting position.
    let text = chars("ac");
    let schema = Schema::Sum(vec![
        Variant { fields: vec![lit('a'), lit('b')] },
        Variant { fields: vec![lit('a'), lit('c')] },
    ]);
    let (rest, v) = run_schema(&schema, CharCursor::new(&text)).unwrap();
    assert_eq!(
        v,
        Value::Tagged(1, Box::new(chain(vec![Value::Char('a'), Value::Char('c')])))
    );
    assert_eq!(rest.remaining(), chars(""));
}

#[test]
fn sum_error_is_the_last_variants() {
    let text = chars("z");
    let schema = Schema::Sum(vec![
        Variant { fields: vec![lit('x')] },
        Variant { fields: vec![lit('y')] },
    ]);
    let e = parse_schema(&schema, CharCursor::new(&text)).unwrap_err();
    assert_eq!(e, ParseError::Mismatch { expected: 'y', found: 'z' });
}

#[test]
fn unit_variant_makes_the_sum_total() {
    let text = chars("q");
    let schema = Schema::Sum(vec![
        Variant { fields: vec![lit('x')] },
        Variant { fields: Vec::new() },
    ]);
    let (rest, v) = run_schema(&schema, CharCursor::new(&text)).unwrap();
    assert_eq!(v, Value::Tagged(1, Box::new(Value::Empty)));
    assert_eq!(rest.remaining(), chars("q"));
}

#[test]
fn empty_sum_never_matches() {
    let text = chars("q");
    let schema = Schema::Sum(Vec::new());
    assert!(run_schema(&schema, CharCursor::new(&text)).is_none());
    let e = parse_schema(&schema, CharCursor::new(&text)).unwrap_err();
    assert_eq!(e, ParseError::Unexpected);
    let pipeline = derive_parse(Schema::Sum(Vec::new()));
    assert!(try_run(&pipeline, CharCursor::new(&text)).is_none());
    let e = run(&pipeline, CharCursor::new(&text)).unwrap_err();
    assert_eq!(e, ParseError::Unexpected);
}

#[test]
fn derived_product_agrees_with_hand_pipeline() {
    let text = chars("abX");
    let schema = Schema::Product(vec![lit('a'), lit('b')]);
    let pipeline = derive_parse(Schema::Product(vec![lit('a'), lit('b')]));
    let (rest_d, v_d) = run_schema(&schema, CharCursor::new(&text)).unwrap();
    let (rest_h, v_h) = try_run(&pipeline, CharCursor::new(&text)).unwrap();
    assert_eq!(v_d, v_h);
    assert_eq!(rest_d.remaining(), rest_h.remaining());
}

#[test]
fn derived_sum_agrees_with_hand_pipeline_up_to_tagging() {
    let text = chars("y");
    let variants = || {
        vec![
            Variant { fields: vec![lit('x')] },
            Variant { fields: vec![lit('y')] },
        ]
    };
    let schema = Schema::Sum(variants());
    let pipeline = derive_parse(Schema::Sum(variants()));
    let (rest_d, v_d) = run_schema(&schema, CharCursor::new(&text)).unwrap();
    let (rest_h, v_h) = try_run(&pipeline, CharCursor::new(&text)).unwrap();
    assert_eq!(rest_d.remaining(), rest_h.remaining());
    // Variant 1 of 2: the derivation tags by position, the pipeline by
    // alternation nesting.
    assert_eq!(v_d, Value::Tagged(1, Box::new(chain(vec![Value::Char('y')]))));
    assert_eq!(v_h, Value::Right(Box::new(chain(vec![Value::Char('y')]))));
}

#[test]
fn derived_and_hand_pipelines_fail_alike() {
    let text = chars("z");
    let variants = || {
        vec![
            Variant { fields: vec![lit('x')] },
            Variant { fields: vec![lit('y')] },
        ]
    };
    let schema = Schema::Sum(variants());
    let pipeline = derive_parse(Schema::Sum(variants()));
    let e_d = parse_schema(&schema, CharCursor::new(&text)).unwrap_err();
    let e_h = run(&pipeline, CharCursor::new(&text)).unwrap_err();
    assert_eq!(e_d, e_h);
}

#[test]
fn optional_pipeline_never_fails() {
    let text = chars("z");
    let opt = Combinator::Opt(Box::new(lit('a')));
    let (rest, v) = run(&opt, CharCursor::new(&text)).unwrap();
    assert_eq!(v, Value::Absent);
    assert_eq!(rest.remaining(), chars("z"));
}

#[test]
fn nested_fields_compose() {
    // A product whose second field is itself a repetition pipeline.
    let text = chars("xaaay");
    let schema = Schema::Product(vec![lit('x'), Combinator::Star(Box::new(lit('a'))), lit('y')]);
    let (rest, v) = run_schema(&schema, CharCursor::new(&text)).unwrap();
    assert_eq!(
        v,
        chain(vec![
            Value::Char('x'),
            chain(vec![Value::Char('a'), Value::Char('a'), Value::Char('a')]),
            Value::Char('y'),
        ])
    );
    assert_eq!(rest.remaining(), chars(""));
}
