use zparse::input::{CharCursor, Input};
use zparse::parser::character::Character;
use zparse::parser::either::Either;
use zparse::parser::not::Not;
use zparse::parser::vec1::Vec1;
use zparse::parser::{Parse, TryParse};

fn chars(s: &str) -> Vec<char> {
    s.chars().collect()
}

type CharA = Character<97>;
type CharB = Character<98>;
type CharC = Character<99>;

#[test]
fn cursor_reads_and_duplicates() {
    let text = chars("ab");
    let mut cur = CharCursor::new(&text);
    assert_eq!(cur.rem_len(), 2);
    let snap = cur.dup();
    assert_eq!(cur.next(), Some('a'));
    assert_eq!(cur.next(), Some('b'));
    assert_eq!(cur.next(), None);
    assert_eq!(snap.remaining(), chars("ab"));
}

#[test]
fn any_char_parses_one() {
    let text = chars("xy");
    let cur = CharCursor::new(&text);
    let (rest, value) = <char as TryParse<CharCursor>>::try_parse(cur).unwrap();
    assert_eq!(value, 'x');
    assert_eq!(rest.remaining(), chars("y"));
}

#[test]
fn any_char_misses_at_end() {
    let text = chars("");
    let cur = CharCursor::new(&text);
    assert!(<char as TryParse<CharCursor>>::try_parse(cur).is_none());
}

#[test]
fn character_matches_its_own() {
    let text = chars("abc");
    let cur = CharCursor::new(&text);
    let (rest, _) = <CharA as TryParse<CharCursor>>::try_parse(cur).unwrap();
    assert_eq!(rest.remaining(), chars("bc"));
    assert_eq!(CharA::code(), 97);
}

#[test]
fn character_misses_another() {
    let text = chars("bc");
    let cur = CharCursor::new(&text);
    assert!(<CharA as TryParse<CharCursor>>::try_parse(cur).is_none());
}

#[test]
fn unit_product_is_identity() {
    let text = chars("abc");
    let cur = CharCursor::new(&text);
    let (rest, ()) = <() as Parse<CharCursor>>::parse(cur);
    assert_eq!(rest.remaining(), chars("abc"));
    let cur = CharCursor::new(&text);
    let (rest, ()) = <() as TryParse<CharCursor>>::try_parse(cur).unwrap();
    assert_eq!(rest.remaining(), chars("abc"));
}

#[test]
fn one_tuple_wraps_inner() {
    let text = chars("ab");
    let cur = CharCursor::new(&text);
    let (rest, (_a,)) = <(CharA,) as TryParse<CharCursor>>::try_parse(cur).unwrap();
    assert_eq!(rest.remaining(), chars("b"));
}

#[test]
fn pair_threads_in_order() {
    let text = chars("abc");
    let cur = CharCursor::new(&text);
    let (rest, _) = <(CharA, CharB) as TryParse<CharCursor>>::try_parse(cur).unwrap();
    assert_eq!(rest.remaining(), chars("c"));
}

#[test]
fn triple_short_circuits_on_second() {
    let text = chars("axc");
    let cur = CharCursor::new(&text);
    let r = <(CharA, CharB, CharC) as TryParse<CharCursor>>::try_parse(cur);
    assert!(r.is_none());
}

#[test]
fn triple_parses_whole() {
    let text = chars("abcd");
    let cur = CharCursor::new(&text);
    let (rest, _) = <(CharA, CharB, CharC) as TryParse<CharCursor>>::try_parse(cur).unwrap();
    assert_eq!(rest.remaining(), chars("d"));
}

#[test]
fn optional_hit_advances() {
    let text = chars("ab");
    let cur = CharCursor::new(&text);
    let (rest, v) = <Option<CharA> as Parse<CharCursor>>::parse(cur);
    assert!(v.is_some());
    assert_eq!(rest.remaining(), chars("b"));
}

#[test]
fn optional_miss_stays_put() {
    let text = chars("xyz");
    let cur = CharCursor::new(&text);
    let (rest, v) = <Option<CharA> as Parse<CharCursor>>::parse(cur);
    assert!(v.is_none());
    assert_eq!(rest.remaining(), chars("xyz"));
}

#[test]
fn boxed_behaves_as_inner() {
    let text = chars("ab");
    let cur = CharCursor::new(&text);
    let (rest, b) = <Box<CharA> as TryParse<CharCursor>>::try_parse(cur).unwrap();
    assert_eq!(*b, Character);
    assert_eq!(rest.remaining(), chars("b"));
}

#[test]
fn either_takes_first_on_hit() {
    let text = chars("ab");
    let cur = CharCursor::new(&text);
    let (rest, v) = <Either<CharA, CharB> as TryParse<CharCursor>>::try_parse(cur).unwrap();
    assert_eq!(v, Either::A(Character));
    assert_eq!(rest.remaining(), chars("b"));
}

#[test]
fn either_backtracks_after_partial_advance() {
    // The first alternative consumes 'a' and then fails on 'X'; the second
    // alternative must still see the input from the very start.
    let text = chars("aXc");
    let cur = CharCursor::new(&text);
    let (rest, v) =
        <Either<(CharA, CharB), CharA> as TryParse<CharCursor>>::try_parse(cur).unwrap();
    assert_eq!(v, Either::B(Character));
    assert_eq!(rest.remaining(), chars("Xc"));
}

#[test]
fn either_misses_only_if_both_miss() {
    let text = chars("z");
    let cur = CharCursor::new(&text);
    assert!(<Either<CharA, CharB> as TryParse<CharCursor>>::try_parse(cur).is_none());
}

#[test]
fn either_total_falls_back_to_second() {
    let text = chars("z");
    let cur = CharCursor::new(&text);
    let (rest, v) = <Either<CharA, Option<CharB>> as Parse<CharCursor>>::parse(cur);
    assert_eq!(v, Either::B(None));
    assert_eq!(rest.remaining(), chars("z"));
}

#[test]
fn lookahead_hits_where_inner_misses() {
    let text = chars("bc");
    let cur = CharCursor::new(&text);
    let (rest, _) = <Not<CharA> as TryParse<CharCursor>>::try_parse(cur).unwrap();
    assert_eq!(rest.remaining(), chars("bc"));
}

#[test]
fn lookahead_misses_where_inner_hits() {
    let text = chars("ab");
    let cur = CharCursor::new(&text);
    assert!(<Not<CharA> as TryParse<CharCursor>>::try_parse(cur).is_none());
}

#[test]
fn zero_or_more_collects_and_stops() {
    let text = chars("aaabc");
    let cur = CharCursor::new(&text);
    let (rest, items) = <Vec<CharA> as Parse<CharCursor>>::parse(cur);
    assert_eq!(items.len(), 3);
    assert_eq!(rest.remaining(), chars("bc"));
}

#[test]
fn zero_or_more_accepts_nothing() {
    let text = chars("bbb");
    let cur = CharCursor::new(&text);
    let (rest, items) = <Vec<CharA> as Parse<CharCursor>>::parse(cur);
    assert_eq!(items.len(), 0);
    assert_eq!(rest.remaining(), chars("bbb"));
}

#[test]
fn zero_or_more_stops_at_non_consuming_hit() {
    // The unit parser hits without consuming; the repetition must stop at
    // once instead of spinning, collecting nothing.
    let text = chars("ab");
    let cur = CharCursor::new(&text);
    let (rest, items) = <Vec<()> as Parse<CharCursor>>::parse(cur);
    assert_eq!(items.len(), 0);
    assert_eq!(rest.remaining(), chars("ab"));
}

#[test]
fn one_or_more_needs_one() {
    let text = chars("bbb");
    let cur = CharCursor::new(&text);
    let snap = cur.dup();
    assert!(<Vec1<CharA> as TryParse<CharCursor>>::try_parse(cur).is_none());
    // The caller's own snapshot is untouched and still usable by a sibling.
    let (rest, _) = <CharB as TryParse<CharCursor>>::try_parse(snap).unwrap();
    assert_eq!(rest.remaining(), chars("bb"));
}

#[test]
fn one_or_more_collects_all_hits() {
    let text = chars("aaab");
    let cur = CharCursor::new(&text);
    let (rest, items) = <Vec1<CharA> as TryParse<CharCursor>>::try_parse(cur).unwrap();
    assert_eq!(items.len(), 3);
    assert_eq!(rest.remaining(), chars("b"));
}

#[test]
fn vec1_wraps_only_nonempty() {
    assert!(Vec1::<char>::from_vec(Vec::new()).is_none());
    let v = Vec1::from_vec(vec!['x', 'y']).unwrap();
    assert_eq!(v.len(), 2);
    assert_eq!(v.into_vec(), vec!['x', 'y']);
}

#[test]
fn try_parse_value_keeps_only_value() {
    let text = chars("xy");
    let v = <char as TryParse<CharCursor>>::try_parse_value(CharCursor::new(&text));
    assert_eq!(v, Some('x'));
}
