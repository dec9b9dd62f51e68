//! The elementary consuming parser: `char` parses any single character.

use vstd::prelude::*;
use crate::input::Input;
use crate::parser::{suffix_of, TryParse};

verus! {

impl<T: Input> TryParse<T> for char {
    open spec fn spec_try_parse(s: Seq<char>) -> Option<(Seq<char>, char)> {
        if s.len() > 0 {
            Some((s.skip(1), s[0]))
        } else {
            None
        }
    }

    proof fn lemma_no_rewind(s: Seq<char>) {
        if s.len() > 0 {
            assert(s.skip(1) =~= s.skip(s.len() - s.skip(1).len()));
            assert(suffix_of(s.skip(1), s));
        }
    }

    fn try_parse(input: T) -> (r: Option<(T, char)>) {
        let mut input = input;
        match input.next() {
            Some(c) => Some((input, c)),
            None => None,
        }
    }
}

} // verus!
