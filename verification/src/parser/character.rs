//! A leaf matcher for one fixed character, chosen at the type level by its
//! code point: `Character::<97>` matches exactly `'a'`.

use vstd::prelude::*;
use crate::input::Input;
use crate::parser::{suffix_of, TryParse};

verus! {

/// Matches the single character whose code point is `C`; the parsed value is
/// the marker itself, which carries no data.
#[derive(Clone, Copy, Debug, Default, Hash, PartialEq, Eq)]
pub struct Character<const C: u32>;

impl<const C: u32> DeepView for Character<C> {
    type V = Character<C>;

    open spec fn deep_view(&self) -> Character<C> {
        Character
    }
}

impl<const C: u32> Character<C> {
    /// The character this matcher accepts, as a code point.
    pub fn code() -> (r: u32)
        ensures
            r == C,
    {
        C
    }
}

impl<const C: u32, T: Input> TryParse<T> for Character<C> {
    open spec fn spec_try_parse(s: Seq<char>) -> Option<(Seq<char>, Character<C>)> {
        if s.len() > 0 && s[0] as u32 == C {
            Some((s.skip(1), Character))
        } else {
            None
        }
    }

    proof fn lemma_no_rewind(s: Seq<char>) {
        if s.len() > 0 && s[0] as u32 == C {
            assert(s.skip(1) =~= s.skip(s.len() - s.skip(1).len()));
            assert(suffix_of(s.skip(1), s));
        }
    }

    fn try_parse(input: T) -> (r: Option<(T, Character<C>)>) {
        let mut input = input;
        match input.next() {
            Some(c) => if c as u32 == C {
                Some((input, Character))
            } else {
                None
            },
            None => None,
        }
    }
}

} // verus!
