//! The input contract: any type a parser can consume must expose a cheap
//! snapshot of its current position and a way to read one element forward.

use vstd::prelude::*;

verus! {

/// A cursor over a character sequence. `rem()` is the sequence of characters
/// still to be consumed; it is the mathematical model every parser contract
/// is stated over.
pub trait Input: Sized {
    /// The characters remaining at the cursor's current position.
    spec fn rem(&self) -> Seq<char>;

    /// Snapshot: duplicating a cursor never changes what either copy sees.
    fn dup(&self) -> (r: Self)
        ensures
            r.rem() == self.rem(),
    ;

    /// Read the next character and advance past it; report exhaustion as `None`.
    fn next(&mut self) -> (r: Option<char>)
        ensures
            match r {
                Some(c) => old(self).rem().len() > 0 && c == old(self).rem()[0]
                    && final(self).rem() == old(self).rem().skip(1),
                None => old(self).rem().len() == 0 && final(self).rem() == old(self).rem(),
            },
    ;

    /// How many characters remain.
    fn rem_len(&self) -> (n: usize)
        ensures
            n == self.rem().len(),
    ;
}

/// A cursor over a borrowed character slice: the position is an index, so a
/// snapshot is one copy of the index and the borrow.
#[derive(Debug)]
pub struct CharCursor<'a> {
    text: &'a [char],
    pos: usize,
}

impl<'a> CharCursor<'a> {
    /// A cursor standing at the start of `text`.
    pub fn new(text: &'a [char]) -> (r: Self)
        ensures
            r.rem() == text@,
    {
        let r = CharCursor { text, pos: 0 };
        proof {
            assert(r.rem() =~= text@);
        }
        r
    }

    /// The remaining characters, copied out; lets callers outside the library
    /// observe the cursor's position.
    pub fn remaining(&self) -> (r: Vec<char>)
        ensures
            r@ == self.rem(),
    {
        let mut r: Vec<char> = Vec::new();
        if self.pos > self.text.len() {
            proof {
                assert(r@ =~= self.rem());
            }
            return r;
        }
        let mut i: usize = self.pos;
        while i < self.text.len()
            invariant
                self.pos <= i <= self.text@.len(),
                r@ == self.rem().take(i - self.pos),
            decreases self.text@.len() - i,
        {
            r.push(self.text[i]);
            proof {
                assert(r@ =~= self.rem().take(i + 1 - self.pos));
            }
            i = i + 1;
        }
        proof {
            assert(r@ =~= self.rem());
        }
        r
    }
}

impl<'a> Input for CharCursor<'a> {
    closed spec fn rem(&self) -> Seq<char> {
        if self.pos <= self.text@.len() {
            self.text@.skip(self.pos as int)
        } else {
            Seq::empty()
        }
    }

    fn dup(&self) -> (r: Self) {
        CharCursor { text: self.text, pos: self.pos }
    }

    fn next(&mut self) -> (r: Option<char>) {
        if self.pos < self.text.len() {
            let c = self.text[self.pos];
            self.pos = self.pos + 1;
            proof {
                assert(self.rem() =~= old(self).rem().skip(1));
            }
            Some(c)
        } else {
            None
        }
    }

    fn rem_len(&self) -> (n: usize) {
        if self.pos <= self.text.len() {
            self.text.len() - self.pos
        } else {
            0
        }
    }
}

} // verus!
