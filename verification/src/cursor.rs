//! A stream of characters read one at a time, as the parser consumes a
//! source file. Its view is the sequence of characters not read yet.

use vstd::prelude::*;
use crate::text::chars_of;

verus! {

pub struct CharStream {
    chars: Vec<char>,
    pos: usize,
}

impl CharStream {
    #[verifier::type_invariant]
    spec fn inv(self) -> bool {
        self.pos <= self.chars@.len()
    }
}

impl View for CharStream {
    type V = Seq<char>;

    closed spec fn view(&self) -> Seq<char> {
        self.chars@.subrange(self.pos as int, self.chars@.len() as int)
    }
}

impl CharStream {
    /// A stream over the characters of `s`.
    pub fn new(s: &str) -> (r: CharStream)
        ensures
            r@ == s@,
    {
        let chars = chars_of(s);
        let r = CharStream { chars, pos: 0 };
        assert(r.chars@.subrange(0, r.chars@.len() as int) == r.chars@);
        r
    }

    /// Reads the next character.
    pub fn next(&mut self) -> (r: Option<char>)
        ensures
            old(self)@.len() > 0 ==> r == Some(old(self)@[0]) && final(self)@ == old(self)@.drop_first(),
            old(self)@.len() == 0 ==> r is None && final(self)@ == old(self)@,
    {
        proof {
            use_type_invariant(&*self);
        }
        if self.pos < self.chars.len() {
            let c = self.chars[self.pos];
            let ghost before = self@;
            self.pos = self.pos + 1;
            assert(self@ =~= before.drop_first());
            Some(c)
        } else {
            None
        }
    }

    /// The number of characters left fits in a `usize`.
    pub fn len_bound(&self)
        ensures
            self@.len() <= usize::MAX,
    {
        proof {
            use_type_invariant(self);
        }
        let n = self.chars.len();
        assert(n == self.chars@.len());
    }

    /// Whether characters are left.
    pub fn is_empty(&self) -> (r: bool)
        ensures
            r == (self@.len() == 0),
    {
        proof {
            use_type_invariant(self);
        }
        self.pos >= self.chars.len()
    }
}

} // verus!
