//! Character sources with one character of lookahead.

use vstd::prelude::*;

verus! {

/// A source of characters that can show its next character without
/// consuming it.
///
/// The parsers read their input through this trait alone, so anything that
/// yields characters in order can be parsed, whatever holds them.
pub trait PeekableIterator {
    /// The characters that have not been consumed yet, in order.
    spec fn remaining(&self) -> Seq<char>;

    /// Shows the next character without consuming it, or `None` at the end
    /// of the input.
    fn peek(&mut self) -> (r: Option<&char>)
        ensures
            final(self).remaining() == old(self).remaining(),
            r == (if old(self).remaining().len() > 0 {
                Some(&old(self).remaining()[0])
            } else {
                None
            }),
    ;

    /// Consumes the next character and returns it, or returns `None` at the
    /// end of the input and consumes nothing.
    fn advance(&mut self) -> (r: Option<char>)
        ensures
            r == (if old(self).remaining().len() > 0 {
                Some(old(self).remaining()[0])
            } else {
                None
            }),
            final(self).remaining() == (if old(self).remaining().len() > 0 {
                old(self).remaining().skip(1)
            } else {
                old(self).remaining()
            }),
    ;
}

/// A character source over characters held in memory.
pub struct CharStream {
    chars: Vec<char>,
    pos: usize,
}

impl CharStream {
    #[verifier::type_invariant]
    spec fn well_formed(&self) -> bool {
        self.pos <= self.chars.len()
    }

    /// A source that yields the characters of `chars` in order.
    pub fn new(chars: Vec<char>) -> (r: Self)
        ensures
            r.remaining() == chars@,
    {
        CharStream { chars, pos: 0 }
    }

    /// A source that yields the characters of `s` in order.
    pub fn from_str(s: &str) -> (r: Self)
        ensures
            r.remaining() == s@,
    {
        let mut chars: Vec<char> = Vec::new();
        for c in it: s.chars()
            invariant
                it.seq() == s@,
                chars@ == it.seq().take(it.index() as int),
        {
            chars.push(c);
        }
        CharStream::new(chars)
    }
}

impl PeekableIterator for CharStream {
    closed spec fn remaining(&self) -> Seq<char> {
        self.chars@.skip(self.pos as int)
    }

    fn peek(&mut self) -> (r: Option<&char>) {
        proof {
            use_type_invariant(&*self);
        }
        if self.pos < self.chars.len() {
            Some(&self.chars[self.pos])
        } else {
            None
        }
    }

    fn advance(&mut self) -> (r: Option<char>) {
        proof {
            use_type_invariant(&*self);
        }
        if self.pos < self.chars.len() {
            let c = self.chars[self.pos];
            self.pos = self.pos + 1;
            Some(c)
        } else {
            None
        }
    }
}

} // verus!
