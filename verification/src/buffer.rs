//! The token buffer and the cursors forked from it.

use vstd::prelude::*;

verus! {

/// A source of tokens that is read front to back.
///
/// `remaining` is the model: the tokens that have not been read yet. Reading
/// drops tokens from its front; nothing else changes it.
pub trait Buffer<T: Copy>: Sized {
    /// The tokens that have not been read yet, next one first.
    spec fn remaining(&self) -> Seq<T>;

    /// Reads the next token, or returns `None` at the end of the input.
    fn next(&mut self) -> (token: Option<T>)
        ensures
            old(self).remaining().len() == 0 ==> token.is_none() && final(self).remaining()
                == old(self).remaining(),
            old(self).remaining().len() > 0 ==> token == Some(old(self).remaining()[0])
                && final(self).remaining() == old(self).remaining().skip(1),
    ;

    /// Returns the next token without reading it.
    fn peek_one(&self) -> (token: Option<T>)
        ensures
            self.remaining().len() == 0 ==> token.is_none(),
            self.remaining().len() > 0 ==> token == Some(self.remaining()[0]),
    ;

    /// Forks a cursor at the current read position. The cursor reads the same
    /// tokens as `self` would, and reading through it leaves `self` alone.
    fn cursor(&self) -> (c: Cursor<'_, T>)
        ensures
            c@ == self.remaining(),
    ;

    /// The number of tokens that are left to read.
    fn available(&self) -> (n: usize)
        ensures
            n == self.remaining().len(),
    ;

    /// Skips the next `n` tokens.
    fn fast_forward(&mut self, n: usize)
        requires
            n <= old(self).remaining().len(),
        ensures
            final(self).remaining() == old(self).remaining().skip(n as int),
    ;
}

/// A buffer that owns its tokens.
pub struct Buf<T> {
    tokens: Vec<T>,
    pos: usize,
}

/// A read position forked from a buffer. It borrows the buffer's tokens and
/// keeps a position of its own.
pub struct Cursor<'a, T> {
    tokens: &'a Vec<T>,
    pos: usize,
}

impl<T> Buf<T> {
    #[verifier::type_invariant]
    spec fn inv(self) -> bool {
        self.pos <= self.tokens@.len()
    }
}

impl<T> View for Buf<T> {
    type V = Seq<T>;

    /// The tokens that have not been read yet.
    closed spec fn view(&self) -> Seq<T> {
        self.tokens@.skip(self.pos as int)
    }
}

impl<'a, T> View for Cursor<'a, T> {
    type V = Seq<T>;

    /// The tokens that the cursor has not read yet.
    closed spec fn view(&self) -> Seq<T> {
        self.tokens@.skip(self.pos as int)
    }
}

impl<T: Copy> Buf<T> {
    /// A buffer that will yield `tokens` in order.
    pub fn new(tokens: Vec<T>) -> (buffer: Self)
        ensures
            buffer@ == tokens@,
    {
        Buf { tokens, pos: 0 }
    }
}

impl<'a, T> Cursor<'a, T> {
    #[verifier::type_invariant]
    spec fn inv(self) -> bool {
        self.pos <= self.tokens@.len()
    }
}

impl<T: Copy> Buffer<T> for Buf<T> {
    open spec fn remaining(&self) -> Seq<T> {
        self@
    }

    fn next(&mut self) -> (token: Option<T>) {
        proof {
            use_type_invariant(&*self);
        }
        if self.pos < self.tokens.len() {
            let t = self.tokens[self.pos];
            self.pos = self.pos + 1;
            Some(t)
        } else {
            None
        }
    }

    fn peek_one(&self) -> (token: Option<T>) {
        proof {
            use_type_invariant(self);
        }
        if self.pos < self.tokens.len() {
            Some(self.tokens[self.pos])
        } else {
            None
        }
    }

    fn cursor(&self) -> (c: Cursor<'_, T>) {
        proof {
            use_type_invariant(self);
        }
        Cursor { tokens: &self.tokens, pos: self.pos }
    }

    fn available(&self) -> (n: usize) {
        proof {
            use_type_invariant(self);
        }
        self.tokens.len() - self.pos
    }

    fn fast_forward(&mut self, n: usize) {
        proof {
            use_type_invariant(&*self);
            assert(self@.len() == self.tokens@.len() - self.pos);
            assert(self.tokens@.len() == self.tokens.len());
        }
        self.pos = self.pos + n;
    }
}

impl<'a, T: Copy> Buffer<T> for Cursor<'a, T> {
    open spec fn remaining(&self) -> Seq<T> {
        self@
    }

    fn next(&mut self) -> (token: Option<T>) {
        proof {
            use_type_invariant(&*self);
        }
        if self.pos < self.tokens.len() {
            let t = self.tokens[self.pos];
            self.pos = self.pos + 1;
            Some(t)
        } else {
            None
        }
    }

    fn peek_one(&self) -> (token: Option<T>) {
        proof {
            use_type_invariant(self);
        }
        if self.pos < self.tokens.len() {
            Some(self.tokens[self.pos])
        } else {
            None
        }
    }

    fn cursor(&self) -> (c: Cursor<'_, T>) {
        proof {
            use_type_invariant(self);
        }
        Cursor { tokens: self.tokens, pos: self.pos }
    }

    fn available(&self) -> (n: usize) {
        proof {
            use_type_invariant(self);
        }
        self.tokens.len() - self.pos
    }

    fn fast_forward(&mut self, n: usize) {
        proof {
            use_type_invariant(&*self);
            assert(self@.len() == self.tokens@.len() - self.pos);
            assert(self.tokens@.len() == self.tokens.len());
        }
        self.pos = self.pos + n;
    }
}

} // verus!
