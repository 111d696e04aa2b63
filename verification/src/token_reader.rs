use vstd::prelude::*;

use crate::token::{Token, TokenValue, EOFToken, EOF_KIND};

verus! {

/// A finite, randomly seekable sequence of tokens with a cursor. Its backing
/// sequence always ends in an end-marker token, and every read at or past the
/// end yields an end-marker token instead of failing.
pub struct TokenReader {
    tokens: Vec<Token>,
    index: usize,
    eof: Token,
}

impl TokenReader {
    /// The backing token sequence.
    pub closed spec fn toks(&self) -> Seq<Token> {
        self.tokens@
    }

    /// The cursor.
    pub closed spec fn cursor(&self) -> int {
        self.index as int
    }

    /// The shared end-marker token handed out past the end.
    pub closed spec fn eof_token(&self) -> Token {
        self.eof
    }

    /// The reader invariant: the backing sequence ends in an end-marker
    /// token, and the shared end-marker is one too.
    pub open spec fn wf(&self) -> bool {
        &&& 0 <= self.cursor()
        &&& self.toks().len() > 0
        &&& self.toks().last().kind == EOF_KIND
        &&& self.toks().last().value == TokenValue::Unit
        &&& self.eof_token().kind == EOF_KIND
        &&& self.eof_token().value == TokenValue::Unit
    }

    /// The token the cursor stands on: the end-marker when the cursor has
    /// run past the backing sequence.
    pub open spec fn spec_peek(&self) -> Token {
        if self.cursor() < self.toks().len() {
            self.toks()[self.cursor()]
        } else {
            self.eof_token()
        }
    }

    /// Creates a new token reader; an end-marker token is appended unless the
    /// input already ends in one.
    pub fn new(tokens: Vec<Token>) -> (r: Self)
        ensures
            r.wf(),
            r.cursor() == 0,
            (tokens@.len() > 0 && tokens@.last().kind == EOF_KIND && tokens@.last().value
                == TokenValue::Unit) ==> r.toks() == tokens@,
            !(tokens@.len() > 0 && tokens@.last().kind == EOF_KIND && tokens@.last().value
                == TokenValue::Unit) ==> r.toks() == tokens@.push(
                Token { kind: EOF_KIND, value: TokenValue::Unit },
            ),
    {
        let mut tokens = tokens;
        let needs_marker: bool = if tokens.len() == 0 {
            true
        } else {
            let last = &tokens[tokens.len() - 1];
            !(last.is(EOF_KIND) && matches!(&last.value, TokenValue::Unit))
        };
        if needs_marker {
            tokens.push(EOFToken::token());
        }
        TokenReader { tokens, index: 0, eof: EOFToken::token() }
    }

    /// The token under the cursor, without consuming it.
    pub fn peek(&self) -> (r: &Token)
        ensures
            *r == self.spec_peek(),
    {
        if self.index < self.tokens.len() {
            &self.tokens[self.index]
        } else {
            &self.eof
        }
    }

    /// Whether the token under the cursor is of kind `kind`.
    pub fn peek_is(&self, kind: u64) -> (r: bool)
        ensures
            r == (self.spec_peek().kind == kind),
    {
        self.peek().is(kind)
    }

    /// The payload of the token under the cursor, when it is of kind `kind`.
    pub fn peek_as(&self, kind: u64) -> (r: Option<&TokenValue>)
        ensures
            self.spec_peek().kind == kind ==> (r matches Some(v) && *v == self.spec_peek().value),
            self.spec_peek().kind != kind ==> r is None,
    {
        self.peek().try_as(kind)
    }

    /// Consumes the token under the cursor and returns it; at or past the end
    /// this keeps returning the end-marker indefinitely.
    pub fn consume(&mut self) -> (r: &Token)
        requires
            old(self).cursor() < usize::MAX,
        ensures
            *r == old(self).spec_peek(),
            final(self).cursor() == old(self).cursor() + 1,
            final(self).toks() == old(self).toks(),
            final(self).eof_token() == old(self).eof_token(),
    {
        self.index = self.index + 1;
        if self.index - 1 < self.tokens.len() {
            &self.tokens[self.index - 1]
        } else {
            &self.eof
        }
    }

    /// Consumes the token under the cursor and returns its payload, when it
    /// is of kind `kind`.
    pub fn consume_as(&mut self, kind: u64) -> (r: Option<&TokenValue>)
        requires
            old(self).cursor() < usize::MAX,
        ensures
            final(self).cursor() == old(self).cursor() + 1,
            final(self).toks() == old(self).toks(),
            final(self).eof_token() == old(self).eof_token(),
            old(self).spec_peek().kind == kind ==> (r matches Some(v) && *v == old(
                self,
            ).spec_peek().value),
            old(self).spec_peek().kind != kind ==> r is None,
    {
        self.consume().try_as(kind)
    }

    /// Repositions the cursor unconditionally; used for backtracking.
    pub fn seek(&mut self, to_index: usize)
        ensures
            final(self).cursor() == to_index,
            final(self).toks() == old(self).toks(),
            final(self).eof_token() == old(self).eof_token(),
    {
        self.index = to_index;
    }

    /// Whether the token under the cursor is the end-marker.
    pub fn check_eof(&self) -> (r: bool)
        ensures
            r == (self.spec_peek().kind == EOF_KIND),
    {
        self.peek_is(EOF_KIND)
    }
}

/// The backing sequence and the cursor both fit the machine's sizes.
pub proof fn lemma_reader_bounds(r: &TokenReader)
    ensures
        0 <= r.cursor() <= usize::MAX,
        r.toks().len() <= usize::MAX,
{
    assert(r.tokens.len() == r.tokens@.len());
}

/// Law: every well-formed reader exposes the end-marker at every cursor at or
/// past the last backing position, so repeated `consume()` always reaches an
/// end-marker, whatever the reader was built from.
pub proof fn lemma_end_marker_reachable(r: TokenReader)
    requires
        r.wf(),
        r.cursor() >= r.toks().len() - 1,
    ensures
        r.spec_peek().kind == EOF_KIND,
        r.spec_peek().value == TokenValue::Unit,
{
}

} // verus!
