use vstd::prelude::*;

use crate::error::TapeResult;
use crate::input_reader::InputReader;
use crate::token::{Token, TokenValue, EOFToken, UnknownToken, EOF_KIND, UNKNOWN_KIND};

verus! {

/// A recognizer: attempts to produce one token from the reader's current
/// position. A recognizer never grows the text buffer, and when it produces
/// a token it leaves the cursor past at least one consumed character and
/// within the supplied text; on no-match or error it may leave the cursor
/// anywhere (the lexer restores it before trying the next recognizer).
pub trait TokenChecker {
    fn try_parse(&self, reader: &mut InputReader) -> (r: TapeResult<Option<Token>>)
        ensures
            final(reader).buffer() == old(reader).buffer(),
            (r matches Ok(t) && t is Some) ==> old(reader).cursor() < final(reader).cursor()
                <= final(reader).buffer().len(),
    ;
}

/// One single-character fallback token for every character of `b` between
/// positions `from` and `upto`.
pub open spec fn unknown_tokens_range(b: Seq<char>, from: int, upto: int) -> Seq<Token>
    decreases upto - from,
{
    if 0 <= from < upto <= b.len() {
        unknown_tokens_range(b, from, upto - 1).push(
            Token { kind: UNKNOWN_KIND, value: TokenValue::Character(b[upto - 1]) },
        )
    } else {
        Seq::<Token>::empty()
    }
}

/// One single-character fallback token for every character of `b` from
/// position `from` on.
pub open spec fn unknown_tokens_from(b: Seq<char>, from: int) -> Seq<Token> {
    unknown_tokens_range(b, from, b.len() as int)
}

/// A recognizer for one fixed character: it produces a token of the given
/// kind carrying the character when that character stands at the cursor.
pub struct CharChecker {
    pub wanted: char,
    pub kind: u64,
}

impl TokenChecker for CharChecker {
    fn try_parse(&self, reader: &mut InputReader) -> (r: TapeResult<Option<Token>>)
        ensures
            (old(reader).cursor() < old(reader).buffer().len() && old(reader).buffer()[old(
                reader,
            ).cursor()] == self.wanted) ==> (r matches Ok(Some(t)) && t == (Token {
                kind: self.kind,
                value: TokenValue::Character(self.wanted),
            }) && final(reader).cursor() == old(reader).cursor() + 1),
            !(old(reader).cursor() < old(reader).buffer().len() && old(reader).buffer()[old(
                reader,
            ).cursor()] == self.wanted) ==> (r matches Ok(None)) && *final(reader) == *old(reader),
    {
        proof {
            reader.lemma_bounds();
        }
        match reader.peek() {
            Ok(c) => {
                if c == self.wanted {
                    match reader.consume() {
                        Ok(got) => Ok(Some(Token::new(self.kind, TokenValue::Character(got)))),
                        Err(e) => Err(e),
                    }
                } else {
                    Ok(None)
                }
            },
            Err(_) => Ok(None),
        }
    }
}

/// Drives an input reader through an ordered list of recognizers, turning the
/// character stream into a token stream.
pub struct Lexer<C> {
    reader: InputReader,
    checkers: Vec<C>,
}

impl<C: TokenChecker> Lexer<C> {
    /// The reader being scanned.
    pub closed spec fn spec_reader(&self) -> InputReader {
        self.reader
    }

    /// The ordered recognizers.
    pub closed spec fn spec_checkers(&self) -> Seq<C> {
        self.checkers@
    }

    /// Creates a new lexer over `reader` with the given recognizers, tried in
    /// order.
    pub fn new(reader: InputReader, checkers: Vec<C>) -> (r: Self)
        ensures
            r.spec_reader() == reader,
            r.spec_checkers() == checkers@,
    {
        Lexer { reader, checkers }
    }

    /// Scans the whole input into tokens. At each position the first
    /// recognizer to produce a token wins; when none does, exactly one
    /// character is consumed into a single-character unknown token, so the
    /// scan always moves forward and unmatched runs never coalesce. A scan
    /// only succeeds once the cursor has passed the whole supplied text, and
    /// the token list then ends in the end-marker token, appended once. A
    /// recognizer's hard error aborts the scan.
    pub fn scan(&mut self) -> (r: TapeResult<Vec<Token>>)
        ensures
            final(self).spec_reader().buffer() == old(self).spec_reader().buffer(),
            r is Ok ==> final(self).spec_reader().cursor() >= final(self).spec_reader().buffer().len(),
            r matches Ok(toks) ==> toks@.len() >= 1 && toks@.last().kind == EOF_KIND
                && toks@.last().value == TokenValue::Unit,
            old(self).spec_checkers().len() == 0 ==> (r matches Ok(toks) && toks@
                == unknown_tokens_from(
                old(self).spec_reader().buffer(),
                old(self).spec_reader().cursor(),
            ).push(Token { kind: EOF_KIND, value: TokenValue::Unit })),
    {
        let mut tokens: Vec<Token> = Vec::new();
        proof {
            self.reader.lemma_bounds();
        }
        let ghost b0 = self.reader.buffer();
        let ghost c0 = self.reader.cursor();
        while !self.reader.check_eof()
            invariant
                self.reader.buffer() == b0,
                b0 == old(self).spec_reader().buffer(),
                c0 == old(self).spec_reader().cursor(),
                self.spec_checkers() == old(self).spec_checkers(),
                0 <= c0,
                self.spec_checkers().len() == 0 ==> c0 <= self.reader.cursor(),
                self.spec_checkers().len() == 0 ==> (self.reader.cursor() <= b0.len()
                    || self.reader.cursor() == c0),
                self.spec_checkers().len() == 0 ==> tokens@ == unknown_tokens_range(
                    b0,
                    c0,
                    if self.reader.cursor() <= b0.len() {
                        self.reader.cursor()
                    } else {
                        c0
                    },
                ),
            decreases self.reader.buffer().len() - self.reader.cursor(),
        {
            let index = self.reader.index();
            let mut found = false;
            let mut i: usize = 0;
            let ghost t0 = tokens@;
            while i < self.checkers.len()
                invariant_except_break
                    !found,
                    self.reader.cursor() == index,
                    tokens@ == t0,
                invariant
                    i <= self.checkers.len(),
                    self.reader.buffer() == b0,
                    self.spec_checkers() == old(self).spec_checkers(),
                    b0 == old(self).spec_reader().buffer(),
                    index < b0.len(),
                ensures
                    self.reader.buffer() == b0,
                    self.spec_checkers() == old(self).spec_checkers(),
                    found ==> self.spec_checkers().len() > 0,
                    found ==> index < self.reader.cursor() <= b0.len(),
                    !found ==> self.reader.cursor() == index,
                    !found ==> tokens@ == t0,
                decreases self.checkers.len() - i,
            {
                let outcome = self.checkers[i].try_parse(&mut self.reader);
                match outcome {
                    Ok(Some(token)) => {
                        tokens.push(token);
                        found = true;
                        break ;
                    },
                    Ok(None) => {
                        self.reader.seek_to(index);
                    },
                    Err(e) => {
                        return Err(e);
                    },
                }
                i = i + 1;
            }
            if !found {
                proof {
                    self.reader.lemma_bounds();
                }
                match self.reader.consume() {
                    Ok(c) => {
                        tokens.push(UnknownToken(c).token());
                    },
                    Err(e) => {
                        return Err(e);
                    },
                }
            }
        }
        tokens.push(EOFToken::token());
        Ok(tokens)
    }
}

} // verus!
