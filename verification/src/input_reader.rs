use vstd::prelude::*;

use crate::error::{TapeError, TapeResult};

verus! {

/// An incrementally filled character buffer with a cursor, the synchronous
/// core of reading from a sequential byte source. The buffer only grows; the
/// cursor counts the characters consumed so far and may be repositioned
/// freely, even past the data supplied so far. Whoever drives the reader
/// supplies further text with `fill` as the source yields it.
pub struct InputReader {
    buf: Vec<char>,
    index: usize,
}

impl InputReader {
    /// The characters supplied so far.
    pub closed spec fn buffer(&self) -> Seq<char> {
        self.buf@
    }

    /// The cursor: the count of characters consumed so far.
    pub closed spec fn cursor(&self) -> int {
        self.index as int
    }

    /// Creates a new, empty input reader.
    pub fn new() -> (r: Self)
        ensures
            r.buffer() == Seq::<char>::empty(),
            r.cursor() == 0,
    {
        InputReader { buf: Vec::new(), index: 0 }
    }

    /// Appends further characters from the source to the buffer.
    pub fn fill(&mut self, chunk: &[char])
        ensures
            final(self).buffer() == old(self).buffer() + chunk@,
            final(self).cursor() == old(self).cursor(),
    {
        let mut i: usize = 0;
        while i < chunk.len()
            invariant
                i <= chunk.len(),
                self.buf@ == old(self).buf@ + chunk@.subrange(0, i as int),
                self.index == old(self).index,
            decreases chunk.len() - i,
        {
            self.buf.push(chunk[i]);
            assert(chunk@.subrange(0, i + 1 as int) == chunk@.subrange(0, i as int).push(
                chunk@[i as int],
            ));
            i = i + 1;
        }
        assert(chunk@.subrange(0, chunk@.len() as int) == chunk@);
    }

    /// Whether a seek to `to_index` still wants more characters than the
    /// buffer holds; the driver keeps filling while this holds and the
    /// source has data.
    pub fn needs(&self, to_index: usize) -> (r: bool)
        ensures
            r == (to_index >= self.buffer().len()),
    {
        to_index >= self.buf.len()
    }

    /// Repositions the cursor. The position may lie beyond the buffer: reads
    /// there signal end-of-input rather than failing.
    pub fn seek_to(&mut self, to_index: usize)
        ensures
            final(self).cursor() == to_index,
            final(self).buffer() == old(self).buffer(),
    {
        self.index = to_index;
    }

    /// The character the cursor last consumed: an index error before any
    /// consumption, end-of-input when the cursor has outrun the buffer.
    fn read_current(&self) -> (r: TapeResult<char>)
        ensures
            self.cursor() == 0 ==> r == TapeResult::<char>::Err(TapeError::IndexError),
            1 <= self.cursor() <= self.buffer().len() ==> r == TapeResult::<char>::Ok(
                self.buffer()[self.cursor() - 1],
            ),
            self.cursor() > self.buffer().len() ==> r == TapeResult::<char>::Err(TapeError::EOF),
    {
        if self.index == 0 {
            return Err(TapeError::IndexError);
        }
        if self.index - 1 < self.buf.len() {
            Ok(self.buf[self.index - 1])
        } else {
            Err(TapeError::EOF)
        }
    }

    /// Consumes the next character and commits the cursor past it; signals
    /// end-of-input when the buffer has no character there.
    pub fn consume(&mut self) -> (r: TapeResult<char>)
        requires
            old(self).cursor() < usize::MAX,
        ensures
            final(self).cursor() == old(self).cursor() + 1,
            final(self).buffer() == old(self).buffer(),
            old(self).cursor() < old(self).buffer().len() ==> r == TapeResult::<char>::Ok(
                old(self).buffer()[old(self).cursor()],
            ),
            old(self).cursor() >= old(self).buffer().len() ==> r == TapeResult::<char>::Err(
                TapeError::EOF,
            ),
    {
        self.seek_to(self.index + 1);
        self.read_current()
    }

    /// The next character, without committing the cursor past it.
    pub fn peek(&self) -> (r: TapeResult<char>)
        ensures
            self.cursor() < self.buffer().len() ==> r == TapeResult::<char>::Ok(
                self.buffer()[self.cursor()],
            ),
            self.cursor() >= self.buffer().len() ==> r == TapeResult::<char>::Err(TapeError::EOF),
    {
        if self.index < self.buf.len() {
            Ok(self.buf[self.index])
        } else {
            Err(TapeError::EOF)
        }
    }

    /// Whether reading at the cursor would signal end-of-input.
    pub fn check_eof(&self) -> (r: bool)
        ensures
            r == (self.cursor() >= self.buffer().len()),
    {
        self.index >= self.buf.len()
    }

    /// The character consumed last, if there is one.
    pub fn previous(&self) -> (r: Option<char>)
        ensures
            1 <= self.cursor() <= self.buffer().len() ==> r == Some(
                self.buffer()[self.cursor() - 1],
            ),
            !(1 <= self.cursor() <= self.buffer().len()) ==> r is None,
    {
        match self.read_current() {
            Ok(c) => Some(c),
            Err(_) => None,
        }
    }

    /// The buffer and the cursor both fit the machine's sizes.
    pub proof fn lemma_bounds(&self)
        ensures
            0 <= self.cursor() <= usize::MAX,
            self.buffer().len() <= usize::MAX,
    {
        assert(self.buf.len() == self.buf@.len());
    }

    /// How many characters the buffer holds so far.
    pub fn buffered(&self) -> (r: usize)
        ensures
            r == self.buffer().len(),
    {
        self.buf.len()
    }

    /// The cursor position.
    pub fn index(&self) -> (r: usize)
        ensures
            r == self.cursor(),
    {
        self.index
    }
}

} // verus!
