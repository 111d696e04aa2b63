use vstd::prelude::*;

verus! {

/// An error raised by the streaming reader, the lexer, or a recognizer.
#[derive(Debug, Clone, PartialEq, Eq)]
pub enum TapeError {
    /// An input/output failure in the byte source, carried as its message.
    TokioIoError(String),
    /// The input ended where more of it was needed.
    EOF,
    /// The cursor stood where no character can be read.
    IndexError,
}

pub type TapeResult<T> = Result<T, TapeError>;

} // verus!
