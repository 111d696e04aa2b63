//! A lexing toolkit: an escape-aware character tape with backtracking, a
//! buffered character reader over a sequential source, kind-tagged tokens
//! with safe downcasts, a token-stream reader with a guaranteed end-marker,
//! a lexer driven by pluggable recognizers, and token-matching combinators
//! with rewind-on-failure. Every operation carries a contract over the
//! component's mathematical model, and the machine-checked laws live beside
//! the types they speak about.

pub mod error;
pub mod input_reader;
pub mod lexer;
pub mod matching;
pub mod tapemachine;
pub mod token;
pub mod token_reader;
