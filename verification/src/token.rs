use vstd::prelude::*;

verus! {

/// The token kind reserved for the end-marker token.
pub const EOF_KIND: u64 = 0;

/// The token kind reserved for the single-character fallback token.
pub const UNKNOWN_KIND: u64 = 1;

/// The payload a token can carry.
#[derive(Debug, Clone, PartialEq, Eq)]
pub enum TokenValue {
    /// No payload: a pure marker token.
    Unit,
    /// A single character.
    Character(char),
    /// An integer.
    Integer(i64),
    /// A piece of text.
    Text(String),
}

/// One token: a payload value together with the runtime identity of its kind.
/// Recovering the payload under the wrong kind fails cleanly with `None`,
/// never through undefined behavior.
#[derive(Debug, Clone, PartialEq, Eq)]
pub struct Token {
    pub kind: u64,
    pub value: TokenValue,
}

impl Token {
    /// Constructs a new token of kind `kind` carrying `value`.
    pub fn new(kind: u64, value: TokenValue) -> (t: Self)
        ensures
            t.kind == kind,
            t.value == value,
    {
        Token { kind, value }
    }

    /// The payload, when the token is of kind `kind`.
    pub fn try_as(&self, kind: u64) -> (r: Option<&TokenValue>)
        ensures
            self.kind == kind ==> (r matches Some(v) && *v == self.value),
            self.kind != kind ==> r is None,
    {
        if self.kind == kind {
            Some(&self.value)
        } else {
            None
        }
    }

    /// The payload by value, when the token is of kind `kind`.
    pub fn try_into(self, kind: u64) -> (r: Option<TokenValue>)
        ensures
            self.kind == kind ==> r == Some(self.value),
            self.kind != kind ==> r is None,
    {
        if self.kind == kind {
            Some(self.value)
        } else {
            None
        }
    }

    /// Whether the token is of kind `kind`.
    pub fn is(&self, kind: u64) -> (r: bool)
        ensures
            r == (self.kind == kind),
    {
        self.kind == kind
    }

    /// The kind identity of the stored payload.
    pub fn inner_type_id(&self) -> (r: u64)
        ensures
            r == self.kind,
    {
        self.kind
    }
}

/// Marker for the single-character fallback token the lexer produces when no
/// recognizer matches.
pub struct UnknownToken(pub char);

impl UnknownToken {
    /// The token carrying this unmatched character.
    pub fn token(self) -> (t: Token)
        ensures
            t == (Token { kind: UNKNOWN_KIND, value: TokenValue::Character(self.0) }),
    {
        Token::new(UNKNOWN_KIND, TokenValue::Character(self.0))
    }
}

/// Marker for the end-marker token.
pub struct EOFToken;

impl EOFToken {
    /// The end-marker token.
    pub fn token() -> (t: Token)
        ensures
            t == (Token { kind: EOF_KIND, value: TokenValue::Unit }),
    {
        Token::new(EOF_KIND, TokenValue::Unit)
    }
}

} // verus!
