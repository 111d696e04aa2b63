use charred::token::{Token, TokenValue, EOF_KIND};
use charred::token_reader::TokenReader;

const A_TOKEN: u64 = 2;
const B_TOKEN: u64 = 3;
const C_TOKEN: u64 = 4;

fn get_reader() -> TokenReader {
    let tokens = vec![
        Token::new(A_TOKEN, TokenValue::Unit),
        Token::new(B_TOKEN, TokenValue::Unit),
        Token::new(A_TOKEN, TokenValue::Unit),
        Token::new(C_TOKEN, TokenValue::Unit),
        Token::new(C_TOKEN, TokenValue::Unit),
        Token::new(EOF_KIND, TokenValue::Unit),
    ];

    TokenReader::new(tokens)
}

#[test]
fn peek_does_not_consume() {
    let reader = get_reader();

    assert!(reader.peek_is(A_TOKEN));
    assert!(!reader.peek_is(B_TOKEN));
    assert!(reader.peek_is(A_TOKEN));
}

#[test]
fn consume_does_consume() {
    let mut reader = get_reader();
    assert!(reader.consume_as(A_TOKEN).is_some());
    assert!(reader.consume_as(B_TOKEN).is_some());
    assert!(reader.consume_as(A_TOKEN).is_some());
    assert!(reader.consume_as(C_TOKEN).is_some());
}

#[test]
fn check_eof_works() {
    let mut reader = get_reader();
    reader.seek(4);
    assert!(!reader.check_eof());
    reader.seek(5);
    assert!(reader.check_eof());
}

#[test]
fn peek_and_consume_returns_eof_on_input_end() {
    let mut reader = get_reader();
    reader.seek(4);
    assert!(reader.consume_as(EOF_KIND).is_none());
    assert!(reader.consume_as(EOF_KIND).is_some());
    assert!(reader.consume_as(EOF_KIND).is_some());
    assert!(reader.consume_as(EOF_KIND).is_some());
    reader.seek(0);
    assert!(reader.consume_as(EOF_KIND).is_none());
}

#[test]
fn empty_reader_still_ends_in_marker() {
    let mut reader = TokenReader::new(Vec::new());
    assert!(reader.check_eof());
    assert!(reader.consume().is(EOF_KIND));
    assert!(reader.consume().is(EOF_KIND));
    assert!(reader.peek().is(EOF_KIND));
}
