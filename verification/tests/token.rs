use charred::error::TapeResult;
use charred::input_reader::InputReader;
use charred::token::{Token, TokenValue};

const TEST_TOKEN: u64 = 20;
const OTHER_TOKEN: u64 = 21;

fn try_parse_number(reader: &mut InputReader) -> TapeResult<Option<Token>> {
    let mut num = String::new();
    while !reader.check_eof() && reader.peek()?.is_numeric() {
        num.push(reader.consume()?);
    }
    if num.is_empty() {
        Ok(None)
    } else {
        Ok(Some(Token::new(
            TEST_TOKEN,
            TokenValue::Integer(num.parse::<i64>().unwrap()),
        )))
    }
}

fn reader_over(text: &str) -> InputReader {
    let mut reader = InputReader::new();
    let chars: Vec<char> = text.chars().collect();
    reader.fill(&chars);
    reader
}

#[test]
fn it_parses() {
    let mut reader = reader_over("128");
    let token = try_parse_number(&mut reader).unwrap();
    assert!(token.is_some());
    let value = token.unwrap().try_into(TEST_TOKEN).unwrap();
    assert_eq!(value, TokenValue::Integer(128));

    let mut reader = reader_over("string a12 24\n");
    let token = try_parse_number(&mut reader).unwrap();
    assert!(token.is_none());
    reader.seek_to(8);

    let token = try_parse_number(&mut reader).unwrap();
    assert!(token.is_some());
    let value = token.unwrap().try_into(TEST_TOKEN).unwrap();
    assert_eq!(value, TokenValue::Integer(12));
}

#[test]
fn it_converts() {
    let token = Token::new(TEST_TOKEN, TokenValue::Integer(12));
    assert!(token.is(TEST_TOKEN));

    let test_token = token.try_as(TEST_TOKEN);
    assert!(test_token.is_some());
    assert_eq!(*test_token.unwrap(), TokenValue::Integer(12));

    let test_token = token.try_into(TEST_TOKEN);
    assert!(test_token.is_some());
    assert_eq!(test_token.unwrap(), TokenValue::Integer(12));
}

#[test]
fn wrong_kind_downcast_fails_cleanly() {
    let token = Token::new(TEST_TOKEN, TokenValue::Integer(12));
    assert!(!token.is(OTHER_TOKEN));
    assert!(token.try_as(OTHER_TOKEN).is_none());
    assert_eq!(token.inner_type_id(), TEST_TOKEN);
    assert!(token.try_into(OTHER_TOKEN).is_none());
}
