use charred::error::TapeError;
use charred::input_reader::InputReader;

fn get_reader() -> InputReader {
    let data = "ABCDEFG HIJKLMNOP 12345567890\nSecond Line\n\n";
    let mut reader = InputReader::new();
    let chars: Vec<char> = data.chars().collect();
    reader.fill(&chars);
    reader
}

#[test]
fn it_peeks() {
    let reader = get_reader();
    assert_eq!(reader.peek().unwrap(), 'A');
    assert_eq!(reader.peek().unwrap(), 'A');
    assert_eq!(reader.peek().unwrap(), 'A');
}

#[test]
fn it_reads_the_previous() {
    let mut reader = get_reader();
    assert!(reader.previous().is_none());
    reader.consume().unwrap();
    assert_eq!(reader.previous().unwrap(), 'A');
    assert_eq!(reader.previous().unwrap(), 'A');
    reader.consume().unwrap();
    assert_eq!(reader.previous().unwrap(), 'B');
}

#[test]
fn it_consumes() {
    let mut reader = get_reader();
    assert_eq!(reader.consume().unwrap(), 'A');
    assert_eq!(reader.consume().unwrap(), 'B');
    assert_eq!(reader.consume().unwrap(), 'C');
}

#[test]
fn it_checks_for_eof() {
    let mut reader = get_reader();
    reader.seek_to(29);
    assert!(!reader.check_eof());
    reader.seek_to(47);
    assert!(matches!(reader.consume(), Err(TapeError::EOF)));
    assert!(reader.check_eof());
}

#[test]
fn filling_only_grows_the_buffer() {
    let mut reader = InputReader::new();
    assert!(reader.check_eof());
    reader.fill(&['h', 'i']);
    assert!(!reader.check_eof());
    assert_eq!(reader.consume().unwrap(), 'h');
    assert_eq!(reader.index(), 1);
    assert!(reader.needs(2));
    reader.fill(&['!']);
    assert!(!reader.needs(2));
    assert_eq!(reader.consume().unwrap(), 'i');
    assert_eq!(reader.consume().unwrap(), '!');
    assert!(reader.check_eof());
}
