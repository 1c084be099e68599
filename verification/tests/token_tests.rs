//! Tests of the tokenizer: token identification, positions, literals and
//! the lexical failure kinds.
use graze::token::{ErrorKind, Number, Payload, Position, StringTokenizer};

fn payload(tokenizer: &mut StringTokenizer) -> Payload {
    tokenizer.read_token().unwrap().payload
}

#[test]
fn test_correct_source_positions() {
    let input = "func1\nfunc2";
    let mut tokenizer = StringTokenizer::new(input);

    let token1 = tokenizer.read_token().unwrap();
    assert_eq!(token1.position, Position { line: 0, column: 5 });

    let token2 = tokenizer.read_token().unwrap();
    assert_eq!(token2.position, Position { line: 1, column: 0 });

    let token3 = tokenizer.read_token().unwrap();
    assert_eq!(token3.position, Position { line: 1, column: 5 });
}

#[test]
fn test_correct_identification_of_tokens() {
    let input = "func1 $var1 123 ; ( ) =>";
    let mut tokenizer = StringTokenizer::new(input);

    assert!(matches!(payload(&mut tokenizer), Payload::Name(_)));
    assert!(matches!(payload(&mut tokenizer), Payload::Variable(_)));
    assert!(matches!(payload(&mut tokenizer), Payload::LitNumber(_)));
    assert!(matches!(payload(&mut tokenizer), Payload::Concat));
    assert!(matches!(payload(&mut tokenizer), Payload::ParenL));
    assert!(matches!(payload(&mut tokenizer), Payload::ParenR));
    assert!(matches!(payload(&mut tokenizer), Payload::Pipe));
    assert!(matches!(payload(&mut tokenizer), Payload::Eof));
}

#[test]
fn test_edge_cases_for_number_literals() {
    let input = "0 12345678901234567890";
    let mut tokenizer = StringTokenizer::new(input);

    assert_eq!(payload(&mut tokenizer), Payload::LitNumber(Number::Integer(0)));
    assert_eq!(
        payload(&mut tokenizer),
        Payload::LitNumber(Number::Integer(12345678901234567890))
    );
}

#[test]
fn test_newlines() {
    let input = "func1\r\n   $var1\n  123";
    let mut tokenizer = StringTokenizer::new(input);

    assert_eq!(payload(&mut tokenizer), Payload::Name(String::from("func1")));
    assert_eq!(payload(&mut tokenizer), Payload::Newline);
    assert_eq!(payload(&mut tokenizer), Payload::Variable(String::from("var1")));
    assert_eq!(payload(&mut tokenizer), Payload::Newline);
    assert_eq!(payload(&mut tokenizer), Payload::LitNumber(Number::Integer(123)));
}

#[test]
fn test_integer_literal_too_large_for_u64() {
    // one past u64::MAX
    let input = "18446744073709551616";
    let mut tokenizer = StringTokenizer::new(input);
    let err = tokenizer.read_token().unwrap_err();
    assert_eq!(err.kind, ErrorKind::InvalidLiteral);
}

#[test]
fn test_u64_max_is_still_a_literal() {
    let input = "18446744073709551615";
    let mut tokenizer = StringTokenizer::new(input);
    assert_eq!(
        payload(&mut tokenizer),
        Payload::LitNumber(Number::Integer(u64::MAX))
    );
}

#[test]
fn test_carriage_return_without_line_feed_fails() {
    let input = "a\rb";
    let mut tokenizer = StringTokenizer::new(input);
    assert!(tokenizer.read_token().is_ok());
    let err = tokenizer.read_token().unwrap_err();
    assert_eq!(err.kind, ErrorKind::InvalidCRLFSequence);
}

#[test]
fn test_equals_without_greater_fails() {
    let input = "= 1";
    let mut tokenizer = StringTokenizer::new(input);
    let err = tokenizer.read_token().unwrap_err();
    assert_eq!(err.kind, ErrorKind::InvalidPipe);
}

#[test]
fn test_dollar_without_name_fails() {
    let input = "$ x";
    let mut tokenizer = StringTokenizer::new(input);
    let err = tokenizer.read_token().unwrap_err();
    assert_eq!(err.kind, ErrorKind::EmptyVariableName);
}

#[test]
fn test_bang_with_newline_and_without() {
    let mut ok = StringTokenizer::new("!\n");
    assert_eq!(ok.read_token().unwrap().payload, Payload::VoidNewline);

    let mut bad = StringTokenizer::new("!x");
    let err = bad.read_token().unwrap_err();
    assert_eq!(err.kind, ErrorKind::ExpectedNewlineAfterBang);
}

#[test]
fn test_let_is_reserved_but_prefixed_names_are_not() {
    let mut tokenizer = StringTokenizer::new("let letter $let");
    assert_eq!(tokenizer.read_token().unwrap().payload, Payload::Let);
    assert_eq!(
        tokenizer.read_token().unwrap().payload,
        Payload::Name(String::from("letter"))
    );
    assert_eq!(
        tokenizer.read_token().unwrap().payload,
        Payload::Variable(String::from("let"))
    );
}

#[test]
fn test_peek_does_not_consume() {
    let mut tokenizer = StringTokenizer::new("foo 1");
    let peeked = tokenizer.peek_token().unwrap();
    let read = tokenizer.read_token().unwrap();
    assert_eq!(peeked, read);
    assert_eq!(
        tokenizer.read_token().unwrap().payload,
        Payload::LitNumber(Number::Integer(1))
    );
}

#[test]
fn test_eof_is_idempotent() {
    let mut tokenizer = StringTokenizer::new("  ");
    assert_eq!(tokenizer.read_token().unwrap().payload, Payload::Eof);
    assert_eq!(tokenizer.read_token().unwrap().payload, Payload::Eof);
}

#[test]
fn test_current_and_advance() {
    let mut tokenizer = StringTokenizer::new("ab");
    assert_eq!(tokenizer.current(), Some('a'));
    assert_eq!(tokenizer.advance(), Some('a'));
    assert_eq!(tokenizer.current(), Some('b'));
    assert_eq!(tokenizer.advance(), Some('b'));
    assert_eq!(tokenizer.current(), None);
    assert_eq!(tokenizer.advance(), None);
    assert_eq!(tokenizer.position(), Position { line: 0, column: 2 });
}

#[test]
fn test_tokenize_a_single_integer_literal() {
    let mut tokenizer = StringTokenizer::new("42");
    assert_eq!(
        tokenizer.read_token().unwrap().payload,
        Payload::LitNumber(Number::Integer(42))
    );
    assert_eq!(tokenizer.read_token().unwrap().payload, Payload::Eof);
}

#[test]
fn test_tokenize_a_variable() {
    let mut tokenizer = StringTokenizer::new("$x");
    assert_eq!(
        tokenizer.read_token().unwrap().payload,
        Payload::Variable(String::from("x"))
    );
}
