//! Tests of the parser: expression forms, instruction separators, blank
//! lines and the syntactic failure kinds.
use graze::ast::{
    parse_arg, parse_expr, parse_file, parse_instruction, Argument, ErrorKind,
    ExpressionContent, Literal,
};
use graze::token::{Number, Payload, StringTokenizer};

#[test]
fn test_parse_literal_number() {
    let input = "42";
    let mut source = StringTokenizer::new(input);
    let result = parse_expr(&mut source).unwrap();
    assert_eq!(
        result,
        Some(ExpressionContent::Literal(Literal::Number(Number::Integer(42))))
    );
}

#[test]
fn test_parse_variable() {
    let input = "$x";
    let mut source = StringTokenizer::new(input);
    let result = parse_expr(&mut source).unwrap();
    assert_eq!(result, Some(ExpressionContent::Variable(String::from("x"))));
}

#[test]
fn test_parse_function_call() {
    let input = "foo 42 $x";
    let mut source = StringTokenizer::new(input);
    let result = parse_expr(&mut source).unwrap();
    assert_eq!(
        result,
        Some(ExpressionContent::FunctionCall {
            name: String::from("foo"),
            args: vec![
                Argument::Literal(Literal::Number(Number::Integer(42))),
                Argument::Variable(String::from("x")),
            ],
        })
    );
}

#[test]
fn test_parse_let_statement() {
    let input = "let x 42";
    let mut source = StringTokenizer::new(input);
    let result = parse_expr(&mut source).unwrap();
    assert_eq!(
        result,
        Some(ExpressionContent::Let {
            name: String::from("x"),
            init: Some(Argument::Literal(Literal::Number(Number::Integer(42)))),
        })
    );
}

#[test]
fn test_parse_parenthesized_expression() {
    let input = "(42)";
    let mut source = StringTokenizer::new(input);
    let result = parse_arg(&mut source).unwrap();
    assert_eq!(
        result,
        Some(Argument::Parenthesized(Box::new(ExpressionContent::Literal(
            Literal::Number(Number::Integer(42))
        ))))
    );
}

#[test]
fn test_parse_instruction() {
    let input = "42 => let x";
    let mut source = StringTokenizer::new(input);
    let result = parse_instruction(&mut source).unwrap();
    assert!(result.is_some());
    let instruction = result.unwrap();
    assert_eq!(instruction.expressions.len(), 2);
    assert_eq!(
        instruction.expressions[0].content,
        ExpressionContent::Literal(Literal::Number(Number::Integer(42)))
    );
    assert!(!instruction.expressions[0].draw_result);
    assert_eq!(
        instruction.expressions[1].content,
        ExpressionContent::Let { name: String::from("x"), init: None }
    );
    assert!(instruction.expressions[1].draw_result);
}

#[test]
fn test_parse_file() {
    let input = "42 ; print \nfoo 42 $x\nlet y 42";
    let mut source = StringTokenizer::new(input);
    let result = parse_file(&mut source).unwrap();
    assert_eq!(result.instructions.len(), 3);
}

#[test]
fn test_unexpected_token_error() {
    let input = "42 @";
    let mut source = StringTokenizer::new(input);
    let result = parse_instruction(&mut source);
    assert!(result.is_err());
    let error = result.unwrap_err();
    assert_eq!(
        error.kind,
        ErrorKind::UnexpectedToken(Payload::Name(String::from("@")))
    );
}

#[test]
fn test_expected_identifier_error() {
    let input = "let 42";
    let mut source = StringTokenizer::new(input);
    let result = parse_expr(&mut source);
    assert!(result.is_err());
    let error = result.unwrap_err();
    assert_eq!(error.kind, ErrorKind::ExpectedIdentifier);
}

#[test]
fn test_unclosed_delimiter_error() {
    let input = "(42";
    let mut source = StringTokenizer::new(input);
    let result = parse_arg(&mut source);
    assert!(result.is_err());
    let error = result.unwrap_err();
    assert_eq!(error.kind, ErrorKind::UnclosedDelimiter);
}

#[test]
fn test_parse_screen_needs_two_arguments() {
    let mut good = StringTokenizer::new("screen 800 600");
    let result = parse_expr(&mut good).unwrap();
    assert_eq!(
        result,
        Some(ExpressionContent::Screen(
            Argument::Literal(Literal::Number(Number::Integer(800))),
            Argument::Literal(Literal::Number(Number::Integer(600))),
        ))
    );

    let mut bad = StringTokenizer::new("screen 800");
    let error = parse_expr(&mut bad).unwrap_err();
    assert_eq!(error.kind, ErrorKind::ExpectedExpression);
}

#[test]
fn test_blank_lines_are_skipped() {
    let input = "\n\n42\n\n";
    let mut source = StringTokenizer::new(input);
    let result = parse_file(&mut source).unwrap();
    assert_eq!(result.instructions.len(), 1);
    assert_eq!(result.instructions[0].expressions.len(), 1);
}

#[test]
fn test_tokenizer_error_surfaces_as_invalid_token() {
    let input = "42 =1";
    let mut source = StringTokenizer::new(input);
    let error = parse_instruction(&mut source).unwrap_err();
    assert!(matches!(error.kind, ErrorKind::InvalidToken(_)));
}

#[test]
fn test_nested_parenthesized_argument() {
    let input = "add (add 1 2) 3";
    let mut source = StringTokenizer::new(input);
    let result = parse_expr(&mut source).unwrap().unwrap();
    match result {
        ExpressionContent::FunctionCall { name, args } => {
            assert_eq!(name, "add");
            assert_eq!(args.len(), 2);
            assert!(matches!(args[0], Argument::Parenthesized(_)));
            assert_eq!(args[1], Argument::Literal(Literal::Number(Number::Integer(3))));
        },
        other => panic!("expected a function call, got {:?}", other),
    }
}
