use c_frontend::parser::util::{
    consume_identifier, consume_keyword, consume_literal, consume_punctuator, consume_token,
    expect_identifier, expect_keyword, expect_literal, expect_punctuator, ParseContext,
    ParseError, TokenKind,
};
use c_frontend::tokenizer::{tokenize, KeywordKind, Literal, PunctuatorKind, Token};

#[test]
fn a_new_cursor_stands_at_the_first_token() {
    let tokens = tokenize("a b").unwrap();
    let context = ParseContext::new(&tokens);
    assert_eq!(context.position(), 0);
    assert_eq!(context.peek(0), Token::Identifier("a"));
    assert_eq!(context.peek(1), Token::Identifier("b"));
    assert_eq!(context.peek(2), Token::End);
    assert_eq!(context.peek(3), Token::End);
    assert_eq!(context.peek(usize::MAX), Token::End);
}

#[test]
fn a_cursor_over_nothing_reads_the_end_marker() {
    let tokens: Vec<Token> = Vec::new();
    let mut context = ParseContext::new(&tokens);
    assert_eq!(context.peek(0), Token::End);
    assert!(!consume_punctuator(&mut context, PunctuatorKind::Semicolon));
    assert_eq!(consume_identifier(&mut context), None);
    assert_eq!(context.position(), 0);
}

#[test]
fn consume_token_moves_by_one() {
    let tokens = tokenize("a b").unwrap();
    let mut context = ParseContext::new(&tokens);
    consume_token(&mut context);
    assert_eq!(context.position(), 1);
    assert_eq!(context.peek(0), Token::Identifier("b"));
}

#[test]
fn consume_punctuator_moves_only_on_a_match() {
    let tokens = tokenize("; +").unwrap();
    let mut context = ParseContext::new(&tokens);
    assert!(!consume_punctuator(&mut context, PunctuatorKind::Plus));
    assert_eq!(context.position(), 0);
    assert!(consume_punctuator(&mut context, PunctuatorKind::Semicolon));
    assert_eq!(context.position(), 1);
    assert!(consume_punctuator(&mut context, PunctuatorKind::Plus));
    assert_eq!(context.position(), 2);
    assert!(!consume_punctuator(&mut context, PunctuatorKind::Plus));
    assert_eq!(context.position(), 2);
}

#[test]
fn expect_punctuator_reports_what_it_expected() {
    let tokens = tokenize(") x").unwrap();
    let mut context = ParseContext::new(&tokens);
    assert_eq!(
        expect_punctuator(&mut context, PunctuatorKind::LeftRoundBracket),
        Err(ParseError::ExpectedToken(TokenKind::Punctuator(PunctuatorKind::LeftRoundBracket)))
    );
    assert_eq!(context.position(), 0);
    assert_eq!(expect_punctuator(&mut context, PunctuatorKind::RightRoundBracket), Ok(()));
    assert_eq!(context.position(), 1);
}

#[test]
fn consume_keyword_moves_only_on_a_match() {
    let tokens = tokenize("if x").unwrap();
    let mut context = ParseContext::new(&tokens);
    assert!(!consume_keyword(&mut context, KeywordKind::While));
    assert_eq!(context.position(), 0);
    assert!(consume_keyword(&mut context, KeywordKind::If));
    assert_eq!(context.position(), 1);
    assert!(!consume_keyword(&mut context, KeywordKind::If));
}

#[test]
fn expect_keyword_reports_what_it_expected() {
    let tokens = tokenize("do").unwrap();
    let mut context = ParseContext::new(&tokens);
    assert_eq!(
        expect_keyword(&mut context, KeywordKind::While),
        Err(ParseError::ExpectedToken(TokenKind::Keyword(KeywordKind::While)))
    );
    assert_eq!(context.position(), 0);
    assert_eq!(expect_keyword(&mut context, KeywordKind::Do), Ok(()));
    assert_eq!(context.position(), 1);
}

#[test]
fn consume_identifier_returns_the_text_and_moves() {
    let tokens = tokenize("name 1").unwrap();
    let mut context = ParseContext::new(&tokens);
    assert_eq!(consume_identifier(&mut context), Some("name"));
    assert_eq!(context.position(), 1);
    assert_eq!(consume_identifier(&mut context), None);
    assert_eq!(context.position(), 1);
}

#[test]
fn expect_identifier_reports_a_missing_identifier() {
    let tokens = tokenize("1 name").unwrap();
    let mut context = ParseContext::new(&tokens);
    assert_eq!(expect_identifier(&mut context), Err(ParseError::ExpectedIdentifier));
    assert_eq!(context.position(), 0);
    consume_token(&mut context);
    assert_eq!(expect_identifier(&mut context), Ok("name"));
    assert_eq!(context.position(), 2);
}

#[test]
fn consume_literal_returns_the_literal_and_moves() {
    let tokens = tokenize("42 'c' \"s\" x").unwrap();
    let mut context = ParseContext::new(&tokens);
    assert_eq!(consume_literal(&mut context), Some(Literal::Number(42)));
    assert_eq!(consume_literal(&mut context), Some(Literal::Char('c')));
    assert_eq!(consume_literal(&mut context), Some(Literal::String("s")));
    assert_eq!(context.position(), 3);
    assert_eq!(consume_literal(&mut context), None);
    assert_eq!(context.position(), 3);
}

#[test]
fn expect_literal_reports_a_missing_literal() {
    let tokens = tokenize("x 1").unwrap();
    let mut context = ParseContext::new(&tokens);
    assert_eq!(expect_literal(&mut context), Err(ParseError::ExpectedLiteral));
    assert_eq!(context.position(), 0);
    consume_token(&mut context);
    assert_eq!(expect_literal(&mut context), Ok(Literal::Number(1)));
}

#[test]
fn nothing_consumes_the_end_marker() {
    let tokens = tokenize("").unwrap();
    let mut context = ParseContext::new(&tokens);
    assert!(!consume_punctuator(&mut context, PunctuatorKind::Semicolon));
    assert!(!consume_keyword(&mut context, KeywordKind::If));
    assert_eq!(consume_identifier(&mut context), None);
    assert_eq!(consume_literal(&mut context), None);
    assert_eq!(context.position(), 0);
}
