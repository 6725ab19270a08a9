use c_frontend::parser::util::{ParseError, TokenKind};
use c_frontend::text::{push_decimal, push_number, source_text};
use c_frontend::tokenizer::{KeywordKind, Literal, PunctuatorKind, Token};

#[test]
fn a_literal_as_a_person_reads_it() {
    assert_eq!(Literal::String("text").to_text(), "String:text");
    assert_eq!(Literal::Char('c').to_text(), "Char:c");
    assert_eq!(Literal::Number(42).to_text(), "Number:42");
    assert_eq!(Literal::Number(0).to_text(), "Number:0");
    assert_eq!(Literal::Number(-7).to_text(), "Number:-7");
}

#[test]
fn a_token_as_a_person_reads_it() {
    assert_eq!(
        Token::Punctuator(PunctuatorKind::LeftRoundBracket).to_text(),
        "Punctuator:LeftRoundBracket"
    );
    assert_eq!(Token::Keyword(KeywordKind::_Default).to_text(), "Keyword:_Default");
    assert_eq!(Token::Identifier("main").to_text(), "Identifier:main");
    assert_eq!(Token::Literal(Literal::Number(3)).to_text(), "Literal:Number:3");
    assert_eq!(Token::Literal(Literal::String("s")).to_text(), "Literal:String:s");
    assert_eq!(Token::End.to_text(), "End");
}

#[test]
fn names_are_the_names_of_the_variants() {
    for rank in 0..54u8 {
        let kind = PunctuatorKind::by_priority(rank);
        assert_eq!(kind.to_name(), format!("{:?}", kind));
    }
    for rank in 0..44u8 {
        let kind = KeywordKind::by_ordinal(rank);
        assert_eq!(kind.to_name(), format!("{:?}", kind));
    }
}

#[test]
fn numbers_are_written_in_base_ten() {
    let write = |value: i32| {
        let mut text = String::from("n=");
        push_number(&mut text, value);
        text
    };
    assert_eq!(write(0), "n=0");
    assert_eq!(write(9), "n=9");
    assert_eq!(write(10), "n=10");
    assert_eq!(write(1234567890), "n=1234567890");
    assert_eq!(write(i32::MAX), "n=2147483647");
    assert_eq!(write(-1), "n=-1");
    assert_eq!(write(i32::MIN), "n=-2147483648");
    let mut text = String::new();
    push_decimal(&mut text, u32::MAX);
    assert_eq!(text, "4294967295");
    for value in [0, 1, 10, 99, 100, 101, 65535, -32768] {
        assert_eq!(write(value), format!("n={}", value));
    }
}

#[test]
fn a_token_as_it_is_written() {
    let write = |token: Token| {
        let mut text = String::from(">");
        token.push_source(&mut text);
        text
    };
    assert_eq!(write(Token::Punctuator(PunctuatorKind::DoubleLessThansEqual)), "><<=");
    assert_eq!(write(Token::Keyword(KeywordKind::StaticAssert)), ">_Static_assert");
    assert_eq!(write(Token::Identifier("name")), ">name");
    assert_eq!(write(Token::Literal(Literal::String("a b"))), ">\"a b\"");
    assert_eq!(write(Token::Literal(Literal::Char('x'))), ">'x'");
    assert_eq!(write(Token::Literal(Literal::Number(12))), ">12");
    assert_eq!(write(Token::End), ">");
    let mut text = String::new();
    Literal::Char('\'').push_source(&mut text);
    assert_eq!(text, "'''");
}

#[test]
fn tokens_are_written_with_one_space_between_them() {
    let tokens = [
        Token::Keyword(KeywordKind::Return),
        Token::Literal(Literal::Number(0)),
        Token::Punctuator(PunctuatorKind::Semicolon),
    ];
    assert_eq!(source_text(&tokens), "return 0 ;");
    assert_eq!(source_text(&tokens[..1]), "return");
}

#[test]
fn what_was_missing_in_words() {
    assert_eq!(
        ParseError::ExpectedToken(TokenKind::Punctuator(PunctuatorKind::RightRoundBracket))
            .message(),
        "expected RightRoundBracket but not found."
    );
    assert_eq!(
        ParseError::ExpectedToken(TokenKind::Keyword(KeywordKind::While)).message(),
        "expected While but not found."
    );
    assert_eq!(ParseError::ExpectedIdentifier.message(), "expected identifier but not found.");
    assert_eq!(ParseError::ExpectedLiteral.message(), "expected literal but not found.");
    assert_eq!(ParseError::ExpectedExpression.message(), "expression is expected but not found.");
    assert_eq!(ParseError::ExpectedStatement.message(), "statement is expected but not found.");
    assert_eq!(
        ParseError::ExpectedDeclaration.message(),
        "declaration is expected but not found."
    );
}
