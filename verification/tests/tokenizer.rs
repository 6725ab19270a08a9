use c_frontend::tokenizer::{
    is_digit, is_identifier_body, is_identifier_head, is_whitespace, tokenize, KeywordKind,
    Literal, PunctuatorKind, Token, TokenizeError,
};

fn punctuator(kind: PunctuatorKind) -> Token<'static> {
    Token::Punctuator(kind)
}

#[test]
fn empty_input_gives_end_only() {
    assert_eq!(tokenize(""), Ok(vec![Token::End]));
}

#[test]
fn whitespace_only_gives_end_only() {
    assert_eq!(tokenize(" \t\r\n  "), Ok(vec![Token::End]));
}

#[test]
fn tokenizes_a_function() {
    assert_eq!(
        tokenize("int main() { return 0; }"),
        Ok(vec![
            Token::Keyword(KeywordKind::Int),
            Token::Identifier("main"),
            punctuator(PunctuatorKind::LeftRoundBracket),
            punctuator(PunctuatorKind::RightRoundBracket),
            punctuator(PunctuatorKind::LeftCurlyBracket),
            Token::Keyword(KeywordKind::Return),
            Token::Literal(Literal::Number(0)),
            punctuator(PunctuatorKind::Semicolon),
            punctuator(PunctuatorKind::RightCurlyBracket),
            Token::End,
        ])
    );
}

#[test]
fn shift_assign_is_one_token() {
    assert_eq!(
        tokenize("<<="),
        Ok(vec![punctuator(PunctuatorKind::DoubleLessThansEqual), Token::End])
    );
}

#[test]
fn longer_punctuators_win_over_their_prefixes() {
    assert_eq!(
        tokenize("%:%: %: % ... . >>= >> >= > -> -- -= - ++ += + && &= & || |= | ## # <: <% << <= <"),
        Ok(vec![
            punctuator(PunctuatorKind::DoublePercentColons),
            punctuator(PunctuatorKind::PercentColon),
            punctuator(PunctuatorKind::Percent),
            punctuator(PunctuatorKind::TripleDots),
            punctuator(PunctuatorKind::Dot),
            punctuator(PunctuatorKind::DoubleGreaterThansEqual),
            punctuator(PunctuatorKind::DoubleGreaterThans),
            punctuator(PunctuatorKind::GreaterThanEqual),
            punctuator(PunctuatorKind::GreaterThan),
            punctuator(PunctuatorKind::Arrow),
            punctuator(PunctuatorKind::DoubleMinuses),
            punctuator(PunctuatorKind::MinusEqual),
            punctuator(PunctuatorKind::Minus),
            punctuator(PunctuatorKind::DoublePluses),
            punctuator(PunctuatorKind::PlusEqual),
            punctuator(PunctuatorKind::Plus),
            punctuator(PunctuatorKind::DoubleAmpersands),
            punctuator(PunctuatorKind::AmpersandEqual),
            punctuator(PunctuatorKind::Ampersand),
            punctuator(PunctuatorKind::DoublePipelines),
            punctuator(PunctuatorKind::PipelineEqual),
            punctuator(PunctuatorKind::Pipeline),
            punctuator(PunctuatorKind::DoubleSharps),
            punctuator(PunctuatorKind::Sharp),
            punctuator(PunctuatorKind::LessThanColon),
            punctuator(PunctuatorKind::LessThanPercent),
            punctuator(PunctuatorKind::DoubleLessThans),
            punctuator(PunctuatorKind::LessThanEqual),
            punctuator(PunctuatorKind::LessThan),
            Token::End,
        ])
    );
}

#[test]
fn adjacent_punctuators_split_by_longest_match() {
    assert_eq!(
        tokenize("a+++b"),
        Ok(vec![
            Token::Identifier("a"),
            punctuator(PunctuatorKind::DoublePluses),
            punctuator(PunctuatorKind::Plus),
            Token::Identifier("b"),
            Token::End,
        ])
    );
    assert_eq!(
        tokenize("...."),
        Ok(vec![
            punctuator(PunctuatorKind::TripleDots),
            punctuator(PunctuatorKind::Dot),
            Token::End,
        ])
    );
}

#[test]
fn every_punctuator_is_read_from_its_spelling() {
    for rank in 0..54u8 {
        let kind = PunctuatorKind::by_priority(rank);
        assert_eq!(tokenize(kind.symbol()), Ok(vec![Token::Punctuator(kind), Token::End]));
    }
}

#[test]
fn every_keyword_is_read_from_its_spelling() {
    for rank in 0..44u8 {
        let kind = KeywordKind::by_ordinal(rank);
        assert_eq!(tokenize(kind.word()), Ok(vec![Token::Keyword(kind), Token::End]));
    }
}

#[test]
fn the_priority_list_has_each_punctuator_once() {
    for rank in 0..54u8 {
        for other in 0..rank {
            assert_ne!(PunctuatorKind::by_priority(rank), PunctuatorKind::by_priority(other));
        }
    }
    for rank in 1..54u8 {
        assert!(
            PunctuatorKind::by_priority(rank - 1).symbol().len()
                >= PunctuatorKind::by_priority(rank).symbol().len()
        );
    }
}

#[test]
fn a_keyword_inside_an_identifier_is_no_keyword() {
    assert_eq!(
        tokenize("integer do double doubled _Boolean if0 for_"),
        Ok(vec![
            Token::Identifier("integer"),
            Token::Keyword(KeywordKind::Do),
            Token::Keyword(KeywordKind::Double),
            Token::Identifier("doubled"),
            Token::Identifier("_Boolean"),
            Token::Identifier("if0"),
            Token::Identifier("for_"),
            Token::End,
        ])
    );
}

#[test]
fn identifiers_hold_letters_digits_and_underscores() {
    assert_eq!(
        tokenize("_ _a1 A_9z x"),
        Ok(vec![
            Token::Identifier("_"),
            Token::Identifier("_a1"),
            Token::Identifier("A_9z"),
            Token::Identifier("x"),
            Token::End,
        ])
    );
}

#[test]
fn a_number_ends_where_its_digits_end() {
    assert_eq!(
        tokenize("12ab 007"),
        Ok(vec![
            Token::Literal(Literal::Number(12)),
            Token::Identifier("ab"),
            Token::Literal(Literal::Number(7)),
            Token::End,
        ])
    );
}

#[test]
fn the_largest_number_is_read() {
    assert_eq!(
        tokenize("2147483647"),
        Ok(vec![Token::Literal(Literal::Number(2147483647)), Token::End])
    );
}

#[test]
fn a_number_too_large_is_an_error() {
    assert_eq!(tokenize("2147483648"), Err(TokenizeError::InvalidToken("2147483648")));
    assert_eq!(
        tokenize("x = 99999999999999999999;"),
        Err(TokenizeError::InvalidToken("99999999999999999999;"))
    );
}

#[test]
fn string_literal_holds_what_is_between_the_quotes() {
    assert_eq!(
        tokenize("\"hello world\" \"\""),
        Ok(vec![
            Token::Literal(Literal::String("hello world")),
            Token::Literal(Literal::String("")),
            Token::End,
        ])
    );
}

#[test]
fn string_literal_may_hold_characters_outside_ascii() {
    assert_eq!(
        tokenize("\"h\u{e9}llo\" x"),
        Ok(vec![
            Token::Literal(Literal::String("h\u{e9}llo")),
            Token::Identifier("x"),
            Token::End,
        ])
    );
}

#[test]
fn a_string_without_its_closing_quote_is_an_error() {
    assert_eq!(tokenize("a \"bc"), Err(TokenizeError::InvalidToken("\"bc")));
}

#[test]
fn character_literal_holds_one_character() {
    assert_eq!(
        tokenize("'a' ' ' '\"'"),
        Ok(vec![
            Token::Literal(Literal::Char('a')),
            Token::Literal(Literal::Char(' ')),
            Token::Literal(Literal::Char('"')),
            Token::End,
        ])
    );
}

#[test]
fn a_character_literal_of_two_characters_is_an_error() {
    assert_eq!(tokenize("'ab'"), Err(TokenizeError::InvalidToken("'ab'")));
    assert_eq!(tokenize("'a"), Err(TokenizeError::InvalidToken("'a")));
}

#[test]
fn invalid_character_is_reported_with_the_rest() {
    assert_eq!(tokenize("a @ b"), Err(TokenizeError::InvalidToken("@ b")));
    assert_eq!(tokenize("a $"), Err(TokenizeError::InvalidToken("$")));
    assert_eq!(tokenize("\u{e9}t\u{e9}"), Err(TokenizeError::InvalidToken("\u{e9}t\u{e9}")));
}

#[test]
fn tokens_need_no_whitespace_between_them() {
    assert_eq!(
        tokenize("x=y<<2;"),
        Ok(vec![
            Token::Identifier("x"),
            punctuator(PunctuatorKind::Equal),
            Token::Identifier("y"),
            punctuator(PunctuatorKind::DoubleLessThans),
            Token::Literal(Literal::Number(2)),
            punctuator(PunctuatorKind::Semicolon),
            Token::End,
        ])
    );
}

#[test]
fn whitespace_of_unicode_separates_tokens() {
    assert_eq!(
        tokenize("a\u{a0}b\u{3000}c\u{2028}d"),
        Ok(vec![
            Token::Identifier("a"),
            Token::Identifier("b"),
            Token::Identifier("c"),
            Token::Identifier("d"),
            Token::End,
        ])
    );
}

#[test]
fn whitespace_is_what_std_calls_whitespace() {
    for code in 0..0x11_0000u32 {
        if let Some(c) = char::from_u32(code) {
            assert_eq!(is_whitespace(c), c.is_whitespace());
        }
    }
}

#[test]
fn character_classes() {
    for code in 0..0x11_0000u32 {
        if let Some(c) = char::from_u32(code) {
            assert_eq!(is_identifier_head(c), c == '_' || c.is_ascii_alphabetic());
            assert_eq!(is_digit(c), c.is_ascii_digit());
            assert_eq!(is_identifier_body(c), c == '_' || c.is_ascii_alphanumeric());
        }
    }
}

#[test]
fn a_successful_result_ends_with_the_end_marker() {
    for source in ["", "x", "1 + 2", "while (1) { }", "\"s\" 'c' 0"] {
        let tokens = tokenize(source).unwrap();
        assert_eq!(tokens.last(), Some(&Token::End));
        assert_eq!(tokens.iter().filter(|token| **token == Token::End).count(), 1);
    }
}
