//! Text for tokens and errors: what a person reads.

use crate::parser::util::{ParseError, TokenKind};
use crate::tokenizer::{KeywordKind, Literal, LiteralView, PunctuatorKind, Token, TokenView};
use vstd::prelude::*;
use vstd::string::StringExecFns;

verus! {

/// `String::push` of the standard library appends one character to the end
/// of the string and changes nothing else of it.
pub assume_specification[ std::string::String::push ](text: &mut std::string::String, c: char)
    ensures
        final(text)@ == old(text)@.push(c),
;

/// The digits that write `value` in base ten, the first digit first.
pub open spec fn decimal_digits(value: nat) -> Seq<char>
    decreases value,
{
    if value < 10 {
        seq![digit_character(value)]
    } else {
        decimal_digits(value / 10).push(digit_character(value % 10))
    }
}

/// The character of the digit `value`.
pub open spec fn digit_character(value: nat) -> char {
    ('0' as u8 + value as u8) as char
}

/// How a number is written: its digits in base ten, after a minus sign where
/// it is negative.
pub open spec fn number_text(value: int) -> Seq<char> {
    if value < 0 {
        seq!['-'] + decimal_digits((-value) as nat)
    } else {
        decimal_digits(value as nat)
    }
}

/// Appends the digits of `value` in base ten to `text`.
pub fn push_decimal(text: &mut String, value: u32)
    ensures
        final(text)@ == old(text)@ + decimal_digits(value as nat),
    decreases value,
{
    if value >= 10 {
        push_decimal(text, value / 10);
    }
    let last: u8 = (value % 10) as u8;
    let ghost before = text@;
    text.push((48u8 + last) as char);
    proof {
        if value >= 10 {
            assert(text@ =~= old(text)@ + decimal_digits(value as nat));
        } else {
            assert(text@ =~= old(text)@ + decimal_digits(value as nat));
        }
    }
}

/// Appends `value` as it is written to `text`.
pub fn push_number(text: &mut String, value: i32)
    ensures
        final(text)@ == old(text)@ + number_text(value as int),
{
    if value < 0 {
        text.push('-');
        let magnitude: u32 = if value == i32::MIN {
            2147483648u32
        } else {
            (-value) as u32
        };
        push_decimal(text, magnitude);
        assert(text@ =~= old(text)@ + number_text(value as int));
    } else {
        push_decimal(text, value as u32);
    }
}

impl PunctuatorKind {
    /// The name of the punctuator.
    pub open spec fn name(self) -> Seq<char> {
        match self {
            PunctuatorKind::LeftSquareBracket => "LeftSquareBracket"@,
            PunctuatorKind::RightSquareBracket => "RightSquareBracket"@,
            PunctuatorKind::LeftRoundBracket => "LeftRoundBracket"@,
            PunctuatorKind::RightRoundBracket => "RightRoundBracket"@,
            PunctuatorKind::LeftCurlyBracket => "LeftCurlyBracket"@,
            PunctuatorKind::RightCurlyBracket => "RightCurlyBracket"@,
            PunctuatorKind::Dot => "Dot"@,
            PunctuatorKind::Arrow => "Arrow"@,
            PunctuatorKind::DoublePluses => "DoublePluses"@,
            PunctuatorKind::DoubleMinuses => "DoubleMinuses"@,
            PunctuatorKind::Ampersand => "Ampersand"@,
            PunctuatorKind::Star => "Star"@,
            PunctuatorKind::Plus => "Plus"@,
            PunctuatorKind::Minus => "Minus"@,
            PunctuatorKind::Tilde => "Tilde"@,
            PunctuatorKind::Exclamation => "Exclamation"@,
            PunctuatorKind::Slash => "Slash"@,
            PunctuatorKind::Percent => "Percent"@,
            PunctuatorKind::DoubleGreaterThans => "DoubleGreaterThans"@,
            PunctuatorKind::DoubleLessThans => "DoubleLessThans"@,
            PunctuatorKind::GreaterThan => "GreaterThan"@,
            PunctuatorKind::LessThan => "LessThan"@,
            PunctuatorKind::GreaterThanEqual => "GreaterThanEqual"@,
            PunctuatorKind::LessThanEqual => "LessThanEqual"@,
            PunctuatorKind::DoubleEquals => "DoubleEquals"@,
            PunctuatorKind::ExclamationEqual => "ExclamationEqual"@,
            PunctuatorKind::Hat => "Hat"@,
            PunctuatorKind::Pipeline => "Pipeline"@,
            PunctuatorKind::DoubleAmpersands => "DoubleAmpersands"@,
            PunctuatorKind::DoublePipelines => "DoublePipelines"@,
            PunctuatorKind::Question => "Question"@,
            PunctuatorKind::Colon => "Colon"@,
            PunctuatorKind::Semicolon => "Semicolon"@,
            PunctuatorKind::TripleDots => "TripleDots"@,
            PunctuatorKind::Equal => "Equal"@,
            PunctuatorKind::StarEqual => "StarEqual"@,
            PunctuatorKind::SlashEqual => "SlashEqual"@,
            PunctuatorKind::PercentEqual => "PercentEqual"@,
            PunctuatorKind::PlusEqual => "PlusEqual"@,
            PunctuatorKind::MinusEqual => "MinusEqual"@,
            PunctuatorKind::DoubleGreaterThansEqual => "DoubleGreaterThansEqual"@,
            PunctuatorKind::DoubleLessThansEqual => "DoubleLessThansEqual"@,
            PunctuatorKind::AmpersandEqual => "AmpersandEqual"@,
            PunctuatorKind::HatEqual => "HatEqual"@,
            PunctuatorKind::PipelineEqual => "PipelineEqual"@,
            PunctuatorKind::Commma => "Commma"@,
            PunctuatorKind::Sharp => "Sharp"@,
            PunctuatorKind::DoubleSharps => "DoubleSharps"@,
            PunctuatorKind::LessThanColon => "LessThanColon"@,
            PunctuatorKind::ColonGreaterThan => "ColonGreaterThan"@,
            PunctuatorKind::LessThanPercent => "LessThanPercent"@,
            PunctuatorKind::PercentGreaterThan => "PercentGreaterThan"@,
            PunctuatorKind::PercentColon => "PercentColon"@,
            PunctuatorKind::DoublePercentColons => "DoublePercentColons"@,
        }
    }

    /// The name of the punctuator, as a person reads it in a message.
    pub fn to_name(self) -> (result: &'static str)
        ensures
            result@ == self.name(),
    {
        match self {
            PunctuatorKind::LeftSquareBracket => "LeftSquareBracket",
            PunctuatorKind::RightSquareBracket => "RightSquareBracket",
            PunctuatorKind::LeftRoundBracket => "LeftRoundBracket",
            PunctuatorKind::RightRoundBracket => "RightRoundBracket",
            PunctuatorKind::LeftCurlyBracket => "LeftCurlyBracket",
            PunctuatorKind::RightCurlyBracket => "RightCurlyBracket",
            PunctuatorKind::Dot => "Dot",
            PunctuatorKind::Arrow => "Arrow",
            PunctuatorKind::DoublePluses => "DoublePluses",
            PunctuatorKind::DoubleMinuses => "DoubleMinuses",
            PunctuatorKind::Ampersand => "Ampersand",
            PunctuatorKind::Star => "Star",
            PunctuatorKind::Plus => "Plus",
            PunctuatorKind::Minus => "Minus",
            PunctuatorKind::Tilde => "Tilde",
            PunctuatorKind::Exclamation => "Exclamation",
            PunctuatorKind::Slash => "Slash",
            PunctuatorKind::Percent => "Percent",
            PunctuatorKind::DoubleGreaterThans => "DoubleGreaterThans",
            PunctuatorKind::DoubleLessThans => "DoubleLessThans",
            PunctuatorKind::GreaterThan => "GreaterThan",
            PunctuatorKind::LessThan => "LessThan",
            PunctuatorKind::GreaterThanEqual => "GreaterThanEqual",
            PunctuatorKind::LessThanEqual => "LessThanEqual",
            PunctuatorKind::DoubleEquals => "DoubleEquals",
            PunctuatorKind::ExclamationEqual => "ExclamationEqual",
            PunctuatorKind::Hat => "Hat",
            PunctuatorKind::Pipeline => "Pipeline",
            PunctuatorKind::DoubleAmpersands => "DoubleAmpersands",
            PunctuatorKind::DoublePipelines => "DoublePipelines",
            PunctuatorKind::Question => "Question",
            PunctuatorKind::Colon => "Colon",
            PunctuatorKind::Semicolon => "Semicolon",
            PunctuatorKind::TripleDots => "TripleDots",
            PunctuatorKind::Equal => "Equal",
            PunctuatorKind::StarEqual => "StarEqual",
            PunctuatorKind::SlashEqual => "SlashEqual",
            PunctuatorKind::PercentEqual => "PercentEqual",
            PunctuatorKind::PlusEqual => "PlusEqual",
            PunctuatorKind::MinusEqual => "MinusEqual",
            PunctuatorKind::DoubleGreaterThansEqual => "DoubleGreaterThansEqual",
            PunctuatorKind::DoubleLessThansEqual => "DoubleLessThansEqual",
            PunctuatorKind::AmpersandEqual => "AmpersandEqual",
            PunctuatorKind::HatEqual => "HatEqual",
            PunctuatorKind::PipelineEqual => "PipelineEqual",
            PunctuatorKind::Commma => "Commma",
            PunctuatorKind::Sharp => "Sharp",
            PunctuatorKind::DoubleSharps => "DoubleSharps",
            PunctuatorKind::LessThanColon => "LessThanColon",
            PunctuatorKind::ColonGreaterThan => "ColonGreaterThan",
            PunctuatorKind::LessThanPercent => "LessThanPercent",
            PunctuatorKind::PercentGreaterThan => "PercentGreaterThan",
            PunctuatorKind::PercentColon => "PercentColon",
            PunctuatorKind::DoublePercentColons => "DoublePercentColons",
        }
    }
}

impl KeywordKind {
    /// The name of the keyword.
    pub open spec fn name(self) -> Seq<char> {
        match self {
            KeywordKind::Auto => "Auto"@,
            KeywordKind::Break => "Break"@,
            KeywordKind::Case => "Case"@,
            KeywordKind::Char => "Char"@,
            KeywordKind::Const => "Const"@,
            KeywordKind::Continue => "Continue"@,
            KeywordKind::_Default => "_Default"@,
            KeywordKind::Do => "Do"@,
            KeywordKind::Double => "Double"@,
            KeywordKind::Else => "Else"@,
            KeywordKind::Enum => "Enum"@,
            KeywordKind::Extern => "Extern"@,
            KeywordKind::Float => "Float"@,
            KeywordKind::For => "For"@,
            KeywordKind::Goto => "Goto"@,
            KeywordKind::If => "If"@,
            KeywordKind::Inline => "Inline"@,
            KeywordKind::Int => "Int"@,
            KeywordKind::Long => "Long"@,
            KeywordKind::Register => "Register"@,
            KeywordKind::Restrict => "Restrict"@,
            KeywordKind::Return => "Return"@,
            KeywordKind::Short => "Short"@,
            KeywordKind::Signed => "Signed"@,
            KeywordKind::Sizeof => "Sizeof"@,
            KeywordKind::Static => "Static"@,
            KeywordKind::Struct => "Struct"@,
            KeywordKind::Switch => "Switch"@,
            KeywordKind::Typedef => "Typedef"@,
            KeywordKind::Union => "Union"@,
            KeywordKind::Unsigned => "Unsigned"@,
            KeywordKind::Void => "Void"@,
            KeywordKind::Volatile => "Volatile"@,
            KeywordKind::While => "While"@,
            KeywordKind::Alignas => "Alignas"@,
            KeywordKind::Alignof => "Alignof"@,
            KeywordKind::Atomic => "Atomic"@,
            KeywordKind::Bool => "Bool"@,
            KeywordKind::Complex => "Complex"@,
            KeywordKind::Generic => "Generic"@,
            KeywordKind::Imaginary => "Imaginary"@,
            KeywordKind::Noreturn => "Noreturn"@,
            KeywordKind::StaticAssert => "StaticAssert"@,
            KeywordKind::ThreadLocal => "ThreadLocal"@,
        }
    }

    /// The name of the keyword, as a person reads it in a message.
    pub fn to_name(self) -> (result: &'static str)
        ensures
            result@ == self.name(),
    {
        match self {
            KeywordKind::Auto => "Auto",
            KeywordKind::Break => "Break",
            KeywordKind::Case => "Case",
            KeywordKind::Char => "Char",
            KeywordKind::Const => "Const",
            KeywordKind::Continue => "Continue",
            KeywordKind::_Default => "_Default",
            KeywordKind::Do => "Do",
            KeywordKind::Double => "Double",
            KeywordKind::Else => "Else",
            KeywordKind::Enum => "Enum",
            KeywordKind::Extern => "Extern",
            KeywordKind::Float => "Float",
            KeywordKind::For => "For",
            KeywordKind::Goto => "Goto",
            KeywordKind::If => "If",
            KeywordKind::Inline => "Inline",
            KeywordKind::Int => "Int",
            KeywordKind::Long => "Long",
            KeywordKind::Register => "Register",
            KeywordKind::Restrict => "Restrict",
            KeywordKind::Return => "Return",
            KeywordKind::Short => "Short",
            KeywordKind::Signed => "Signed",
            KeywordKind::Sizeof => "Sizeof",
            KeywordKind::Static => "Static",
            KeywordKind::Struct => "Struct",
            KeywordKind::Switch => "Switch",
            KeywordKind::Typedef => "Typedef",
            KeywordKind::Union => "Union",
            KeywordKind::Unsigned => "Unsigned",
            KeywordKind::Void => "Void",
            KeywordKind::Volatile => "Volatile",
            KeywordKind::While => "While",
            KeywordKind::Alignas => "Alignas",
            KeywordKind::Alignof => "Alignof",
            KeywordKind::Atomic => "Atomic",
            KeywordKind::Bool => "Bool",
            KeywordKind::Complex => "Complex",
            KeywordKind::Generic => "Generic",
            KeywordKind::Imaginary => "Imaginary",
            KeywordKind::Noreturn => "Noreturn",
            KeywordKind::StaticAssert => "StaticAssert",
            KeywordKind::ThreadLocal => "ThreadLocal",
        }
    }
}

impl LiteralView {
    /// The literal as a person reads it: its kind, a colon and its value.
    pub open spec fn text(self) -> Seq<char> {
        match self {
            LiteralView::String(content) => "String:"@ + content,
            LiteralView::Char(c) => "Char:"@.push(c),
            LiteralView::Number(n) => "Number:"@ + number_text(n as int),
        }
    }

    /// The literal as it is written in source text.
    pub open spec fn source(self) -> Seq<char> {
        match self {
            LiteralView::String(content) => (seq!['"'] + content).push('"'),
            LiteralView::Char(c) => seq!['\'', c, '\''],
            LiteralView::Number(n) => number_text(n as int),
        }
    }
}

impl TokenView {
    /// The token as a person reads it: its kind and, after a colon, what it
    /// holds.
    pub open spec fn text(self) -> Seq<char> {
        match self {
            TokenView::Punctuator(kind) => "Punctuator:"@ + kind.name(),
            TokenView::Keyword(kind) => "Keyword:"@ + kind.name(),
            TokenView::Identifier(name) => "Identifier:"@ + name,
            TokenView::Literal(literal) => "Literal:"@ + literal.text(),
            TokenView::End => "End"@,
        }
    }

    /// The token as it is written in source text. The end marker is written
    /// as nothing.
    pub open spec fn source(self) -> Seq<char> {
        match self {
            TokenView::Punctuator(kind) => kind.spelling(),
            TokenView::Keyword(kind) => kind.spelling(),
            TokenView::Identifier(name) => name,
            TokenView::Literal(literal) => literal.source(),
            TokenView::End => Seq::empty(),
        }
    }
}

impl<'a> Literal<'a> {
    /// The literal as a person reads it.
    pub fn to_text(&self) -> (result: String)
        ensures
            result@ == self@.text(),
    {
        match self {
            Literal::String(content) => {
                let mut text = String::from_str("String:");
                text.append(content);
                text
            },
            Literal::Char(c) => {
                let mut text = String::from_str("Char:");
                text.push(*c);
                text
            },
            Literal::Number(n) => {
                let mut text = String::from_str("Number:");
                push_number(&mut text, *n);
                text
            },
        }
    }

    /// Appends the literal as it is written in source text to `text`.
    pub fn push_source(&self, text: &mut String)
        ensures
            final(text)@ == old(text)@ + self@.source(),
    {
        match self {
            Literal::String(content) => {
                text.push('"');
                text.append(content);
                text.push('"');
                assert(text@ =~= old(text)@ + self@.source());
            },
            Literal::Char(c) => {
                text.push('\'');
                text.push(*c);
                text.push('\'');
                assert(text@ =~= old(text)@ + self@.source());
            },
            Literal::Number(n) => {
                push_number(text, *n);
            },
        }
    }
}

impl<'a> Token<'a> {
    /// The token as a person reads it.
    pub fn to_text(&self) -> (result: String)
        ensures
            result@ == self@.text(),
    {
        match self {
            Token::Punctuator(kind) => {
                let mut text = String::from_str("Punctuator:");
                text.append(kind.to_name());
                text
            },
            Token::Keyword(kind) => {
                let mut text = String::from_str("Keyword:");
                text.append(kind.to_name());
                text
            },
            Token::Identifier(name) => {
                let mut text = String::from_str("Identifier:");
                text.append(name);
                text
            },
            Token::Literal(literal) => {
                let mut text = String::from_str("Literal:");
                let inner = literal.to_text();
                text.append(inner.as_str());
                text
            },
            Token::End => String::from_str("End"),
        }
    }

    /// Appends the token as it is written in source text to `text`.
    pub fn push_source(&self, text: &mut String)
        ensures
            final(text)@ == old(text)@ + self@.source(),
    {
        match self {
            Token::Punctuator(kind) => {
                text.append(kind.symbol());
            },
            Token::Keyword(kind) => {
                text.append(kind.word());
            },
            Token::Identifier(name) => {
                text.append(name);
            },
            Token::Literal(literal) => {
                literal.push_source(text);
            },
            Token::End => {
                assert(text@ + Seq::<char>::empty() =~= text@);
            },
        }
    }
}

/// The source text of a token sequence from the token at `from` on: each
/// token as it is written, with one space before each token but the first.
pub open spec fn spec_source_text(tokens: Seq<TokenView>, from: int) -> Seq<char>
    decreases tokens.len() - from,
{
    if 0 <= from < tokens.len() {
        if from == 0 {
            tokens[from].source() + spec_source_text(tokens, from + 1)
        } else {
            seq![' '] + (tokens[from].source() + spec_source_text(tokens, from + 1))
        }
    } else {
        Seq::empty()
    }
}

/// Writes a token sequence as source text: each token as it is written,
/// with one space between them.
pub fn source_text(tokens: &[Token]) -> (result: String)
    ensures
        result@ == spec_source_text(crate::tokenizer::token_views(tokens@), 0),
{
    let ghost views = crate::tokenizer::token_views(tokens@);
    let mut text = String::new();
    let mut index: usize = 0;
    assert(text@ + spec_source_text(views, 0) =~= spec_source_text(views, 0));
    while index < tokens.len()
        invariant
            index <= tokens.len(),
            views == crate::tokenizer::token_views(tokens@),
            text@ + spec_source_text(views, index as int) == spec_source_text(views, 0),
        decreases tokens.len() - index,
    {
        let ghost before = text@;
        if index > 0 {
            text.push(' ');
        }
        tokens[index].push_source(&mut text);
        proof {
            let rest = spec_source_text(views, index + 1);
            assert(views[index as int] == tokens@[index as int]@);
            if index > 0 {
                assert(before + (seq![' '] + (views[index as int].source() + rest)) =~= (
                before.push(' ') + views[index as int].source()) + rest);
            } else {
                assert(before + (views[index as int].source() + rest) =~= (before
                    + views[index as int].source()) + rest);
            }
        }
        index = index + 1;
    }
    assert(text@ + Seq::<char>::empty() =~= text@);
    text
}

impl ParseError {
    /// What was missing, in words.
    pub open spec fn text(self) -> Seq<char> {
        match self {
            ParseError::ExpectedToken(TokenKind::Punctuator(kind)) => ("expected "@ + kind.name())
                + " but not found."@,
            ParseError::ExpectedToken(TokenKind::Keyword(kind)) => ("expected "@ + kind.name())
                + " but not found."@,
            ParseError::ExpectedIdentifier => "expected identifier but not found."@,
            ParseError::ExpectedLiteral => "expected literal but not found."@,
            ParseError::ExpectedExpression => "expression is expected but not found."@,
            ParseError::ExpectedStatement => "statement is expected but not found."@,
            ParseError::ExpectedDeclaration => "declaration is expected but not found."@,
        }
    }

    /// What was missing, in words.
    pub fn message(&self) -> (result: String)
        ensures
            result@ == self.text(),
    {
        match self {
            ParseError::ExpectedToken(TokenKind::Punctuator(kind)) => {
                let mut text = String::from_str("expected ");
                text.append(kind.to_name());
                text.append(" but not found.");
                text
            },
            ParseError::ExpectedToken(TokenKind::Keyword(kind)) => {
                let mut text = String::from_str("expected ");
                text.append(kind.to_name());
                text.append(" but not found.");
                text
            },
            ParseError::ExpectedIdentifier => String::from_str(
                "expected identifier but not found.",
            ),
            ParseError::ExpectedLiteral => String::from_str("expected literal but not found."),
            ParseError::ExpectedExpression => String::from_str(
                "expression is expected but not found.",
            ),
            ParseError::ExpectedStatement => String::from_str(
                "statement is expected but not found.",
            ),
            ParseError::ExpectedDeclaration => String::from_str(
                "declaration is expected but not found.",
            ),
        }
    }
}

} // verus!
