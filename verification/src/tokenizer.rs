//! The tokenizer: from source text to a sequence of tokens.
//!
//! The model of a source text is its sequence of characters. [`spec_tokenize`]
//! says which token sequence a text has, and [`tokenize`] computes it.

use vstd::prelude::*;

verus! {

/// The operators and delimiters of C.
#[derive(Debug, Clone, Copy, PartialEq, Eq, Structural)]
pub enum PunctuatorKind {
    LeftSquareBracket,
    RightSquareBracket,
    LeftRoundBracket,
    RightRoundBracket,
    LeftCurlyBracket,
    RightCurlyBracket,
    Dot,
    Arrow,
    DoublePluses,
    DoubleMinuses,
    Ampersand,
    Star,
    Plus,
    Minus,
    Tilde,
    Exclamation,
    Slash,
    Percent,
    DoubleGreaterThans,
    DoubleLessThans,
    GreaterThan,
    LessThan,
    GreaterThanEqual,
    LessThanEqual,
    DoubleEquals,
    ExclamationEqual,
    Hat,
    Pipeline,
    DoubleAmpersands,
    DoublePipelines,
    Question,
    Colon,
    Semicolon,
    TripleDots,
    Equal,
    StarEqual,
    SlashEqual,
    PercentEqual,
    PlusEqual,
    MinusEqual,
    DoubleGreaterThansEqual,
    DoubleLessThansEqual,
    AmpersandEqual,
    HatEqual,
    PipelineEqual,
    Commma,
    Sharp,
    DoubleSharps,
    LessThanColon,
    ColonGreaterThan,
    LessThanPercent,
    PercentGreaterThan,
    PercentColon,
    DoublePercentColons,
}

impl PunctuatorKind {
    /// The characters that spell the punctuator in source text.
    pub open spec fn spelling(self) -> Seq<char> {
        match self {
            PunctuatorKind::LeftSquareBracket => "["@,
            PunctuatorKind::RightSquareBracket => "]"@,
            PunctuatorKind::LeftRoundBracket => "("@,
            PunctuatorKind::RightRoundBracket => ")"@,
            PunctuatorKind::LeftCurlyBracket => "{"@,
            PunctuatorKind::RightCurlyBracket => "}"@,
            PunctuatorKind::Dot => "."@,
            PunctuatorKind::Arrow => "->"@,
            PunctuatorKind::DoublePluses => "++"@,
            PunctuatorKind::DoubleMinuses => "--"@,
            PunctuatorKind::Ampersand => "&"@,
            PunctuatorKind::Star => "*"@,
            PunctuatorKind::Plus => "+"@,
            PunctuatorKind::Minus => "-"@,
            PunctuatorKind::Tilde => "~"@,
            PunctuatorKind::Exclamation => "!"@,
            PunctuatorKind::Slash => "/"@,
            PunctuatorKind::Percent => "%"@,
            PunctuatorKind::DoubleGreaterThans => ">>"@,
            PunctuatorKind::DoubleLessThans => "<<"@,
            PunctuatorKind::GreaterThan => ">"@,
            PunctuatorKind::LessThan => "<"@,
            PunctuatorKind::GreaterThanEqual => ">="@,
            PunctuatorKind::LessThanEqual => "<="@,
            PunctuatorKind::DoubleEquals => "=="@,
            PunctuatorKind::ExclamationEqual => "!="@,
            PunctuatorKind::Hat => "^"@,
            PunctuatorKind::Pipeline => "|"@,
            PunctuatorKind::DoubleAmpersands => "&&"@,
            PunctuatorKind::DoublePipelines => "||"@,
            PunctuatorKind::Question => "?"@,
            PunctuatorKind::Colon => ":"@,
            PunctuatorKind::Semicolon => ";"@,
            PunctuatorKind::TripleDots => "..."@,
            PunctuatorKind::Equal => "="@,
            PunctuatorKind::StarEqual => "*="@,
            PunctuatorKind::SlashEqual => "/="@,
            PunctuatorKind::PercentEqual => "%="@,
            PunctuatorKind::PlusEqual => "+="@,
            PunctuatorKind::MinusEqual => "-="@,
            PunctuatorKind::DoubleGreaterThansEqual => ">>="@,
            PunctuatorKind::DoubleLessThansEqual => "<<="@,
            PunctuatorKind::AmpersandEqual => "&="@,
            PunctuatorKind::HatEqual => "^="@,
            PunctuatorKind::PipelineEqual => "|="@,
            PunctuatorKind::Commma => ","@,
            PunctuatorKind::Sharp => "#"@,
            PunctuatorKind::DoubleSharps => "##"@,
            PunctuatorKind::LessThanColon => "<:"@,
            PunctuatorKind::ColonGreaterThan => ":>"@,
            PunctuatorKind::LessThanPercent => "<%"@,
            PunctuatorKind::PercentGreaterThan => "%>"@,
            PunctuatorKind::PercentColon => "%:"@,
            PunctuatorKind::DoublePercentColons => "%:%:"@,
        }
    }

    /// The place of the punctuator in the order in which the tokenizer tries
    /// them. A punctuator with a longer spelling comes before one with a
    /// shorter spelling.
    pub open spec fn priority(self) -> nat {
        match self {
            PunctuatorKind::DoublePercentColons => 0,
            PunctuatorKind::TripleDots => 1,
            PunctuatorKind::DoubleLessThansEqual => 2,
            PunctuatorKind::DoubleGreaterThansEqual => 3,
            PunctuatorKind::Arrow => 4,
            PunctuatorKind::DoublePluses => 5,
            PunctuatorKind::DoubleMinuses => 6,
            PunctuatorKind::DoubleLessThans => 7,
            PunctuatorKind::DoubleGreaterThans => 8,
            PunctuatorKind::LessThanEqual => 9,
            PunctuatorKind::GreaterThanEqual => 10,
            PunctuatorKind::DoubleEquals => 11,
            PunctuatorKind::ExclamationEqual => 12,
            PunctuatorKind::DoubleAmpersands => 13,
            PunctuatorKind::DoublePipelines => 14,
            PunctuatorKind::StarEqual => 15,
            PunctuatorKind::SlashEqual => 16,
            PunctuatorKind::PercentEqual => 17,
            PunctuatorKind::PlusEqual => 18,
            PunctuatorKind::MinusEqual => 19,
            PunctuatorKind::AmpersandEqual => 20,
            PunctuatorKind::HatEqual => 21,
            PunctuatorKind::PipelineEqual => 22,
            PunctuatorKind::DoubleSharps => 23,
            PunctuatorKind::LessThanColon => 24,
            PunctuatorKind::ColonGreaterThan => 25,
            PunctuatorKind::LessThanPercent => 26,
            PunctuatorKind::PercentGreaterThan => 27,
            PunctuatorKind::PercentColon => 28,
            PunctuatorKind::LeftSquareBracket => 29,
            PunctuatorKind::RightSquareBracket => 30,
            PunctuatorKind::LeftRoundBracket => 31,
            PunctuatorKind::RightRoundBracket => 32,
            PunctuatorKind::LeftCurlyBracket => 33,
            PunctuatorKind::RightCurlyBracket => 34,
            PunctuatorKind::Dot => 35,
            PunctuatorKind::Ampersand => 36,
            PunctuatorKind::Star => 37,
            PunctuatorKind::Plus => 38,
            PunctuatorKind::Minus => 39,
            PunctuatorKind::Tilde => 40,
            PunctuatorKind::Exclamation => 41,
            PunctuatorKind::Slash => 42,
            PunctuatorKind::Percent => 43,
            PunctuatorKind::LessThan => 44,
            PunctuatorKind::GreaterThan => 45,
            PunctuatorKind::Hat => 46,
            PunctuatorKind::Pipeline => 47,
            PunctuatorKind::Question => 48,
            PunctuatorKind::Colon => 49,
            PunctuatorKind::Semicolon => 50,
            PunctuatorKind::Equal => 51,
            PunctuatorKind::Commma => 52,
            PunctuatorKind::Sharp => 53,
        }
    }

    /// The punctuator that the tokenizer tries at place `rank`.
    pub fn by_priority(rank: u8) -> (result: PunctuatorKind)
        requires
            rank < 54,
        ensures
            result.priority() == rank,
    {
        match rank {
            0 => PunctuatorKind::DoublePercentColons,
            1 => PunctuatorKind::TripleDots,
            2 => PunctuatorKind::DoubleLessThansEqual,
            3 => PunctuatorKind::DoubleGreaterThansEqual,
            4 => PunctuatorKind::Arrow,
            5 => PunctuatorKind::DoublePluses,
            6 => PunctuatorKind::DoubleMinuses,
            7 => PunctuatorKind::DoubleLessThans,
            8 => PunctuatorKind::DoubleGreaterThans,
            9 => PunctuatorKind::LessThanEqual,
            10 => PunctuatorKind::GreaterThanEqual,
            11 => PunctuatorKind::DoubleEquals,
            12 => PunctuatorKind::ExclamationEqual,
            13 => PunctuatorKind::DoubleAmpersands,
            14 => PunctuatorKind::DoublePipelines,
            15 => PunctuatorKind::StarEqual,
            16 => PunctuatorKind::SlashEqual,
            17 => PunctuatorKind::PercentEqual,
            18 => PunctuatorKind::PlusEqual,
            19 => PunctuatorKind::MinusEqual,
            20 => PunctuatorKind::AmpersandEqual,
            21 => PunctuatorKind::HatEqual,
            22 => PunctuatorKind::PipelineEqual,
            23 => PunctuatorKind::DoubleSharps,
            24 => PunctuatorKind::LessThanColon,
            25 => PunctuatorKind::ColonGreaterThan,
            26 => PunctuatorKind::LessThanPercent,
            27 => PunctuatorKind::PercentGreaterThan,
            28 => PunctuatorKind::PercentColon,
            29 => PunctuatorKind::LeftSquareBracket,
            30 => PunctuatorKind::RightSquareBracket,
            31 => PunctuatorKind::LeftRoundBracket,
            32 => PunctuatorKind::RightRoundBracket,
            33 => PunctuatorKind::LeftCurlyBracket,
            34 => PunctuatorKind::RightCurlyBracket,
            35 => PunctuatorKind::Dot,
            36 => PunctuatorKind::Ampersand,
            37 => PunctuatorKind::Star,
            38 => PunctuatorKind::Plus,
            39 => PunctuatorKind::Minus,
            40 => PunctuatorKind::Tilde,
            41 => PunctuatorKind::Exclamation,
            42 => PunctuatorKind::Slash,
            43 => PunctuatorKind::Percent,
            44 => PunctuatorKind::LessThan,
            45 => PunctuatorKind::GreaterThan,
            46 => PunctuatorKind::Hat,
            47 => PunctuatorKind::Pipeline,
            48 => PunctuatorKind::Question,
            49 => PunctuatorKind::Colon,
            50 => PunctuatorKind::Semicolon,
            51 => PunctuatorKind::Equal,
            52 => PunctuatorKind::Commma,
            _ => PunctuatorKind::Sharp,
        }
    }

    /// The punctuator as it is written in source text.
    pub fn symbol(self) -> (result: &'static str)
        ensures
            result@ == self.spelling(),
    {
        match self {
            PunctuatorKind::LeftSquareBracket => "[",
            PunctuatorKind::RightSquareBracket => "]",
            PunctuatorKind::LeftRoundBracket => "(",
            PunctuatorKind::RightRoundBracket => ")",
            PunctuatorKind::LeftCurlyBracket => "{",
            PunctuatorKind::RightCurlyBracket => "}",
            PunctuatorKind::Dot => ".",
            PunctuatorKind::Arrow => "->",
            PunctuatorKind::DoublePluses => "++",
            PunctuatorKind::DoubleMinuses => "--",
            PunctuatorKind::Ampersand => "&",
            PunctuatorKind::Star => "*",
            PunctuatorKind::Plus => "+",
            PunctuatorKind::Minus => "-",
            PunctuatorKind::Tilde => "~",
            PunctuatorKind::Exclamation => "!",
            PunctuatorKind::Slash => "/",
            PunctuatorKind::Percent => "%",
            PunctuatorKind::DoubleGreaterThans => ">>",
            PunctuatorKind::DoubleLessThans => "<<",
            PunctuatorKind::GreaterThan => ">",
            PunctuatorKind::LessThan => "<",
            PunctuatorKind::GreaterThanEqual => ">=",
            PunctuatorKind::LessThanEqual => "<=",
            PunctuatorKind::DoubleEquals => "==",
            PunctuatorKind::ExclamationEqual => "!=",
            PunctuatorKind::Hat => "^",
            PunctuatorKind::Pipeline => "|",
            PunctuatorKind::DoubleAmpersands => "&&",
            PunctuatorKind::DoublePipelines => "||",
            PunctuatorKind::Question => "?",
            PunctuatorKind::Colon => ":",
            PunctuatorKind::Semicolon => ";",
            PunctuatorKind::TripleDots => "...",
            PunctuatorKind::Equal => "=",
            PunctuatorKind::StarEqual => "*=",
            PunctuatorKind::SlashEqual => "/=",
            PunctuatorKind::PercentEqual => "%=",
            PunctuatorKind::PlusEqual => "+=",
            PunctuatorKind::MinusEqual => "-=",
            PunctuatorKind::DoubleGreaterThansEqual => ">>=",
            PunctuatorKind::DoubleLessThansEqual => "<<=",
            PunctuatorKind::AmpersandEqual => "&=",
            PunctuatorKind::HatEqual => "^=",
            PunctuatorKind::PipelineEqual => "|=",
            PunctuatorKind::Commma => ",",
            PunctuatorKind::Sharp => "#",
            PunctuatorKind::DoubleSharps => "##",
            PunctuatorKind::LessThanColon => "<:",
            PunctuatorKind::ColonGreaterThan => ":>",
            PunctuatorKind::LessThanPercent => "<%",
            PunctuatorKind::PercentGreaterThan => "%>",
            PunctuatorKind::PercentColon => "%:",
            PunctuatorKind::DoublePercentColons => "%:%:",
        }
    }
}

/// The reserved words of C.
#[derive(Debug, Clone, Copy, PartialEq, Eq, Structural)]
pub enum KeywordKind {
    Auto,
    Break,
    Case,
    Char,
    Const,
    Continue,
    _Default,
    Do,
    Double,
    Else,
    Enum,
    Extern,
    Float,
    For,
    Goto,
    If,
    Inline,
    Int,
    Long,
    Register,
    Restrict,
    Return,
    Short,
    Signed,
    Sizeof,
    Static,
    Struct,
    Switch,
    Typedef,
    Union,
    Unsigned,
    Void,
    Volatile,
    While,
    Alignas,
    Alignof,
    Atomic,
    Bool,
    Complex,
    Generic,
    Imaginary,
    Noreturn,
    StaticAssert,
    ThreadLocal,
}

impl KeywordKind {
    /// The characters that spell the keyword in source text.
    pub open spec fn spelling(self) -> Seq<char> {
        match self {
            KeywordKind::Auto => "auto"@,
            KeywordKind::Break => "break"@,
            KeywordKind::Case => "case"@,
            KeywordKind::Char => "char"@,
            KeywordKind::Const => "const"@,
            KeywordKind::Continue => "continue"@,
            KeywordKind::_Default => "default"@,
            KeywordKind::Do => "do"@,
            KeywordKind::Double => "double"@,
            KeywordKind::Else => "else"@,
            KeywordKind::Enum => "enum"@,
            KeywordKind::Extern => "extern"@,
            KeywordKind::Float => "float"@,
            KeywordKind::For => "for"@,
            KeywordKind::Goto => "goto"@,
            KeywordKind::If => "if"@,
            KeywordKind::Inline => "inline"@,
            KeywordKind::Int => "int"@,
            KeywordKind::Long => "long"@,
            KeywordKind::Register => "register"@,
            KeywordKind::Restrict => "restrict"@,
            KeywordKind::Return => "return"@,
            KeywordKind::Short => "short"@,
            KeywordKind::Signed => "signed"@,
            KeywordKind::Sizeof => "sizeof"@,
            KeywordKind::Static => "static"@,
            KeywordKind::Struct => "struct"@,
            KeywordKind::Switch => "switch"@,
            KeywordKind::Typedef => "typedef"@,
            KeywordKind::Union => "union"@,
            KeywordKind::Unsigned => "unsigned"@,
            KeywordKind::Void => "void"@,
            KeywordKind::Volatile => "volatile"@,
            KeywordKind::While => "while"@,
            KeywordKind::Alignas => "_Alignas"@,
            KeywordKind::Alignof => "_Alignof"@,
            KeywordKind::Atomic => "_Atomic"@,
            KeywordKind::Bool => "_Bool"@,
            KeywordKind::Complex => "_Complex"@,
            KeywordKind::Generic => "_Generic"@,
            KeywordKind::Imaginary => "_Imaginary"@,
            KeywordKind::Noreturn => "_Noreturn"@,
            KeywordKind::StaticAssert => "_Static_assert"@,
            KeywordKind::ThreadLocal => "_Thread_local"@,
        }
    }

    /// The place of the keyword in the list of all keywords.
    pub open spec fn ordinal(self) -> nat {
        match self {
            KeywordKind::Auto => 0,
            KeywordKind::Break => 1,
            KeywordKind::Case => 2,
            KeywordKind::Char => 3,
            KeywordKind::Const => 4,
            KeywordKind::Continue => 5,
            KeywordKind::_Default => 6,
            KeywordKind::Do => 7,
            KeywordKind::Double => 8,
            KeywordKind::Else => 9,
            KeywordKind::Enum => 10,
            KeywordKind::Extern => 11,
            KeywordKind::Float => 12,
            KeywordKind::For => 13,
            KeywordKind::Goto => 14,
            KeywordKind::If => 15,
            KeywordKind::Inline => 16,
            KeywordKind::Int => 17,
            KeywordKind::Long => 18,
            KeywordKind::Register => 19,
            KeywordKind::Restrict => 20,
            KeywordKind::Return => 21,
            KeywordKind::Short => 22,
            KeywordKind::Signed => 23,
            KeywordKind::Sizeof => 24,
            KeywordKind::Static => 25,
            KeywordKind::Struct => 26,
            KeywordKind::Switch => 27,
            KeywordKind::Typedef => 28,
            KeywordKind::Union => 29,
            KeywordKind::Unsigned => 30,
            KeywordKind::Void => 31,
            KeywordKind::Volatile => 32,
            KeywordKind::While => 33,
            KeywordKind::Alignas => 34,
            KeywordKind::Alignof => 35,
            KeywordKind::Atomic => 36,
            KeywordKind::Bool => 37,
            KeywordKind::Complex => 38,
            KeywordKind::Generic => 39,
            KeywordKind::Imaginary => 40,
            KeywordKind::Noreturn => 41,
            KeywordKind::StaticAssert => 42,
            KeywordKind::ThreadLocal => 43,
        }
    }

    /// The keyword at place `rank` of the list of all keywords.
    pub fn by_ordinal(rank: u8) -> (result: KeywordKind)
        requires
            rank < 44,
        ensures
            result.ordinal() == rank,
    {
        match rank {
            0 => KeywordKind::Auto,
            1 => KeywordKind::Break,
            2 => KeywordKind::Case,
            3 => KeywordKind::Char,
            4 => KeywordKind::Const,
            5 => KeywordKind::Continue,
            6 => KeywordKind::_Default,
            7 => KeywordKind::Do,
            8 => KeywordKind::Double,
            9 => KeywordKind::Else,
            10 => KeywordKind::Enum,
            11 => KeywordKind::Extern,
            12 => KeywordKind::Float,
            13 => KeywordKind::For,
            14 => KeywordKind::Goto,
            15 => KeywordKind::If,
            16 => KeywordKind::Inline,
            17 => KeywordKind::Int,
            18 => KeywordKind::Long,
            19 => KeywordKind::Register,
            20 => KeywordKind::Restrict,
            21 => KeywordKind::Return,
            22 => KeywordKind::Short,
            23 => KeywordKind::Signed,
            24 => KeywordKind::Sizeof,
            25 => KeywordKind::Static,
            26 => KeywordKind::Struct,
            27 => KeywordKind::Switch,
            28 => KeywordKind::Typedef,
            29 => KeywordKind::Union,
            30 => KeywordKind::Unsigned,
            31 => KeywordKind::Void,
            32 => KeywordKind::Volatile,
            33 => KeywordKind::While,
            34 => KeywordKind::Alignas,
            35 => KeywordKind::Alignof,
            36 => KeywordKind::Atomic,
            37 => KeywordKind::Bool,
            38 => KeywordKind::Complex,
            39 => KeywordKind::Generic,
            40 => KeywordKind::Imaginary,
            41 => KeywordKind::Noreturn,
            42 => KeywordKind::StaticAssert,
            _ => KeywordKind::ThreadLocal,
        }
    }

    /// The keyword as it is written in source text.
    pub fn word(self) -> (result: &'static str)
        ensures
            result@ == self.spelling(),
    {
        match self {
            KeywordKind::Auto => "auto",
            KeywordKind::Break => "break",
            KeywordKind::Case => "case",
            KeywordKind::Char => "char",
            KeywordKind::Const => "const",
            KeywordKind::Continue => "continue",
            KeywordKind::_Default => "default",
            KeywordKind::Do => "do",
            KeywordKind::Double => "double",
            KeywordKind::Else => "else",
            KeywordKind::Enum => "enum",
            KeywordKind::Extern => "extern",
            KeywordKind::Float => "float",
            KeywordKind::For => "for",
            KeywordKind::Goto => "goto",
            KeywordKind::If => "if",
            KeywordKind::Inline => "inline",
            KeywordKind::Int => "int",
            KeywordKind::Long => "long",
            KeywordKind::Register => "register",
            KeywordKind::Restrict => "restrict",
            KeywordKind::Return => "return",
            KeywordKind::Short => "short",
            KeywordKind::Signed => "signed",
            KeywordKind::Sizeof => "sizeof",
            KeywordKind::Static => "static",
            KeywordKind::Struct => "struct",
            KeywordKind::Switch => "switch",
            KeywordKind::Typedef => "typedef",
            KeywordKind::Union => "union",
            KeywordKind::Unsigned => "unsigned",
            KeywordKind::Void => "void",
            KeywordKind::Volatile => "volatile",
            KeywordKind::While => "while",
            KeywordKind::Alignas => "_Alignas",
            KeywordKind::Alignof => "_Alignof",
            KeywordKind::Atomic => "_Atomic",
            KeywordKind::Bool => "_Bool",
            KeywordKind::Complex => "_Complex",
            KeywordKind::Generic => "_Generic",
            KeywordKind::Imaginary => "_Imaginary",
            KeywordKind::Noreturn => "_Noreturn",
            KeywordKind::StaticAssert => "_Static_assert",
            KeywordKind::ThreadLocal => "_Thread_local",
        }
    }
}

/// A literal constant. The text of a string literal is a slice of the source.
#[derive(Debug, Clone, Copy, PartialEq, Eq)]
pub enum Literal<'a> {
    String(&'a str),
    Char(char),
    Number(i32),
}

/// The model of a [`Literal`].
pub enum LiteralView {
    String(Seq<char>),
    Char(char),
    Number(i32),
}

impl<'a> View for Literal<'a> {
    type V = LiteralView;

    open spec fn view(&self) -> LiteralView {
        match self {
            Literal::String(text) => LiteralView::String(text@),
            Literal::Char(c) => LiteralView::Char(*c),
            Literal::Number(n) => LiteralView::Number(*n),
        }
    }
}

/// The smallest lexical unit. The text of an identifier is a slice of the
/// source.
#[derive(Debug, Clone, Copy, PartialEq, Eq)]
pub enum Token<'a> {
    Punctuator(PunctuatorKind),
    Keyword(KeywordKind),
    Identifier(&'a str),
    Literal(Literal<'a>),
    End,
}

/// The model of a [`Token`].
pub enum TokenView {
    Punctuator(PunctuatorKind),
    Keyword(KeywordKind),
    Identifier(Seq<char>),
    Literal(LiteralView),
    End,
}

impl<'a> View for Token<'a> {
    type V = TokenView;

    open spec fn view(&self) -> TokenView {
        match self {
            Token::Punctuator(kind) => TokenView::Punctuator(*kind),
            Token::Keyword(kind) => TokenView::Keyword(*kind),
            Token::Identifier(text) => TokenView::Identifier(text@),
            Token::Literal(literal) => TokenView::Literal(literal@),
            Token::End => TokenView::End,
        }
    }
}

/// The models of a sequence of tokens, one by one.
pub open spec fn token_views(tokens: Seq<Token<'_>>) -> Seq<TokenView> {
    tokens.map_values(|token: Token<'_>| token@)
}

/// Why a source text has no token sequence.
#[derive(Debug, Clone, Copy, PartialEq, Eq)]
pub enum TokenizeError<'a> {
    /// No token starts the text that this error carries: the source from the
    /// first character that could not be read to its end.
    InvalidToken(&'a str),
}

/// Whether `c` separates tokens: the characters with the Unicode property
/// White_Space.
pub open spec fn whitespace(c: char) -> bool {
    let code = c as u32;
    ||| 0x09 <= code <= 0x0d
    ||| code == 0x20
    ||| code == 0x85
    ||| code == 0xa0
    ||| code == 0x1680
    ||| 0x2000 <= code <= 0x200a
    ||| code == 0x2028
    ||| code == 0x2029
    ||| code == 0x202f
    ||| code == 0x205f
    ||| code == 0x3000
}

/// Whether `c` may start an identifier: a letter of `A` to `Z` or `a` to `z`,
/// or an underscore.
pub open spec fn identifier_head(c: char) -> bool {
    c == '_' || ('a' <= c <= 'z') || ('A' <= c <= 'Z')
}

/// Whether `c` is a decimal digit.
pub open spec fn digit(c: char) -> bool {
    '0' <= c <= '9'
}

/// Whether `c` may continue an identifier: what may start one, or a digit.
pub open spec fn identifier_body(c: char) -> bool {
    identifier_head(c) || digit(c)
}

/// How many characters of `text` from `from` on, without a gap, satisfy
/// `member`.
pub open spec fn run_length(text: Seq<char>, from: int, member: spec_fn(char) -> bool) -> nat
    decreases text.len() - from,
{
    if 0 <= from < text.len() && member(text[from]) {
        1 + run_length(text, from + 1, member)
    } else {
        0
    }
}

/// The length of the run of whitespace that `text` has at `from`.
pub open spec fn whitespace_run(text: Seq<char>, from: int) -> nat {
    run_length(text, from, |c: char| whitespace(c))
}

/// The length of the run of decimal digits that `text` has at `from`.
pub open spec fn digit_run(text: Seq<char>, from: int) -> nat {
    run_length(text, from, |c: char| digit(c))
}

/// The length of the run of characters other than a double quote that `text`
/// has at `from`.
pub open spec fn string_body_run(text: Seq<char>, from: int) -> nat {
    run_length(text, from, |c: char| c != '"')
}

/// The length of the word that `text` has at `from`: a character that may
/// start an identifier and the run of characters that may continue one; zero
/// where no word starts.
pub open spec fn word_length(text: Seq<char>, from: int) -> nat {
    if 0 <= from < text.len() && identifier_head(text[from]) {
        run_length(text, from, |c: char| identifier_body(c))
    } else {
        0
    }
}

/// Whether `word` stands in `text` at `from`.
pub open spec fn has_prefix_at(text: Seq<char>, from: int, word: Seq<char>) -> bool {
    &&& 0 <= from
    &&& from + word.len() <= text.len()
    &&& text.subrange(from, from + word.len()) == word
}

/// Whether `kind` is the longest punctuator that stands in `text` at `from`.
pub open spec fn longest_punctuator_at(text: Seq<char>, from: int, kind: PunctuatorKind) -> bool {
    &&& has_prefix_at(text, from, kind.spelling())
    &&& forall|other: PunctuatorKind| #[trigger]
        has_prefix_at(text, from, other.spelling()) ==> other.spelling().len()
            <= kind.spelling().len()
}

/// The punctuator that `text` has at `from`: the longest whose spelling stands
/// there, if any does.
pub open spec fn spec_punctuator(text: Seq<char>, from: int) -> Option<PunctuatorKind> {
    if exists|kind: PunctuatorKind| longest_punctuator_at(text, from, kind) {
        Some(choose|kind: PunctuatorKind| longest_punctuator_at(text, from, kind))
    } else {
        None
    }
}

/// The keyword that `word` spells, if it spells one.
pub open spec fn spec_keyword(word: Seq<char>) -> Option<KeywordKind> {
    if exists|kind: KeywordKind| kind.spelling() == word {
        Some(choose|kind: KeywordKind| kind.spelling() == word)
    } else {
        None
    }
}

/// The number that a sequence of decimal digits denotes.
pub open spec fn decimal_value(digits: Seq<char>) -> nat
    decreases digits.len(),
{
    if digits.len() == 0 {
        0
    } else {
        (decimal_value(digits.drop_last()) * 10 + (digits.last() as u32 - '0' as u32)) as nat
    }
}

/// The literal that `text` has at `from`, with the number of characters it
/// takes.
///
/// A string literal runs from a double quote to the next one and holds what
/// stands between them. A character literal is one character between single
/// quotes. A number is a run of decimal digits whose value fits in 32 bits
/// with a sign.
pub open spec fn spec_literal(text: Seq<char>, from: int) -> Option<(LiteralView, nat)> {
    if !(0 <= from < text.len()) {
        None
    } else if text[from] == '"' {
        let inner = string_body_run(text, from + 1);
        if from + 1 + inner < text.len() {
            Some((LiteralView::String(text.subrange(from + 1, from + 1 + inner)), inner + 2))
        } else {
            None
        }
    } else if text[from] == '\'' {
        if from + 2 < text.len() && text[from + 2] == '\'' {
            Some((LiteralView::Char(text[from + 1]), 3))
        } else {
            None
        }
    } else if digit(text[from]) {
        let length = digit_run(text, from);
        let value = decimal_value(text.subrange(from, from + length));
        if value <= i32::MAX {
            Some((LiteralView::Number(value as i32), length))
        } else {
            None
        }
    } else {
        None
    }
}

/// The token that `text` has at `from`, with the number of characters it
/// takes: the longest punctuator; else a run of identifier characters, which
/// is a keyword where it spells one and an identifier where it does not; else
/// a literal.
pub open spec fn spec_token(text: Seq<char>, from: int) -> Option<(TokenView, nat)> {
    let word = word_length(text, from);
    if let Some(kind) = spec_punctuator(text, from) {
        Some((TokenView::Punctuator(kind), kind.spelling().len()))
    } else if word > 0 {
        match spec_keyword(text.subrange(from, from + word)) {
            Some(kind) => Some((TokenView::Keyword(kind), word)),
            None => Some((TokenView::Identifier(text.subrange(from, from + word)), word)),
        }
    } else {
        match spec_literal(text, from) {
            Some((literal, length)) => Some((TokenView::Literal(literal), length)),
            None => None,
        }
    }
}

/// How many characters `text` has from `from` on.
pub open spec fn characters_left(text: Seq<char>, from: int) -> nat {
    if from <= text.len() {
        (text.len() - from) as nat
    } else {
        0
    }
}

/// The tokens of `text` from `from` on, closed by the end marker; or, where
/// some character starts no token, the text from that character on.
pub open spec fn spec_tokens_from(text: Seq<char>, from: int) -> Result<Seq<TokenView>, Seq<char>>
    decreases characters_left(text, from),
{
    let start = from + whitespace_run(text, from);
    if !(0 <= start < text.len()) {
        Ok(seq![TokenView::End])
    } else {
        match spec_token(text, start) {
            Some((token, length)) => if length > 0 {
                match spec_tokens_from(text, start + length) {
                    Ok(rest) => Ok(seq![token] + rest),
                    Err(remaining) => Err(remaining),
                }
            } else {
                Err(text.subrange(start, text.len() as int))
            },
            None => Err(text.subrange(start, text.len() as int)),
        }
    }
}

/// The token sequence of a source text.
pub open spec fn spec_tokenize(text: Seq<char>) -> Result<Seq<TokenView>, Seq<char>> {
    spec_tokens_from(text, 0)
}

/// Whether `c` separates tokens.
pub fn is_whitespace(c: char) -> (result: bool)
    ensures
        result == whitespace(c),
{
    let code: u32 = c as u32;
    (0x09 <= code && code <= 0x0d) || code == 0x20 || code == 0x85 || code == 0xa0 || code
        == 0x1680 || (0x2000 <= code && code <= 0x200a) || code == 0x2028 || code == 0x2029
        || code == 0x202f || code == 0x205f || code == 0x3000
}

/// Whether `p` may start an identifier.
pub fn is_identifier_head(p: char) -> (result: bool)
    ensures
        result == identifier_head(p),
{
    p == '_' || ('a' <= p && p <= 'z') || ('A' <= p && p <= 'Z')
}

/// Whether `p` is a decimal digit.
pub fn is_digit(p: char) -> (result: bool)
    ensures
        result == digit(p),
{
    '0' <= p && p <= '9'
}

/// Whether `p` may continue an identifier.
pub fn is_identifier_body(p: char) -> (result: bool)
    ensures
        result == identifier_body(p),
{
    is_identifier_head(p) || is_digit(p)
}

/// A source text and how far it has been read.
struct TokenizationContext<'a> {
    source: &'a str,
    characters: Vec<char>,
    ascii: bool,
    head: usize,
}

impl<'a> TokenizationContext<'a> {
    spec fn wf(&self) -> bool {
        &&& self.characters@ == self.source@
        &&& self.head <= self.characters.len()
        &&& self.ascii ==> self.source.is_ascii()
    }

    /// Whether `self` reads the same source as `other`.
    spec fn reads(&self, other: &Self) -> bool {
        &&& self.source == other.source
        &&& self.characters == other.characters
        &&& self.ascii == other.ascii
    }

    fn new(source: &'a str) -> (context: Self)
        ensures
            context.wf(),
            context.source == source,
            context.head == 0,
    {
        let mut characters: Vec<char> = Vec::new();
        for c in it: source.chars()
            invariant
                characters@ == source@.take(it.index() as int),
                it.seq() == source@,
        {
            characters.push(c);
        }
        assert(source@.take(source@.len() as int) =~= source@);
        TokenizationContext { source, characters, ascii: source.is_ascii(), head: 0 }
    }

    /// The source between two positions.
    fn slice(&self, from: usize, to: usize) -> (text: &'a str)
        requires
            self.wf(),
            from <= to <= self.characters.len(),
        ensures
            text@ == self.characters@.subrange(from as int, to as int),
    {
        if self.ascii {
            self.source.substring_ascii(from, to)
        } else {
            self.source.substring_char(from, to)
        }
    }
}

/// Moves the head over `count` characters.
fn consume_str(context: &mut TokenizationContext, count: usize)
    requires
        old(context).wf(),
        old(context).head + count <= old(context).characters.len(),
    ensures
        final(context).wf(),
        final(context).reads(old(context)),
        final(context).head == old(context).head + count,
{
    context.head = context.head + count;
}

/// Moves the head over the whitespace that stands at it.
fn skip_whitespace(context: &mut TokenizationContext)
    requires
        old(context).wf(),
    ensures
        final(context).wf(),
        final(context).reads(old(context)),
        final(context).head == old(context).head + whitespace_run(
            old(context).characters@,
            old(context).head as int,
        ),
{
    let mut count: usize = 0;
    while context.head + count < context.characters.len() && is_whitespace(
        context.characters[context.head + count],
    )
        invariant
            context.wf(),
            context.head + count <= context.characters.len(),
            whitespace_run(context.characters@, context.head as int) == count + whitespace_run(
                context.characters@,
                context.head + count,
            ),
        decreases context.characters.len() - context.head - count,
    {
        count = count + 1;
    }
    consume_str(context, count);
}

/// Whether `word` stands in `characters` at `from`.
fn starts_with(characters: &Vec<char>, from: usize, word: &str) -> (result: bool)
    requires
        from <= characters.len(),
    ensures
        result == has_prefix_at(characters@, from as int, word@),
{
    let length: usize = word.unicode_len();
    if length > characters.len() - from {
        return false;
    }
    let mut index: usize = 0;
    while index < length
        invariant
            index <= length,
            length == word@.len(),
            from + length <= characters.len(),
            characters@.subrange(from as int, from + index) == word@.take(index as int),
        decreases length - index,
    {
        if characters[from + index] != word.get_char(index) {
            assert(characters@.subrange(from as int, from + length)[index as int] != word@[index as int]);
            return false;
        }
        assert(characters@.subrange(from as int, from + index + 1) =~= word@.take(index + 1)) by {
            assert(characters@.subrange(from as int, from + index + 1) =~= characters@.subrange(
                from as int,
                from + index,
            ).push(characters@[from + index]));
            assert(word@.take(index + 1) =~= word@.take(index as int).push(word@[index as int]));
        }
        index = index + 1;
    }
    assert(word@.take(length as int) =~= word@);
    true
}

/// Moves the head over `q` where `q` stands at it.
fn consume_reserved(context: &mut TokenizationContext, q: &str) -> (result: bool)
    requires
        old(context).wf(),
    ensures
        final(context).wf(),
        final(context).reads(old(context)),
        result == has_prefix_at(old(context).characters@, old(context).head as int, q@),
        final(context).head == old(context).head + if result {
            q@.len()
        } else {
            0
        },
{
    if starts_with(&context.characters, context.head, q) {
        let count: usize = q.unicode_len();
        consume_str(context, count);
        true
    } else {
        false
    }
}

/// How each punctuator is spelled, character by character.
pub proof fn lemma_punctuator_spellings()
    ensures
        PunctuatorKind::LeftSquareBracket.spelling().len() == 1,
        PunctuatorKind::LeftSquareBracket.spelling()[0] == '[',
        PunctuatorKind::RightSquareBracket.spelling().len() == 1,
        PunctuatorKind::RightSquareBracket.spelling()[0] == ']',
        PunctuatorKind::LeftRoundBracket.spelling().len() == 1,
        PunctuatorKind::LeftRoundBracket.spelling()[0] == '(',
        PunctuatorKind::RightRoundBracket.spelling().len() == 1,
        PunctuatorKind::RightRoundBracket.spelling()[0] == ')',
        PunctuatorKind::LeftCurlyBracket.spelling().len() == 1,
        PunctuatorKind::LeftCurlyBracket.spelling()[0] == '{',
        PunctuatorKind::RightCurlyBracket.spelling().len() == 1,
        PunctuatorKind::RightCurlyBracket.spelling()[0] == '}',
        PunctuatorKind::Dot.spelling().len() == 1,
        PunctuatorKind::Dot.spelling()[0] == '.',
        PunctuatorKind::Arrow.spelling().len() == 2,
        PunctuatorKind::Arrow.spelling()[0] == '-',
        PunctuatorKind::Arrow.spelling()[1] == '>',
        PunctuatorKind::DoublePluses.spelling().len() == 2,
        PunctuatorKind::DoublePluses.spelling()[0] == '+',
        PunctuatorKind::DoublePluses.spelling()[1] == '+',
        PunctuatorKind::DoubleMinuses.spelling().len() == 2,
        PunctuatorKind::DoubleMinuses.spelling()[0] == '-',
        PunctuatorKind::DoubleMinuses.spelling()[1] == '-',
        PunctuatorKind::Ampersand.spelling().len() == 1,
        PunctuatorKind::Ampersand.spelling()[0] == '&',
        PunctuatorKind::Star.spelling().len() == 1,
        PunctuatorKind::Star.spelling()[0] == '*',
        PunctuatorKind::Plus.spelling().len() == 1,
        PunctuatorKind::Plus.spelling()[0] == '+',
        PunctuatorKind::Minus.spelling().len() == 1,
        PunctuatorKind::Minus.spelling()[0] == '-',
        PunctuatorKind::Tilde.spelling().len() == 1,
        PunctuatorKind::Tilde.spelling()[0] == '~',
        PunctuatorKind::Exclamation.spelling().len() == 1,
        PunctuatorKind::Exclamation.spelling()[0] == '!',
        PunctuatorKind::Slash.spelling().len() == 1,
        PunctuatorKind::Slash.spelling()[0] == '/',
        PunctuatorKind::Percent.spelling().len() == 1,
        PunctuatorKind::Percent.spelling()[0] == '%',
        PunctuatorKind::DoubleGreaterThans.spelling().len() == 2,
        PunctuatorKind::DoubleGreaterThans.spelling()[0] == '>',
        PunctuatorKind::DoubleGreaterThans.spelling()[1] == '>',
        PunctuatorKind::DoubleLessThans.spelling().len() == 2,
        PunctuatorKind::DoubleLessThans.spelling()[0] == '<',
        PunctuatorKind::DoubleLessThans.spelling()[1] == '<',
        PunctuatorKind::GreaterThan.spelling().len() == 1,
        PunctuatorKind::GreaterThan.spelling()[0] == '>',
        PunctuatorKind::LessThan.spelling().len() == 1,
        PunctuatorKind::LessThan.spelling()[0] == '<',
        PunctuatorKind::GreaterThanEqual.spelling().len() == 2,
        PunctuatorKind::GreaterThanEqual.spelling()[0] == '>',
        PunctuatorKind::GreaterThanEqual.spelling()[1] == '=',
        PunctuatorKind::LessThanEqual.spelling().len() == 2,
        PunctuatorKind::LessThanEqual.spelling()[0] == '<',
        PunctuatorKind::LessThanEqual.spelling()[1] == '=',
        PunctuatorKind::DoubleEquals.spelling().len() == 2,
        PunctuatorKind::DoubleEquals.spelling()[0] == '=',
        PunctuatorKind::DoubleEquals.spelling()[1] == '=',
        PunctuatorKind::ExclamationEqual.spelling().len() == 2,
        PunctuatorKind::ExclamationEqual.spelling()[0] == '!',
        PunctuatorKind::ExclamationEqual.spelling()[1] == '=',
        PunctuatorKind::Hat.spelling().len() == 1,
        PunctuatorKind::Hat.spelling()[0] == '^',
        PunctuatorKind::Pipeline.spelling().len() == 1,
        PunctuatorKind::Pipeline.spelling()[0] == '|',
        PunctuatorKind::DoubleAmpersands.spelling().len() == 2,
        PunctuatorKind::DoubleAmpersands.spelling()[0] == '&',
        PunctuatorKind::DoubleAmpersands.spelling()[1] == '&',
        PunctuatorKind::DoublePipelines.spelling().len() == 2,
        PunctuatorKind::DoublePipelines.spelling()[0] == '|',
        PunctuatorKind::DoublePipelines.spelling()[1] == '|',
        PunctuatorKind::Question.spelling().len() == 1,
        PunctuatorKind::Question.spelling()[0] == '?',
        PunctuatorKind::Colon.spelling().len() == 1,
        PunctuatorKind::Colon.spelling()[0] == ':',
        PunctuatorKind::Semicolon.spelling().len() == 1,
        PunctuatorKind::Semicolon.spelling()[0] == ';',
        PunctuatorKind::TripleDots.spelling().len() == 3,
        PunctuatorKind::TripleDots.spelling()[0] == '.',
        PunctuatorKind::TripleDots.spelling()[1] == '.',
        PunctuatorKind::TripleDots.spelling()[2] == '.',
        PunctuatorKind::Equal.spelling().len() == 1,
        PunctuatorKind::Equal.spelling()[0] == '=',
        PunctuatorKind::StarEqual.spelling().len() == 2,
        PunctuatorKind::StarEqual.spelling()[0] == '*',
        PunctuatorKind::StarEqual.spelling()[1] == '=',
        PunctuatorKind::SlashEqual.spelling().len() == 2,
        PunctuatorKind::SlashEqual.spelling()[0] == '/',
        PunctuatorKind::SlashEqual.spelling()[1] == '=',
        PunctuatorKind::PercentEqual.spelling().len() == 2,
        PunctuatorKind::PercentEqual.spelling()[0] == '%',
        PunctuatorKind::PercentEqual.spelling()[1] == '=',
        PunctuatorKind::PlusEqual.spelling().len() == 2,
        PunctuatorKind::PlusEqual.spelling()[0] == '+',
        PunctuatorKind::PlusEqual.spelling()[1] == '=',
        PunctuatorKind::MinusEqual.spelling().len() == 2,
        PunctuatorKind::MinusEqual.spelling()[0] == '-',
        PunctuatorKind::MinusEqual.spelling()[1] == '=',
        PunctuatorKind::DoubleGreaterThansEqual.spelling().len() == 3,
        PunctuatorKind::DoubleGreaterThansEqual.spelling()[0] == '>',
        PunctuatorKind::DoubleGreaterThansEqual.spelling()[1] == '>',
        PunctuatorKind::DoubleGreaterThansEqual.spelling()[2] == '=',
        PunctuatorKind::DoubleLessThansEqual.spelling().len() == 3,
        PunctuatorKind::DoubleLessThansEqual.spelling()[0] == '<',
        PunctuatorKind::DoubleLessThansEqual.spelling()[1] == '<',
        PunctuatorKind::DoubleLessThansEqual.spelling()[2] == '=',
        PunctuatorKind::AmpersandEqual.spelling().len() == 2,
        PunctuatorKind::AmpersandEqual.spelling()[0] == '&',
        PunctuatorKind::AmpersandEqual.spelling()[1] == '=',
        PunctuatorKind::HatEqual.spelling().len() == 2,
        PunctuatorKind::HatEqual.spelling()[0] == '^',
        PunctuatorKind::HatEqual.spelling()[1] == '=',
        PunctuatorKind::PipelineEqual.spelling().len() == 2,
        PunctuatorKind::PipelineEqual.spelling()[0] == '|',
        PunctuatorKind::PipelineEqual.spelling()[1] == '=',
        PunctuatorKind::Commma.spelling().len() == 1,
        PunctuatorKind::Commma.spelling()[0] == ',',
        PunctuatorKind::Sharp.spelling().len() == 1,
        PunctuatorKind::Sharp.spelling()[0] == '#',
        PunctuatorKind::DoubleSharps.spelling().len() == 2,
        PunctuatorKind::DoubleSharps.spelling()[0] == '#',
        PunctuatorKind::DoubleSharps.spelling()[1] == '#',
        PunctuatorKind::LessThanColon.spelling().len() == 2,
        PunctuatorKind::LessThanColon.spelling()[0] == '<',
        PunctuatorKind::LessThanColon.spelling()[1] == ':',
        PunctuatorKind::ColonGreaterThan.spelling().len() == 2,
        PunctuatorKind::ColonGreaterThan.spelling()[0] == ':',
        PunctuatorKind::ColonGreaterThan.spelling()[1] == '>',
        PunctuatorKind::LessThanPercent.spelling().len() == 2,
        PunctuatorKind::LessThanPercent.spelling()[0] == '<',
        PunctuatorKind::LessThanPercent.spelling()[1] == '%',
        PunctuatorKind::PercentGreaterThan.spelling().len() == 2,
        PunctuatorKind::PercentGreaterThan.spelling()[0] == '%',
        PunctuatorKind::PercentGreaterThan.spelling()[1] == '>',
        PunctuatorKind::PercentColon.spelling().len() == 2,
        PunctuatorKind::PercentColon.spelling()[0] == '%',
        PunctuatorKind::PercentColon.spelling()[1] == ':',
        PunctuatorKind::DoublePercentColons.spelling().len() == 4,
        PunctuatorKind::DoublePercentColons.spelling()[0] == '%',
        PunctuatorKind::DoublePercentColons.spelling()[1] == ':',
        PunctuatorKind::DoublePercentColons.spelling()[2] == '%',
        PunctuatorKind::DoublePercentColons.spelling()[3] == ':',
{
    reveal_strlit("[");
    reveal_strlit("]");
    reveal_strlit("(");
    reveal_strlit(")");
    reveal_strlit("{");
    reveal_strlit("}");
    reveal_strlit(".");
    reveal_strlit("->");
    reveal_strlit("++");
    reveal_strlit("--");
    reveal_strlit("&");
    reveal_strlit("*");
    reveal_strlit("+");
    reveal_strlit("-");
    reveal_strlit("~");
    reveal_strlit("!");
    reveal_strlit("/");
    reveal_strlit("%");
    reveal_strlit(">>");
    reveal_strlit("<<");
    reveal_strlit(">");
    reveal_strlit("<");
    reveal_strlit(">=");
    reveal_strlit("<=");
    reveal_strlit("==");
    reveal_strlit("!=");
    reveal_strlit("^");
    reveal_strlit("|");
    reveal_strlit("&&");
    reveal_strlit("||");
    reveal_strlit("?");
    reveal_strlit(":");
    reveal_strlit(";");
    reveal_strlit("...");
    reveal_strlit("=");
    reveal_strlit("*=");
    reveal_strlit("/=");
    reveal_strlit("%=");
    reveal_strlit("+=");
    reveal_strlit("-=");
    reveal_strlit(">>=");
    reveal_strlit("<<=");
    reveal_strlit("&=");
    reveal_strlit("^=");
    reveal_strlit("|=");
    reveal_strlit(",");
    reveal_strlit("#");
    reveal_strlit("##");
    reveal_strlit("<:");
    reveal_strlit(":>");
    reveal_strlit("<%");
    reveal_strlit("%>");
    reveal_strlit("%:");
    reveal_strlit("%:%:");
}

/// The character of `text` at `index`, as a number; zero past the end.
spec fn code_at(text: Seq<char>, index: int) -> int {
    if 0 <= index < text.len() {
        text[index] as int
    } else {
        0
    }
}

/// A number that tells apart any two texts that differ in length or in one of
/// their first eight characters.
spec fn text_key(text: Seq<char>) -> int {
    text.len() + 16 * (code_at(text, 0) + 256 * (code_at(text, 1) + 256 * (code_at(text, 2) + 256
        * (code_at(text, 3) + 256 * (code_at(text, 4) + 256 * (code_at(text, 5) + 256 * (code_at(
        text,
        6,
    ) + 256 * code_at(text, 7))))))))
}

/// No two punctuators are spelled alike.
pub proof fn lemma_punctuator_spelling_injective(a: PunctuatorKind, b: PunctuatorKind)
    requires
        a.spelling() == b.spelling(),
    ensures
        a == b,
{
    lemma_punctuator_spellings();
    assert(text_key(a.spelling()) == text_key(b.spelling()));
}

/// A punctuator that is tried earlier is at least as long as one that is tried
/// later.
pub proof fn lemma_priority_prefers_longer(a: PunctuatorKind, b: PunctuatorKind)
    requires
        a.priority() <= b.priority(),
    ensures
        a.spelling().len() >= b.spelling().len(),
        b.spelling().len() > 0,
{
    lemma_punctuator_spellings();
}

/// Moves the head over the longest punctuator that stands at it.
fn punctuator(context: &mut TokenizationContext) -> (result: Option<PunctuatorKind>)
    requires
        old(context).wf(),
    ensures
        final(context).wf(),
        final(context).reads(old(context)),
        result == spec_punctuator(old(context).characters@, old(context).head as int),
        final(context).head == old(context).head + match result {
            Some(kind) => kind.spelling().len(),
            None => 0,
        },
        result matches Some(kind) ==> kind.spelling().len() > 0,
{
    let ghost text = context.characters@;
    let ghost from = context.head as int;
    let mut rank: u8 = 0;
    while rank < 54
        invariant
            rank <= 54,
            context.wf(),
            context.reads(old(context)),
            context.head == from == old(context).head,
            text == context.characters@,
            text == old(context).characters@,
            forall|other: PunctuatorKind|
                other.priority() < rank ==> !#[trigger] has_prefix_at(text, from, other.spelling()),
        decreases 54 - rank,
    {
        let kind = PunctuatorKind::by_priority(rank);
        if consume_reserved(context, kind.symbol()) {
            proof {
                assert forall|other: PunctuatorKind| #[trigger]
                    has_prefix_at(text, from, other.spelling()) implies other.spelling().len()
                    <= kind.spelling().len() by {
                    lemma_priority_prefers_longer(kind, other);
                }
                assert(longest_punctuator_at(text, from, kind));
                let chosen = choose|kind: PunctuatorKind| longest_punctuator_at(text, from, kind);
                assert(chosen.spelling().len() == kind.spelling().len());
                lemma_punctuator_spelling_injective(chosen, kind);
                lemma_priority_prefers_longer(kind, kind);
            }
            return Some(kind);
        }
        rank = rank + 1;
    }
    None
}

/// How each keyword is spelled, character by character.
pub proof fn lemma_keyword_spellings()
    ensures
        KeywordKind::Auto.spelling().len() == 4,
        KeywordKind::Auto.spelling()[0] == 'a',
        KeywordKind::Auto.spelling()[1] == 'u',
        KeywordKind::Auto.spelling()[2] == 't',
        KeywordKind::Auto.spelling()[3] == 'o',
        KeywordKind::Break.spelling().len() == 5,
        KeywordKind::Break.spelling()[0] == 'b',
        KeywordKind::Break.spelling()[1] == 'r',
        KeywordKind::Break.spelling()[2] == 'e',
        KeywordKind::Break.spelling()[3] == 'a',
        KeywordKind::Break.spelling()[4] == 'k',
        KeywordKind::Case.spelling().len() == 4,
        KeywordKind::Case.spelling()[0] == 'c',
        KeywordKind::Case.spelling()[1] == 'a',
        KeywordKind::Case.spelling()[2] == 's',
        KeywordKind::Case.spelling()[3] == 'e',
        KeywordKind::Char.spelling().len() == 4,
        KeywordKind::Char.spelling()[0] == 'c',
        KeywordKind::Char.spelling()[1] == 'h',
        KeywordKind::Char.spelling()[2] == 'a',
        KeywordKind::Char.spelling()[3] == 'r',
        KeywordKind::Const.spelling().len() == 5,
        KeywordKind::Const.spelling()[0] == 'c',
        KeywordKind::Const.spelling()[1] == 'o',
        KeywordKind::Const.spelling()[2] == 'n',
        KeywordKind::Const.spelling()[3] == 's',
        KeywordKind::Const.spelling()[4] == 't',
        KeywordKind::Continue.spelling().len() == 8,
        KeywordKind::Continue.spelling()[0] == 'c',
        KeywordKind::Continue.spelling()[1] == 'o',
        KeywordKind::Continue.spelling()[2] == 'n',
        KeywordKind::Continue.spelling()[3] == 't',
        KeywordKind::Continue.spelling()[4] == 'i',
        KeywordKind::Continue.spelling()[5] == 'n',
        KeywordKind::Continue.spelling()[6] == 'u',
        KeywordKind::Continue.spelling()[7] == 'e',
        KeywordKind::_Default.spelling().len() == 7,
        KeywordKind::_Default.spelling()[0] == 'd',
        KeywordKind::_Default.spelling()[1] == 'e',
        KeywordKind::_Default.spelling()[2] == 'f',
        KeywordKind::_Default.spelling()[3] == 'a',
        KeywordKind::_Default.spelling()[4] == 'u',
        KeywordKind::_Default.spelling()[5] == 'l',
        KeywordKind::_Default.spelling()[6] == 't',
        KeywordKind::Do.spelling().len() == 2,
        KeywordKind::Do.spelling()[0] == 'd',
        KeywordKind::Do.spelling()[1] == 'o',
        KeywordKind::Double.spelling().len() == 6,
        KeywordKind::Double.spelling()[0] == 'd',
        KeywordKind::Double.spelling()[1] == 'o',
        KeywordKind::Double.spelling()[2] == 'u',
        KeywordKind::Double.spelling()[3] == 'b',
        KeywordKind::Double.spelling()[4] == 'l',
        KeywordKind::Double.spelling()[5] == 'e',
        KeywordKind::Else.spelling().len() == 4,
        KeywordKind::Else.spelling()[0] == 'e',
        KeywordKind::Else.spelling()[1] == 'l',
        KeywordKind::Else.spelling()[2] == 's',
        KeywordKind::Else.spelling()[3] == 'e',
        KeywordKind::Enum.spelling().len() == 4,
        KeywordKind::Enum.spelling()[0] == 'e',
        KeywordKind::Enum.spelling()[1] == 'n',
        KeywordKind::Enum.spelling()[2] == 'u',
        KeywordKind::Enum.spelling()[3] == 'm',
        KeywordKind::Extern.spelling().len() == 6,
        KeywordKind::Extern.spelling()[0] == 'e',
        KeywordKind::Extern.spelling()[1] == 'x',
        KeywordKind::Extern.spelling()[2] == 't',
        KeywordKind::Extern.spelling()[3] == 'e',
        KeywordKind::Extern.spelling()[4] == 'r',
        KeywordKind::Extern.spelling()[5] == 'n',
        KeywordKind::Float.spelling().len() == 5,
        KeywordKind::Float.spelling()[0] == 'f',
        KeywordKind::Float.spelling()[1] == 'l',
        KeywordKind::Float.spelling()[2] == 'o',
        KeywordKind::Float.spelling()[3] == 'a',
        KeywordKind::Float.spelling()[4] == 't',
        KeywordKind::For.spelling().len() == 3,
        KeywordKind::For.spelling()[0] == 'f',
        KeywordKind::For.spelling()[1] == 'o',
        KeywordKind::For.spelling()[2] == 'r',
        KeywordKind::Goto.spelling().len() == 4,
        KeywordKind::Goto.spelling()[0] == 'g',
        KeywordKind::Goto.spelling()[1] == 'o',
        KeywordKind::Goto.spelling()[2] == 't',
        KeywordKind::Goto.spelling()[3] == 'o',
        KeywordKind::If.spelling().len() == 2,
        KeywordKind::If.spelling()[0] == 'i',
        KeywordKind::If.spelling()[1] == 'f',
        KeywordKind::Inline.spelling().len() == 6,
        KeywordKind::Inline.spelling()[0] == 'i',
        KeywordKind::Inline.spelling()[1] == 'n',
        KeywordKind::Inline.spelling()[2] == 'l',
        KeywordKind::Inline.spelling()[3] == 'i',
        KeywordKind::Inline.spelling()[4] == 'n',
        KeywordKind::Inline.spelling()[5] == 'e',
        KeywordKind::Int.spelling().len() == 3,
        KeywordKind::Int.spelling()[0] == 'i',
        KeywordKind::Int.spelling()[1] == 'n',
        KeywordKind::Int.spelling()[2] == 't',
        KeywordKind::Long.spelling().len() == 4,
        KeywordKind::Long.spelling()[0] == 'l',
        KeywordKind::Long.spelling()[1] == 'o',
        KeywordKind::Long.spelling()[2] == 'n',
        KeywordKind::Long.spelling()[3] == 'g',
        KeywordKind::Register.spelling().len() == 8,
        KeywordKind::Register.spelling()[0] == 'r',
        KeywordKind::Register.spelling()[1] == 'e',
        KeywordKind::Register.spelling()[2] == 'g',
        KeywordKind::Register.spelling()[3] == 'i',
        KeywordKind::Register.spelling()[4] == 's',
        KeywordKind::Register.spelling()[5] == 't',
        KeywordKind::Register.spelling()[6] == 'e',
        KeywordKind::Register.spelling()[7] == 'r',
        KeywordKind::Restrict.spelling().len() == 8,
        KeywordKind::Restrict.spelling()[0] == 'r',
        KeywordKind::Restrict.spelling()[1] == 'e',
        KeywordKind::Restrict.spelling()[2] == 's',
        KeywordKind::Restrict.spelling()[3] == 't',
        KeywordKind::Restrict.spelling()[4] == 'r',
        KeywordKind::Restrict.spelling()[5] == 'i',
        KeywordKind::Restrict.spelling()[6] == 'c',
        KeywordKind::Restrict.spelling()[7] == 't',
        KeywordKind::Return.spelling().len() == 6,
        KeywordKind::Return.spelling()[0] == 'r',
        KeywordKind::Return.spelling()[1] == 'e',
        KeywordKind::Return.spelling()[2] == 't',
        KeywordKind::Return.spelling()[3] == 'u',
        KeywordKind::Return.spelling()[4] == 'r',
        KeywordKind::Return.spelling()[5] == 'n',
        KeywordKind::Short.spelling().len() == 5,
        KeywordKind::Short.spelling()[0] == 's',
        KeywordKind::Short.spelling()[1] == 'h',
        KeywordKind::Short.spelling()[2] == 'o',
        KeywordKind::Short.spelling()[3] == 'r',
        KeywordKind::Short.spelling()[4] == 't',
        KeywordKind::Signed.spelling().len() == 6,
        KeywordKind::Signed.spelling()[0] == 's',
        KeywordKind::Signed.spelling()[1] == 'i',
        KeywordKind::Signed.spelling()[2] == 'g',
        KeywordKind::Signed.spelling()[3] == 'n',
        KeywordKind::Signed.spelling()[4] == 'e',
        KeywordKind::Signed.spelling()[5] == 'd',
        KeywordKind::Sizeof.spelling().len() == 6,
        KeywordKind::Sizeof.spelling()[0] == 's',
        KeywordKind::Sizeof.spelling()[1] == 'i',
        KeywordKind::Sizeof.spelling()[2] == 'z',
        KeywordKind::Sizeof.spelling()[3] == 'e',
        KeywordKind::Sizeof.spelling()[4] == 'o',
        KeywordKind::Sizeof.spelling()[5] == 'f',
        KeywordKind::Static.spelling().len() == 6,
        KeywordKind::Static.spelling()[0] == 's',
        KeywordKind::Static.spelling()[1] == 't',
        KeywordKind::Static.spelling()[2] == 'a',
        KeywordKind::Static.spelling()[3] == 't',
        KeywordKind::Static.spelling()[4] == 'i',
        KeywordKind::Static.spelling()[5] == 'c',
        KeywordKind::Struct.spelling().len() == 6,
        KeywordKind::Struct.spelling()[0] == 's',
        KeywordKind::Struct.spelling()[1] == 't',
        KeywordKind::Struct.spelling()[2] == 'r',
        KeywordKind::Struct.spelling()[3] == 'u',
        KeywordKind::Struct.spelling()[4] == 'c',
        KeywordKind::Struct.spelling()[5] == 't',
        KeywordKind::Switch.spelling().len() == 6,
        KeywordKind::Switch.spelling()[0] == 's',
        KeywordKind::Switch.spelling()[1] == 'w',
        KeywordKind::Switch.spelling()[2] == 'i',
        KeywordKind::Switch.spelling()[3] == 't',
        KeywordKind::Switch.spelling()[4] == 'c',
        KeywordKind::Switch.spelling()[5] == 'h',
        KeywordKind::Typedef.spelling().len() == 7,
        KeywordKind::Typedef.spelling()[0] == 't',
        KeywordKind::Typedef.spelling()[1] == 'y',
        KeywordKind::Typedef.spelling()[2] == 'p',
        KeywordKind::Typedef.spelling()[3] == 'e',
        KeywordKind::Typedef.spelling()[4] == 'd',
        KeywordKind::Typedef.spelling()[5] == 'e',
        KeywordKind::Typedef.spelling()[6] == 'f',
        KeywordKind::Union.spelling().len() == 5,
        KeywordKind::Union.spelling()[0] == 'u',
        KeywordKind::Union.spelling()[1] == 'n',
        KeywordKind::Union.spelling()[2] == 'i',
        KeywordKind::Union.spelling()[3] == 'o',
        KeywordKind::Union.spelling()[4] == 'n',
        KeywordKind::Unsigned.spelling().len() == 8,
        KeywordKind::Unsigned.spelling()[0] == 'u',
        KeywordKind::Unsigned.spelling()[1] == 'n',
        KeywordKind::Unsigned.spelling()[2] == 's',
        KeywordKind::Unsigned.spelling()[3] == 'i',
        KeywordKind::Unsigned.spelling()[4] == 'g',
        KeywordKind::Unsigned.spelling()[5] == 'n',
        KeywordKind::Unsigned.spelling()[6] == 'e',
        KeywordKind::Unsigned.spelling()[7] == 'd',
        KeywordKind::Void.spelling().len() == 4,
        KeywordKind::Void.spelling()[0] == 'v',
        KeywordKind::Void.spelling()[1] == 'o',
        KeywordKind::Void.spelling()[2] == 'i',
        KeywordKind::Void.spelling()[3] == 'd',
        KeywordKind::Volatile.spelling().len() == 8,
        KeywordKind::Volatile.spelling()[0] == 'v',
        KeywordKind::Volatile.spelling()[1] == 'o',
        KeywordKind::Volatile.spelling()[2] == 'l',
        KeywordKind::Volatile.spelling()[3] == 'a',
        KeywordKind::Volatile.spelling()[4] == 't',
        KeywordKind::Volatile.spelling()[5] == 'i',
        KeywordKind::Volatile.spelling()[6] == 'l',
        KeywordKind::Volatile.spelling()[7] == 'e',
        KeywordKind::While.spelling().len() == 5,
        KeywordKind::While.spelling()[0] == 'w',
        KeywordKind::While.spelling()[1] == 'h',
        KeywordKind::While.spelling()[2] == 'i',
        KeywordKind::While.spelling()[3] == 'l',
        KeywordKind::While.spelling()[4] == 'e',
        KeywordKind::Alignas.spelling().len() == 8,
        KeywordKind::Alignas.spelling()[0] == '_',
        KeywordKind::Alignas.spelling()[1] == 'A',
        KeywordKind::Alignas.spelling()[2] == 'l',
        KeywordKind::Alignas.spelling()[3] == 'i',
        KeywordKind::Alignas.spelling()[4] == 'g',
        KeywordKind::Alignas.spelling()[5] == 'n',
        KeywordKind::Alignas.spelling()[6] == 'a',
        KeywordKind::Alignas.spelling()[7] == 's',
        KeywordKind::Alignof.spelling().len() == 8,
        KeywordKind::Alignof.spelling()[0] == '_',
        KeywordKind::Alignof.spelling()[1] == 'A',
        KeywordKind::Alignof.spelling()[2] == 'l',
        KeywordKind::Alignof.spelling()[3] == 'i',
        KeywordKind::Alignof.spelling()[4] == 'g',
        KeywordKind::Alignof.spelling()[5] == 'n',
        KeywordKind::Alignof.spelling()[6] == 'o',
        KeywordKind::Alignof.spelling()[7] == 'f',
        KeywordKind::Atomic.spelling().len() == 7,
        KeywordKind::Atomic.spelling()[0] == '_',
        KeywordKind::Atomic.spelling()[1] == 'A',
        KeywordKind::Atomic.spelling()[2] == 't',
        KeywordKind::Atomic.spelling()[3] == 'o',
        KeywordKind::Atomic.spelling()[4] == 'm',
        KeywordKind::Atomic.spelling()[5] == 'i',
        KeywordKind::Atomic.spelling()[6] == 'c',
        KeywordKind::Bool.spelling().len() == 5,
        KeywordKind::Bool.spelling()[0] == '_',
        KeywordKind::Bool.spelling()[1] == 'B',
        KeywordKind::Bool.spelling()[2] == 'o',
        KeywordKind::Bool.spelling()[3] == 'o',
        KeywordKind::Bool.spelling()[4] == 'l',
        KeywordKind::Complex.spelling().len() == 8,
        KeywordKind::Complex.spelling()[0] == '_',
        KeywordKind::Complex.spelling()[1] == 'C',
        KeywordKind::Complex.spelling()[2] == 'o',
        KeywordKind::Complex.spelling()[3] == 'm',
        KeywordKind::Complex.spelling()[4] == 'p',
        KeywordKind::Complex.spelling()[5] == 'l',
        KeywordKind::Complex.spelling()[6] == 'e',
        KeywordKind::Complex.spelling()[7] == 'x',
        KeywordKind::Generic.spelling().len() == 8,
        KeywordKind::Generic.spelling()[0] == '_',
        KeywordKind::Generic.spelling()[1] == 'G',
        KeywordKind::Generic.spelling()[2] == 'e',
        KeywordKind::Generic.spelling()[3] == 'n',
        KeywordKind::Generic.spelling()[4] == 'e',
        KeywordKind::Generic.spelling()[5] == 'r',
        KeywordKind::Generic.spelling()[6] == 'i',
        KeywordKind::Generic.spelling()[7] == 'c',
        KeywordKind::Imaginary.spelling().len() == 10,
        KeywordKind::Imaginary.spelling()[0] == '_',
        KeywordKind::Imaginary.spelling()[1] == 'I',
        KeywordKind::Imaginary.spelling()[2] == 'm',
        KeywordKind::Imaginary.spelling()[3] == 'a',
        KeywordKind::Imaginary.spelling()[4] == 'g',
        KeywordKind::Imaginary.spelling()[5] == 'i',
        KeywordKind::Imaginary.spelling()[6] == 'n',
        KeywordKind::Imaginary.spelling()[7] == 'a',
        KeywordKind::Imaginary.spelling()[8] == 'r',
        KeywordKind::Imaginary.spelling()[9] == 'y',
        KeywordKind::Noreturn.spelling().len() == 9,
        KeywordKind::Noreturn.spelling()[0] == '_',
        KeywordKind::Noreturn.spelling()[1] == 'N',
        KeywordKind::Noreturn.spelling()[2] == 'o',
        KeywordKind::Noreturn.spelling()[3] == 'r',
        KeywordKind::Noreturn.spelling()[4] == 'e',
        KeywordKind::Noreturn.spelling()[5] == 't',
        KeywordKind::Noreturn.spelling()[6] == 'u',
        KeywordKind::Noreturn.spelling()[7] == 'r',
        KeywordKind::Noreturn.spelling()[8] == 'n',
        KeywordKind::StaticAssert.spelling().len() == 14,
        KeywordKind::StaticAssert.spelling()[0] == '_',
        KeywordKind::StaticAssert.spelling()[1] == 'S',
        KeywordKind::StaticAssert.spelling()[2] == 't',
        KeywordKind::StaticAssert.spelling()[3] == 'a',
        KeywordKind::StaticAssert.spelling()[4] == 't',
        KeywordKind::StaticAssert.spelling()[5] == 'i',
        KeywordKind::StaticAssert.spelling()[6] == 'c',
        KeywordKind::StaticAssert.spelling()[7] == '_',
        KeywordKind::StaticAssert.spelling()[8] == 'a',
        KeywordKind::StaticAssert.spelling()[9] == 's',
        KeywordKind::StaticAssert.spelling()[10] == 's',
        KeywordKind::StaticAssert.spelling()[11] == 'e',
        KeywordKind::StaticAssert.spelling()[12] == 'r',
        KeywordKind::StaticAssert.spelling()[13] == 't',
        KeywordKind::ThreadLocal.spelling().len() == 13,
        KeywordKind::ThreadLocal.spelling()[0] == '_',
        KeywordKind::ThreadLocal.spelling()[1] == 'T',
        KeywordKind::ThreadLocal.spelling()[2] == 'h',
        KeywordKind::ThreadLocal.spelling()[3] == 'r',
        KeywordKind::ThreadLocal.spelling()[4] == 'e',
        KeywordKind::ThreadLocal.spelling()[5] == 'a',
        KeywordKind::ThreadLocal.spelling()[6] == 'd',
        KeywordKind::ThreadLocal.spelling()[7] == '_',
        KeywordKind::ThreadLocal.spelling()[8] == 'l',
        KeywordKind::ThreadLocal.spelling()[9] == 'o',
        KeywordKind::ThreadLocal.spelling()[10] == 'c',
        KeywordKind::ThreadLocal.spelling()[11] == 'a',
        KeywordKind::ThreadLocal.spelling()[12] == 'l',
{
    reveal_strlit("auto");
    reveal_strlit("break");
    reveal_strlit("case");
    reveal_strlit("char");
    reveal_strlit("const");
    reveal_strlit("continue");
    reveal_strlit("default");
    reveal_strlit("do");
    reveal_strlit("double");
    reveal_strlit("else");
    reveal_strlit("enum");
    reveal_strlit("extern");
    reveal_strlit("float");
    reveal_strlit("for");
    reveal_strlit("goto");
    reveal_strlit("if");
    reveal_strlit("inline");
    reveal_strlit("int");
    reveal_strlit("long");
    reveal_strlit("register");
    reveal_strlit("restrict");
    reveal_strlit("return");
    reveal_strlit("short");
    reveal_strlit("signed");
    reveal_strlit("sizeof");
    reveal_strlit("static");
    reveal_strlit("struct");
    reveal_strlit("switch");
    reveal_strlit("typedef");
    reveal_strlit("union");
    reveal_strlit("unsigned");
    reveal_strlit("void");
    reveal_strlit("volatile");
    reveal_strlit("while");
    reveal_strlit("_Alignas");
    reveal_strlit("_Alignof");
    reveal_strlit("_Atomic");
    reveal_strlit("_Bool");
    reveal_strlit("_Complex");
    reveal_strlit("_Generic");
    reveal_strlit("_Imaginary");
    reveal_strlit("_Noreturn");
    reveal_strlit("_Static_assert");
    reveal_strlit("_Thread_local");
}

/// No two keywords are spelled alike.
pub proof fn lemma_keyword_spelling_injective(a: KeywordKind, b: KeywordKind)
    requires
        a.spelling() == b.spelling(),
    ensures
        a == b,
{
    lemma_keyword_spellings();
    assert(text_key(a.spelling()) == text_key(b.spelling()));
}

/// The keyword that the characters from `from` up to `to` spell, if they spell
/// one.
fn keyword(characters: &Vec<char>, from: usize, to: usize) -> (result: Option<KeywordKind>)
    requires
        from <= to <= characters.len(),
    ensures
        result == spec_keyword(characters@.subrange(from as int, to as int)),
{
    let ghost word = characters@.subrange(from as int, to as int);
    let mut rank: u8 = 0;
    while rank < 44
        invariant
            rank <= 44,
            from <= to <= characters.len(),
            word == characters@.subrange(from as int, to as int),
            forall|other: KeywordKind| other.ordinal() < rank ==> #[trigger] other.spelling() != word,
        decreases 44 - rank,
    {
        let kind = KeywordKind::by_ordinal(rank);
        let spelled = kind.word();
        if spelled.unicode_len() == to - from && starts_with(characters, from, spelled) {
            proof {
                let chosen = choose|kind: KeywordKind| kind.spelling() == word;
                lemma_keyword_spelling_injective(chosen, kind);
            }
            return Some(kind);
        }
        rank = rank + 1;
    }
    None
}

/// The length of the word that stands in `characters` at `from`.
fn count_identifier_length(characters: &Vec<char>, from: usize) -> (result: usize)
    requires
        from <= characters.len(),
    ensures
        result == word_length(characters@, from as int),
        from + result <= characters.len(),
{
    if from >= characters.len() || !is_identifier_head(characters[from]) {
        return 0;
    }
    let ghost member = |c: char| identifier_body(c);
    let mut count: usize = 1;
    while from + count < characters.len() && is_identifier_body(characters[from + count])
        invariant
            1 <= count,
            from + count <= characters.len(),
            member == (|c: char| identifier_body(c)),
            run_length(characters@, from as int, member) == count + run_length(
                characters@,
                from + count,
                member,
            ),
        decreases characters.len() - from - count,
    {
        count = count + 1;
    }
    count
}

/// Moves the head over the word that stands at it and returns the word.
fn consume_identifier<'a>(context: &mut TokenizationContext<'a>) -> (result: Option<&'a str>)
    requires
        old(context).wf(),
    ensures
        final(context).wf(),
        final(context).reads(old(context)),
        final(context).head == old(context).head + word_length(
            old(context).characters@,
            old(context).head as int,
        ),
        match result {
            Some(word) => final(context).head > old(context).head && word@ == old(
                context,
            ).characters@.subrange(old(context).head as int, final(context).head as int),
            None => final(context).head == old(context).head,
        },
{
    let count = count_identifier_length(&context.characters, context.head);
    if count > 0 {
        let word = context.slice(context.head, context.head + count);
        consume_str(context, count);
        Some(word)
    } else {
        None
    }
}

/// A longer run of digits denotes no smaller number than the digits it starts
/// with.
proof fn lemma_decimal_value_grows(text: Seq<char>, from: int, shorter: int, longer: int)
    requires
        0 <= from,
        0 <= shorter <= longer,
        from + longer <= text.len(),
        forall|index: int| from <= index < from + longer ==> digit(#[trigger] text[index]),
    ensures
        decimal_value(text.subrange(from, from + shorter)) <= decimal_value(
            text.subrange(from, from + longer),
        ),
    decreases longer,
{
    if shorter < longer {
        lemma_decimal_value_grows(text, from, shorter, longer - 1);
        assert(text.subrange(from, from + longer).drop_last() =~= text.subrange(
            from,
            from + longer - 1,
        ));
        assert(digit(text[from + longer - 1]));
    }
}

/// Every character of a run of digits is a digit.
proof fn lemma_digit_run(text: Seq<char>, from: int)
    requires
        0 <= from,
    ensures
        from + digit_run(text, from) <= text.len() || digit_run(text, from) == 0,
        forall|index: int|
            from <= index < from + digit_run(text, from) ==> digit(#[trigger] text[index]),
    decreases text.len() - from,
{
    if from < text.len() && digit(text[from]) {
        lemma_digit_run(text, from + 1);
    }
}

/// Moves the head over the literal that stands at it and returns the literal.
fn consume_literal<'a>(context: &mut TokenizationContext<'a>) -> (result: Option<Literal<'a>>)
    requires
        old(context).wf(),
    ensures
        final(context).wf(),
        final(context).reads(old(context)),
        match spec_literal(old(context).characters@, old(context).head as int) {
            Some((literal, length)) => {
                &&& result matches Some(found)
                &&& found@ == literal
                &&& final(context).head == old(context).head + length
                &&& length > 0
            },
            None => result is None && final(context).head == old(context).head,
        },
{
    let from: usize = context.head;
    let end: usize = context.characters.len();
    if from >= end {
        return None;
    }
    let first = context.characters[from];
    if first == '"' {
        let ghost member = |c: char| c != '"';
        let mut count: usize = 0;
        while from + 1 + count < end && context.characters[from + 1 + count] != '"'
            invariant
                context.wf(),
                context.reads(old(context)),
                context.head == from,
                end == context.characters.len(),
                from + 1 + count <= end,
                member == (|c: char| c != '"'),
                run_length(context.characters@, from + 1, member) == count + run_length(
                    context.characters@,
                    from + 1 + count,
                    member,
                ),
            decreases end - from - count,
        {
            count = count + 1;
        }
        if from + 1 + count < end {
            let content = context.slice(from + 1, from + 1 + count);
            consume_str(context, count + 2);
            Some(Literal::String(content))
        } else {
            None
        }
    } else if first == '\'' {
        if end - from > 2 && context.characters[from + 2] == '\'' {
            let content = context.characters[from + 1];
            consume_str(context, 3);
            Some(Literal::Char(content))
        } else {
            None
        }
    } else if is_digit(first) {
        let ghost member = |c: char| digit(c);
        let ghost text = context.characters@;
        let mut count: usize = 0;
        let mut value: u64 = 0;
        proof {
            lemma_digit_run(text, from as int);
            assert(text.subrange(from as int, from as int) =~= Seq::<char>::empty());
        }
        while from + count < end && is_digit(context.characters[from + count])
            invariant
                context.wf(),
                context.reads(old(context)),
                context.head == from,
                text == context.characters@,
                end == context.characters.len(),
                from + count <= end,
                member == (|c: char| digit(c)),
                run_length(text, from as int, member) == count + run_length(
                    text,
                    from + count,
                    member,
                ),
                value == decimal_value(text.subrange(from as int, from + count)),
                value <= i32::MAX,
                forall|index: int|
                    from <= index < from + digit_run(text, from as int) ==> digit(
                        #[trigger] text[index],
                    ),
                from + digit_run(text, from as int) <= text.len(),
            decreases end - from - count,
        {
            let next: u64 = value * 10 + (context.characters[from + count] as u32 - '0' as u32) as u64;
            proof {
                assert(text.subrange(from as int, from + count + 1).drop_last() =~= text.subrange(
                    from as int,
                    from + count,
                ));
                assert(next == decimal_value(text.subrange(from as int, from + count + 1)));
            }
            if next > i32::MAX as u64 {
                proof {
                    lemma_decimal_value_grows(
                        text,
                        from as int,
                        count + 1,
                        digit_run(text, from as int) as int,
                    );
                }
                return None;
            }
            value = next;
            count = count + 1;
        }
        consume_str(context, count);
        Some(Literal::Number(value as i32))
    } else {
        None
    }
}

/// The tokens `before`, then the tokens that `after` holds; the error of
/// `after` where it holds one.
pub open spec fn followed_by(before: Seq<TokenView>, after: Result<Seq<TokenView>, Seq<char>>) -> Result<
    Seq<TokenView>,
    Seq<char>,
> {
    match after {
        Ok(rest) => Ok(before + rest),
        Err(remaining) => Err(remaining),
    }
}

/// Splits a source text into its tokens.
///
/// The result is the token sequence that [`spec_tokenize`] gives the text,
/// closed by [`Token::End`]. Where some character starts no token, the error
/// carries the source from that character on.
pub fn tokenize<'a>(source: &'a str) -> (result: Result<Vec<Token<'a>>, TokenizeError<'a>>)
    ensures
        match spec_tokenize(source@) {
            Ok(tokens) => result matches Ok(found) && token_views(found@) == tokens,
            Err(remaining) => result matches Err(TokenizeError::InvalidToken(text)) && text@
                == remaining,
        },
        result matches Ok(found) ==> found@.len() > 0 && found@.last() == Token::End,
{
    let mut context = TokenizationContext::new(source);
    let mut result: Vec<Token<'a>> = Vec::new();
    let ghost text = source@;
    assert(token_views(result@) =~= Seq::<TokenView>::empty());
    assert(followed_by(token_views(result@), spec_tokens_from(text, 0)) == spec_tokenize(text)) by {
        match spec_tokens_from(text, 0) {
            Ok(rest) => {
                assert(token_views(result@) + rest =~= rest);
            },
            Err(_) => {},
        }
    }
    loop
        invariant_except_break
            spec_tokenize(text) == followed_by(
                token_views(result@),
                spec_tokens_from(text, context.head as int),
            ),
        invariant
            context.wf(),
            context.source == source,
            text == source@,
        ensures
            spec_tokenize(text) == followed_by(token_views(result@), Ok(seq![TokenView::End])),
        decreases context.characters.len() - context.head,
    {
        let ghost before = context.head as int;
        skip_whitespace(&mut context);
        if context.head >= context.characters.len() {
            break ;
        }
        let start: usize = context.head;
        let ghost token = spec_token(text, start as int);
        let item = if let Some(kind) = punctuator(&mut context) {
            Token::Punctuator(kind)
        } else if let Some(word) = consume_identifier(&mut context) {
            match keyword(&context.characters, start, context.head) {
                Some(kind) => Token::Keyword(kind),
                None => Token::Identifier(word),
            }
        } else if let Some(literal) = consume_literal(&mut context) {
            Token::Literal(literal)
        } else {
            let remaining = context.slice(context.head, context.characters.len());
            return Err(TokenizeError::InvalidToken(remaining));
        };
        proof {
            assert(token == Some((item@, (context.head - start) as nat)));
            assert(context.head > start);
            let rest = spec_tokens_from(text, context.head as int);
            assert(spec_tokens_from(text, before) == followed_by(seq![item@], rest));
            assert(token_views(result@.push(item)) =~= token_views(result@) + seq![item@]);
            match rest {
                Ok(tokens) => {
                    assert(token_views(result@) + (seq![item@] + tokens) =~= (token_views(result@)
                        + seq![item@]) + tokens);
                },
                Err(_) => {},
            }
        }
        result.push(item);
    }
    proof {
        assert(token_views(result@.push(Token::End)) =~= token_views(result@) + seq![
            TokenView::End,
        ]);
    }
    result.push(Token::End);
    Ok(result)
}

} // verus!
