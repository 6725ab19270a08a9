//! The tokens that source text can spell, and the proof that tokenizing the
//! source text of such tokens gives the tokens back.

use crate::text::{decimal_digits, digit_character, spec_source_text};
use crate::tokenizer::{
    decimal_value, digit, has_prefix_at, identifier_body, identifier_head,
    lemma_keyword_spelling_injective, lemma_keyword_spellings, lemma_punctuator_spelling_injective,
    lemma_punctuator_spellings, longest_punctuator_at, characters_left, run_length, spec_keyword,
    spec_punctuator, spec_token, spec_tokenize, spec_tokens_from, string_body_run, whitespace,
    whitespace_run, word_length, KeywordKind, LiteralView, PunctuatorKind, TokenView,
};
use vstd::prelude::*;

verus! {

/// Whether `name` can be written as an identifier: it is not empty, starts
/// with a character that may start an identifier, holds only characters
/// that may continue one, and spells no keyword.
pub open spec fn spells_identifier(name: Seq<char>) -> bool {
    &&& name.len() > 0
    &&& identifier_head(name[0])
    &&& forall|index: int| 0 <= index < name.len() ==> identifier_body(#[trigger] name[index])
    &&& spec_keyword(name) is None
}

/// Whether source text can spell the token: an identifier is spelled like
/// one, a string holds no double quote, and a number is not negative. The
/// end marker is spelled by nothing.
pub open spec fn lexical(token: TokenView) -> bool {
    match token {
        TokenView::Identifier(name) => spells_identifier(name),
        TokenView::Literal(literal) => match literal {
            LiteralView::String(content) => forall|index: int|
                0 <= index < content.len() ==> #[trigger] content[index] != '"',
            LiteralView::Char(_) => true,
            LiteralView::Number(value) => value >= 0,
        },
        TokenView::End => false,
        _ => true,
    }
}

/// Whether the tokens from the one at `from` on are what a tokenizer gives:
/// tokens that source text can spell, closed by the end marker.
pub open spec fn lexical_from(tokens: Seq<TokenView>, from: int) -> bool {
    &&& 0 <= from < tokens.len()
    &&& tokens[tokens.len() - 1] is End
    &&& forall|index: int| from <= index < tokens.len() - 1 ==> lexical(#[trigger] tokens[index])
}

/// A run is as long as the stretch of members that a non-member or the end
/// of the text closes.
pub proof fn lemma_run_length(
    text: Seq<char>,
    from: int,
    count: nat,
    member: spec_fn(char) -> bool,
)
    requires
        0 <= from,
        from + count <= text.len(),
        forall|index: int| from <= index < from + count ==> member(#[trigger] text[index]),
        from + count == text.len() || !member(text[from + count]),
    ensures
        run_length(text, from, member) == count,
    decreases count,
{
    if count > 0 {
        lemma_run_length(text, from + 1, (count - 1) as nat, member);
    }
}

/// Where a word stands in a text, the text has each character of the word.
pub proof fn lemma_prefix_characters(text: Seq<char>, from: int, word: Seq<char>)
    requires
        has_prefix_at(text, from, word),
    ensures
        forall|index: int| 0 <= index < word.len() ==> #[trigger] text[from + index] == word[index],
{
    assert forall|index: int| 0 <= index < word.len() implies #[trigger] text[from + index]
        == word[index] by {
        assert(text.subrange(from, from + word.len())[index] == word[index]);
    }
}

/// No punctuator starts with a character that may continue an identifier,
/// with a quote or with a space.
pub proof fn lemma_punctuator_start(kind: PunctuatorKind)
    ensures
        kind.spelling().len() > 0,
        !identifier_body(kind.spelling()[0]),
        kind.spelling()[0] != '"',
        kind.spelling()[0] != '\'',
        forall|index: int|
            0 <= index < kind.spelling().len() ==> !whitespace(#[trigger] kind.spelling()[index]),
{
    lemma_punctuator_spellings();
}

/// Where a character stands that starts no punctuator, no punctuator
/// stands.
pub proof fn lemma_no_punctuator(text: Seq<char>, from: int)
    requires
        0 <= from < text.len(),
        identifier_body(text[from]) || text[from] == '"' || text[from] == '\'',
    ensures
        spec_punctuator(text, from) is None,
{
    assert forall|kind: PunctuatorKind| !longest_punctuator_at(text, from, kind) by {
        lemma_punctuator_start(kind);
        if has_prefix_at(text, from, kind.spelling()) {
            lemma_prefix_characters(text, from, kind.spelling());
            assert(text[from + 0] == kind.spelling()[0]);
        }
    }
}

/// The spelling of a punctuator before a space is read as the punctuator.
#[verifier::spinoff_prover]
pub proof fn lemma_punctuator_source(text: Seq<char>, from: int, kind: PunctuatorKind)
    requires
        has_prefix_at(text, from, kind.spelling()),
        from + kind.spelling().len() < text.len(),
        text[from + kind.spelling().len()] == ' ',
    ensures
        spec_token(text, from) == Some((TokenView::Punctuator(kind), kind.spelling().len())),
        kind.spelling().len() > 0,
        !whitespace(text[from]),
{
    lemma_punctuator_start(kind);
    lemma_prefix_characters(text, from, kind.spelling());
    assert(text[from + 0] == kind.spelling()[0]);
    assert forall|other: PunctuatorKind| #[trigger]
        has_prefix_at(text, from, other.spelling()) implies other.spelling().len()
        <= kind.spelling().len() by {
        if other.spelling().len() > kind.spelling().len() {
            lemma_punctuator_start(other);
            lemma_prefix_characters(text, from, other.spelling());
            let at = kind.spelling().len() as int;
            assert(text[from + at] == other.spelling()[at]);
        }
    }
    assert(longest_punctuator_at(text, from, kind));
    let chosen = choose|kind: PunctuatorKind| longest_punctuator_at(text, from, kind);
    assert(chosen.spelling().len() == kind.spelling().len());
    lemma_punctuator_spelling_injective(chosen, kind);
}

/// A keyword is spelled like an identifier.
pub proof fn lemma_keyword_word(kind: KeywordKind)
    ensures
        kind.spelling().len() > 0,
        identifier_head(kind.spelling()[0]),
        forall|index: int|
            0 <= index < kind.spelling().len() ==> identifier_body(
                #[trigger] kind.spelling()[index],
            ),
{
    lemma_keyword_spellings();
}

/// A word before a space is read as a word of its length, and no punctuator
/// stands where it starts.
pub proof fn lemma_word_source(text: Seq<char>, from: int, word: Seq<char>)
    requires
        has_prefix_at(text, from, word),
        from + word.len() < text.len(),
        text[from + word.len()] == ' ',
        word.len() > 0,
        identifier_head(word[0]),
        forall|index: int| 0 <= index < word.len() ==> identifier_body(#[trigger] word[index]),
    ensures
        spec_punctuator(text, from) is None,
        word_length(text, from) == word.len(),
        !whitespace(text[from]),
{
    lemma_prefix_characters(text, from, word);
    assert(text[from + 0] == word[0]);
    lemma_no_punctuator(text, from);
    assert forall|index: int| from <= index < from + word.len() implies identifier_body(
        #[trigger] text[index],
    ) by {
        assert(text[from + (index - from)] == word[index - from]);
    }
    lemma_run_length(text, from, word.len(), |c: char| identifier_body(c));
}

/// The spelling of a keyword before a space is read as the keyword.
#[verifier::spinoff_prover]
pub proof fn lemma_keyword_source(text: Seq<char>, from: int, kind: KeywordKind)
    requires
        has_prefix_at(text, from, kind.spelling()),
        from + kind.spelling().len() < text.len(),
        text[from + kind.spelling().len()] == ' ',
    ensures
        spec_token(text, from) == Some((TokenView::Keyword(kind), kind.spelling().len())),
        kind.spelling().len() > 0,
        !whitespace(text[from]),
{
    lemma_keyword_word(kind);
    lemma_word_source(text, from, kind.spelling());
    let word = text.subrange(from, from + kind.spelling().len());
    let chosen = choose|kind: KeywordKind| kind.spelling() == word;
    lemma_keyword_spelling_injective(chosen, kind);
}

/// The text of an identifier before a space is read as the identifier.
#[verifier::spinoff_prover]
pub proof fn lemma_identifier_source(text: Seq<char>, from: int, name: Seq<char>)
    requires
        spells_identifier(name),
        has_prefix_at(text, from, name),
        from + name.len() < text.len(),
        text[from + name.len()] == ' ',
    ensures
        spec_token(text, from) == Some((TokenView::Identifier(name), name.len())),
        !whitespace(text[from]),
{
    lemma_word_source(text, from, name);
}

/// A string without a double quote, between double quotes, is read as the
/// string.
#[verifier::spinoff_prover]
pub proof fn lemma_string_source(text: Seq<char>, from: int, content: Seq<char>)
    requires
        forall|index: int| 0 <= index < content.len() ==> #[trigger] content[index] != '"',
        has_prefix_at(text, from, LiteralView::String(content).source()),
    ensures
        spec_token(text, from) == Some(
            (TokenView::Literal(LiteralView::String(content)), content.len() + 2),
        ),
        !whitespace(text[from]),
{
    let source = LiteralView::String(content).source();
    assert(source.len() == content.len() + 2);
    lemma_prefix_characters(text, from, source);
    assert(text[from + 0] == source[0]);
    assert(text[from + (content.len() + 1)] == source[content.len() as int + 1]);
    lemma_no_punctuator(text, from);
    assert forall|index: int| from + 1 <= index < from + 1 + content.len() implies #[trigger] text[index]
        != '"' by {
        assert(text[from + (index - from)] == source[index - from]);
        assert(source[index - from] == content[index - from - 1]);
    }
    lemma_run_length(text, from + 1, content.len(), |c: char| c != '"');
    assert(text.subrange(from + 1, from + 1 + content.len()) =~= content) by {
        assert forall|index: int| 0 <= index < content.len() implies text.subrange(
            from + 1,
            from + 1 + content.len(),
        )[index] == content[index] by {
            assert(text[from + (index + 1)] == source[index + 1]);
        }
    }
}

/// A character between single quotes is read as the character.
#[verifier::spinoff_prover]
pub proof fn lemma_character_source(text: Seq<char>, from: int, content: char)
    requires
        has_prefix_at(text, from, LiteralView::Char(content).source()),
    ensures
        spec_token(text, from) == Some((TokenView::Literal(LiteralView::Char(content)), 3nat)),
        !whitespace(text[from]),
{
    let source = LiteralView::Char(content).source();
    lemma_prefix_characters(text, from, source);
    assert(text[from + 0] == source[0]);
    assert(text[from + 1] == source[1]);
    assert(text[from + 2] == source[2]);
    lemma_no_punctuator(text, from);
}

/// The digits of a number are decimal digits, there is one at least, and
/// they denote the number.
pub proof fn lemma_decimal_digits(value: nat)
    ensures
        decimal_digits(value).len() > 0,
        forall|index: int|
            0 <= index < decimal_digits(value).len() ==> digit(
                #[trigger] decimal_digits(value)[index],
            ),
        decimal_value(decimal_digits(value)) == value,
    decreases value,
{
    if value >= 10 {
        lemma_decimal_digits(value / 10);
        let front = decimal_digits(value / 10);
        let last = digit_character(value % 10);
        assert(decimal_digits(value) == front.push(last));
        assert(front.push(last).drop_last() =~= front);
        assert(last as u32 - '0' as u32 == value % 10);
    } else {
        let last = digit_character(value);
        assert(seq![last].drop_last() =~= Seq::<char>::empty());
        assert(last as u32 - '0' as u32 == value);
        assert(decimal_value(Seq::<char>::empty()) == 0);
    }
}

/// The digits of a number that is not negative, before a space, are read as
/// the number.
#[verifier::spinoff_prover]
pub proof fn lemma_number_source(text: Seq<char>, from: int, value: i32)
    requires
        value >= 0,
        has_prefix_at(text, from, LiteralView::Number(value).source()),
        from + LiteralView::Number(value).source().len() < text.len(),
        text[from + LiteralView::Number(value).source().len()] == ' ',
    ensures
        spec_token(text, from) == Some(
            (
                TokenView::Literal(LiteralView::Number(value)),
                LiteralView::Number(value).source().len(),
            ),
        ),
        LiteralView::Number(value).source().len() > 0,
        !whitespace(text[from]),
{
    let source = LiteralView::Number(value).source();
    assert(source == decimal_digits(value as nat));
    lemma_decimal_digits(value as nat);
    lemma_prefix_characters(text, from, source);
    assert(text[from + 0] == source[0]);
    lemma_no_punctuator(text, from);
    assert forall|index: int| from <= index < from + source.len() implies digit(
        #[trigger] text[index],
    ) by {
        assert(text[from + (index - from)] == source[index - from]);
    }
    lemma_run_length(text, from, source.len(), |c: char| digit(c));
}

/// The source of a token that source text can spell, before a space, is
/// read as the token.
#[verifier::spinoff_prover]
pub proof fn lemma_token_source(text: Seq<char>, from: int, token: TokenView)
    requires
        lexical(token),
        has_prefix_at(text, from, token.source()),
        from + token.source().len() < text.len(),
        text[from + token.source().len()] == ' ',
    ensures
        spec_token(text, from) == Some((token, token.source().len())),
        token.source().len() > 0,
        !whitespace(text[from]),
{
    match token {
        TokenView::Punctuator(kind) => {
            lemma_punctuator_source(text, from, kind);
        },
        TokenView::Keyword(kind) => {
            lemma_keyword_source(text, from, kind);
        },
        TokenView::Identifier(name) => {
            lemma_identifier_source(text, from, name);
        },
        TokenView::Literal(literal) => match literal {
            LiteralView::String(content) => {
                lemma_string_source(text, from, content);
            },
            LiteralView::Char(content) => {
                lemma_character_source(text, from, content);
            },
            LiteralView::Number(value) => {
                lemma_number_source(text, from, value);
            },
        },
        TokenView::End => {},
    }
}

/// The source text of tokens that source text can spell, from some token
/// on, is tokenized to those tokens.
#[verifier::spinoff_prover]
pub proof fn lemma_tokens_of_source_text(
    text: Seq<char>,
    position: int,
    tokens: Seq<TokenView>,
    from: int,
)
    requires
        lexical_from(tokens, from),
        0 <= position <= text.len(),
        text.subrange(position, text.len() as int) == spec_source_text(tokens, from),
    ensures
        spec_tokens_from(text, position) == Ok::<Seq<TokenView>, Seq<char>>(
            tokens.subrange(from, tokens.len() as int),
        ),
    decreases tokens.len() - from,
{
    let token = tokens[from];
    let source = token.source();
    let rest = spec_source_text(tokens, from + 1);
    let lead: nat = if from == 0 {
        0
    } else {
        1
    };
    let tail = text.subrange(position, text.len() as int);
    let start = position + lead;
    assert(tail.len() == lead + source.len() + rest.len());
    assert forall|index: int| position <= index < start implies whitespace(
        #[trigger] text[index],
    ) by {
        assert(tail[index - position] == ' ');
    }
    if from == tokens.len() - 1 {
        assert(source.len() == 0);
        assert(rest.len() == 0);
        lemma_run_length(text, position, lead, |c: char| whitespace(c));
        assert(tokens.subrange(from, tokens.len() as int) =~= seq![TokenView::End]);
    } else {
        assert(lexical(tokens[from]));
        assert(rest.len() > 0 && rest[0] == ' ');
        assert(text.subrange(start, start + source.len()) =~= source) by {
            assert forall|index: int| 0 <= index < source.len() implies text.subrange(
                start,
                start + source.len(),
            )[index] == source[index] by {
                assert(tail[lead + index] == source[index]);
            }
        }
        assert(text[start + source.len()] == ' ') by {
            assert(tail[lead as int + source.len()] == rest[0]);
        }
        lemma_token_source(text, start, token);
        lemma_run_length(text, position, lead, |c: char| whitespace(c));
        assert(text.subrange(start + source.len(), text.len() as int) =~= rest) by {
            assert forall|index: int| 0 <= index < rest.len() implies text.subrange(
                start + source.len(),
                text.len() as int,
            )[index] == rest[index] by {
                assert(tail[lead + source.len() + index] == rest[index]);
            }
        }
        lemma_tokens_of_source_text(text, start + source.len(), tokens, from + 1);
        assert(seq![token] + tokens.subrange(from + 1, tokens.len() as int) =~= tokens.subrange(
            from,
            tokens.len() as int,
        ));
    }
}

/// Tokenizing is the inverse of writing: the source text of tokens that
/// source text can spell, closed by the end marker, is tokenized to those
/// tokens.
pub proof fn lemma_tokenize_source_text(tokens: Seq<TokenView>)
    requires
        lexical_from(tokens, 0),
    ensures
        spec_tokenize(spec_source_text(tokens, 0)) == Ok::<Seq<TokenView>, Seq<char>>(tokens),
{
    let text = spec_source_text(tokens, 0);
    assert(text.subrange(0, text.len() as int) =~= text);
    lemma_tokens_of_source_text(text, 0, tokens, 0);
    assert(tokens.subrange(0, tokens.len() as int) =~= tokens);
}

/// Every character of a run is a member, and the run ends in the text.
pub proof fn lemma_run_members(text: Seq<char>, from: int, member: spec_fn(char) -> bool)
    requires
        0 <= from,
    ensures
        run_length(text, from, member) == 0 || from + run_length(text, from, member)
            <= text.len(),
        forall|index: int|
            from <= index < from + run_length(text, from, member) ==> member(
                #[trigger] text[index],
            ),
    decreases text.len() - from,
{
    if from < text.len() && member(text[from]) {
        lemma_run_members(text, from + 1, member);
    }
}

/// The token that is read from a text is one that source text can spell.
#[verifier::spinoff_prover]
pub proof fn lemma_token_lexical(text: Seq<char>, from: int)
    requires
        0 <= from < text.len(),
    ensures
        spec_token(text, from) matches Some(found) ==> lexical(found.0),
{
    lemma_run_members(text, from, |c: char| identifier_body(c));
    lemma_run_members(text, from + 1, |c: char| c != '"');
    let word = word_length(text, from);
    if spec_punctuator(text, from) is None && word > 0 {
        let name = text.subrange(from, from + word);
        assert(name[0] == text[from]);
        assert forall|index: int| 0 <= index < name.len() implies identifier_body(
            #[trigger] name[index],
        ) by {
            assert(name[index] == text[from + index]);
        }
    }
    let inner = string_body_run(text, from + 1);
    let content = text.subrange(from + 1, from + 1 + inner);
    if from + 1 + inner < text.len() {
        assert forall|index: int| 0 <= index < content.len() implies #[trigger] content[index]
            != '"' by {
            assert(content[index] == text[from + 1 + index]);
        }
    }
}

/// The tokens of a text are tokens that source text can spell, closed by
/// the end marker.
#[verifier::spinoff_prover]
pub proof fn lemma_tokens_from_lexical(text: Seq<char>, from: int)
    requires
        0 <= from,
    ensures
        spec_tokens_from(text, from) matches Ok(tokens) ==> lexical_from(tokens, 0),
    decreases characters_left(text, from),
{
    let start = from + whitespace_run(text, from);
    if 0 <= start < text.len() {
        lemma_token_lexical(text, start);
        if let Some((token, length)) = spec_token(text, start) {
            if length > 0 {
                lemma_tokens_from_lexical(text, start + length);
                if let Ok(rest) = spec_tokens_from(text, start + length) {
                    let tokens = seq![token] + rest;
                    assert(tokens[tokens.len() - 1] == rest[rest.len() - 1]);
                    assert forall|index: int| 0 <= index < tokens.len() - 1 implies lexical(
                        #[trigger] tokens[index],
                    ) by {
                        if index > 0 {
                            assert(tokens[index] == rest[index - 1]);
                        }
                    }
                }
            }
        }
    }
}

/// What a tokenizer gives is what source text can spell: the tokens of a
/// source text are lexical and closed by the end marker.
pub proof fn lemma_tokenize_lexical(source: Seq<char>)
    ensures
        spec_tokenize(source) matches Ok(tokens) ==> lexical_from(tokens, 0),
{
    lemma_tokens_from_lexical(source, 0);
}

} // verus!
