//! The round trip through source text: what is read from a source text is
//! read again from the text of its canonical form.

use crate::lexical::{
    lemma_tokenize_lexical, lemma_tokenize_source_text, lexical, lexical_from,
};
use crate::parser::canonical::canonical;
use crate::parser::canonical_declaration::canonical_declaration;
use crate::parser::canonical_statement::{canonical_statement, separable};
use crate::parser::declaration::{spec_declaration, DeclarationView};
use crate::parser::expression::{spec_expression, ExpressionView};
use crate::parser::printable::lemma_expression_reparse;
use crate::parser::printable_declaration::lemma_declaration_reparse;
use crate::parser::renderable::lemma_reparse;
use crate::parser::spec_parse;
use crate::parser::spelled::{all_lexical, lemma_expression_spelled, spellable};
use crate::parser::spelled_declaration::lemma_declaration_spelled;
use crate::parser::spelled_statement::lemma_statement_spelled;
use crate::parser::statement::StatementView;
use crate::text::spec_source_text;
use crate::tokenizer::{spec_tokenize, TokenView};
use vstd::prelude::*;

verus! {

/// The statement that a source text starts with: what the parser gives the
/// tokens of the text, if the text has tokens and they start with a
/// statement.
pub open spec fn spec_compile(source: Seq<char>) -> Option<StatementView> {
    match spec_tokenize(source) {
        Ok(tokens) => match spec_parse(tokens) {
            Ok(tree) => Some(tree),
            Err(_) => None,
        },
        Err(_) => None,
    }
}

/// The expression that a source text starts with, if the text has tokens
/// and they start with an expression.
pub open spec fn spec_compile_expression(source: Seq<char>) -> Option<ExpressionView> {
    match spec_tokenize(source) {
        Ok(tokens) => match spec_expression(tokens, 0) {
            Ok((tree, _)) => Some(tree),
            Err(_) => None,
        },
        Err(_) => None,
    }
}

/// The declaration that a source text starts with, if the text has tokens
/// and they start with a declaration.
pub open spec fn spec_compile_declaration(source: Seq<char>) -> Option<DeclarationView> {
    match spec_tokenize(source) {
        Ok(tokens) => match spec_declaration(tokens, 0) {
            Ok((tree, _)) => tree,
            Err(_) => None,
        },
        Err(_) => None,
    }
}

/// The tokens closed by the end marker, written as source text.
pub open spec fn closed_text(tokens: Seq<TokenView>) -> Seq<char> {
    spec_source_text(tokens + seq![TokenView::End], 0)
}

/// The tokens of a source text are spellable.
pub proof fn lemma_tokenized_spellable(source: Seq<char>)
    ensures
        spec_tokenize(source) matches Ok(tokens) ==> spellable(tokens),
{
    lemma_tokenize_lexical(source);
}

/// Tokens that source text can spell, closed by the end marker and written
/// as source text, are the tokens of that text.
pub proof fn lemma_tokenize_closed_text(tokens: Seq<TokenView>)
    requires
        all_lexical(tokens),
    ensures
        spec_tokenize(closed_text(tokens)) == Ok::<Seq<TokenView>, Seq<char>>(
            tokens + seq![TokenView::End],
        ),
{
    let form = tokens + seq![TokenView::End];
    assert forall|index: int| 0 <= index < form.len() - 1 implies lexical(#[trigger] form[index]) by {
        assert(form[index] == tokens[index]);
    }
    assert(lexical_from(form, 0));
    lemma_tokenize_source_text(form);
}

/// The round trip of expressions through source text: where a source text
/// starts with an expression, the text of the canonical form of that
/// expression has the canonical form as its tokens and starts with the same
/// expression.
pub proof fn lemma_expression_text_round_trip(source: Seq<char>)
    requires
        spec_compile_expression(source) is Some,
    ensures
        ({
            let expression = spec_compile_expression(source)->Some_0;
            &&& spec_tokenize(closed_text(canonical(expression))) == Ok::<
                Seq<TokenView>,
                Seq<char>,
            >(canonical(expression) + seq![TokenView::End])
            &&& spec_compile_expression(closed_text(canonical(expression))) == Some(expression)
        }),
{
    let tokens = spec_tokenize(source)->Ok_0;
    let expression = spec_expression(tokens, 0)->Ok_0.0;
    lemma_tokenized_spellable(source);
    lemma_expression_spelled(tokens, 0);
    lemma_tokenize_closed_text(canonical(expression));
    lemma_expression_reparse(tokens, 0);
}

/// The round trip of statements through source text: where a source text
/// starts with a statement, and that statement is separable, the text of
/// the canonical form of the statement has the canonical form as its tokens
/// and starts with the same statement.
pub proof fn lemma_statement_text_round_trip(source: Seq<char>)
    requires
        spec_compile(source) matches Some(statement) && separable(statement),
    ensures
        ({
            let statement = spec_compile(source)->Some_0;
            &&& spec_tokenize(closed_text(canonical_statement(statement))) == Ok::<
                Seq<TokenView>,
                Seq<char>,
            >(canonical_statement(statement) + seq![TokenView::End])
            &&& spec_compile(closed_text(canonical_statement(statement))) == Some(statement)
        }),
{
    let tokens = spec_tokenize(source)->Ok_0;
    let statement = spec_parse(tokens)->Ok_0;
    lemma_tokenized_spellable(source);
    lemma_statement_spelled(tokens, 0);
    lemma_tokenize_closed_text(canonical_statement(statement));
    lemma_reparse(tokens);
}

/// The round trip of declarations through source text: where a source text
/// starts with a declaration, the text of the canonical form of that
/// declaration has the canonical form as its tokens and starts with the
/// same declaration.
pub proof fn lemma_declaration_text_round_trip(source: Seq<char>)
    requires
        spec_compile_declaration(source) is Some,
    ensures
        ({
            let declaration = spec_compile_declaration(source)->Some_0;
            &&& spec_tokenize(closed_text(canonical_declaration(declaration))) == Ok::<
                Seq<TokenView>,
                Seq<char>,
            >(canonical_declaration(declaration) + seq![TokenView::End])
            &&& spec_compile_declaration(closed_text(canonical_declaration(declaration))) == Some(
                declaration,
            )
        }),
{
    let tokens = spec_tokenize(source)->Ok_0;
    let declaration = spec_declaration(tokens, 0)->Ok_0.0->Some_0;
    lemma_tokenized_spellable(source);
    lemma_declaration_spelled(tokens, 0);
    lemma_tokenize_closed_text(canonical_declaration(declaration));
    lemma_declaration_reparse(tokens, 0, seq![TokenView::End]);
}

} // verus!
