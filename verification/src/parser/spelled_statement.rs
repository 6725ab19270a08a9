//! The canonical form of a statement that the grammar reads from tokens
//! that source text can spell is made of tokens that source text can spell.

use crate::lexical::lexical;
use crate::parser::canonical::{canonical, punctuator};
use crate::parser::canonical_statement::{canonical_statement, canonical_statements, keyword};
use crate::parser::expression::spec_expression;
use crate::parser::spelled::{
    all_lexical, lemma_all_lexical_concat, lemma_all_lexical_punctuator, lemma_expression_spelled,
    spellable,
};
use crate::parser::statement::{
    spec_break_statement, spec_compound_statement, spec_condition, spec_continue_statement,
    spec_do_while_statement, spec_expression_statement, spec_for_clauses, spec_for_statement,
    spec_goto_statement, spec_governed, spec_if_statement, spec_labeled_statement,
    spec_null_statement, spec_return_statement, spec_statement, spec_statement_list,
    spec_switch_statement, spec_while_statement, StatementView,
};
use crate::parser::util::{keyword_at, punctuator_at, token_at, tokens_left};
use crate::tokenizer::{KeywordKind, PunctuatorKind, TokenView};
use vstd::prelude::*;

verus! {

/// Whether the canonical form of every statement of the sequence is made of
/// tokens that source text can spell.
pub open spec fn each_statement_spelled(statements: Seq<StatementView>) -> bool {
    forall|index: int|
        0 <= index < statements.len() ==> all_lexical(
            canonical_statement(#[trigger] statements[index]),
        )
}

/// A keyword before a sequence of tokens that source text can spell keeps
/// it so.
pub proof fn lemma_all_lexical_keyword(kind: KeywordKind, rest: Seq<TokenView>)
    requires
        all_lexical(rest),
    ensures
        all_lexical(seq![keyword(kind)] + rest),
{
    assert(all_lexical(seq![keyword(kind)]));
    lemma_all_lexical_concat(seq![keyword(kind)], rest);
}

/// The canonical form of a keyword, a spelled condition in round brackets
/// and a spelled statement is spelled.
pub proof fn lemma_governed_form_spelled(
    kind: KeywordKind,
    condition: Seq<TokenView>,
    body: Seq<TokenView>,
)
    requires
        all_lexical(condition),
        all_lexical(body),
    ensures
        all_lexical(
            seq![keyword(kind)] + (seq![punctuator(PunctuatorKind::LeftRoundBracket)] + (condition
                + (seq![punctuator(PunctuatorKind::RightRoundBracket)] + body))),
        ),
{
    lemma_all_lexical_punctuator(PunctuatorKind::RightRoundBracket, body);
    let tail = seq![punctuator(PunctuatorKind::RightRoundBracket)] + body;
    lemma_all_lexical_concat(condition, tail);
    lemma_all_lexical_punctuator(PunctuatorKind::LeftRoundBracket, condition + tail);
    lemma_all_lexical_keyword(
        kind,
        seq![punctuator(PunctuatorKind::LeftRoundBracket)] + (condition + tail),
    );
}

/// The canonical form of statements with spelled canonical forms, with the
/// closing bracket, is spelled.
pub proof fn lemma_statements_spelled(statements: Seq<StatementView>, from: int)
    requires
        each_statement_spelled(statements),
        0 <= from,
    ensures
        all_lexical(canonical_statements(statements, from)),
    decreases statements.len() - from,
{
    reveal(canonical_statements);
    reveal(canonical_statement);
    if from < statements.len() {
        lemma_statements_spelled(statements, from + 1);
        lemma_all_lexical_concat(
            canonical_statement(statements[from]),
            canonical_statements(statements, from + 1),
        );
    } else {
        lemma_all_lexical_punctuator(PunctuatorKind::RightCurlyBracket, Seq::empty());
    }
}

/// The canonical form of the condition that is read in round brackets from
/// spellable tokens is spelled.
pub proof fn lemma_condition_spelled(tokens: Seq<TokenView>, position: int)
    requires
        spellable(tokens),
    ensures
        spec_condition(tokens, position) matches Ok(found) ==> all_lexical(canonical(found.0)),
{
    reveal(spec_condition);
    lemma_expression_spelled(tokens, position + 1);
}

/// The canonical forms of the three expressions that are read for `for`
/// from spellable tokens are spelled.
pub proof fn lemma_for_clauses_spelled(tokens: Seq<TokenView>, position: int)
    requires
        spellable(tokens),
    ensures
        spec_for_clauses(tokens, position) matches Ok(found) ==> all_lexical(
            canonical(found.0.0),
        ) && all_lexical(canonical(found.0.1)) && all_lexical(canonical(found.0.2)),
{
    reveal(spec_for_clauses);
    lemma_expression_spelled(tokens, position + 1);
    if let Ok((initialization, count)) = spec_expression(tokens, position + 1) {
        lemma_expression_spelled(tokens, position + 1 + count + 1);
        if let Ok((condition, more)) = spec_expression(tokens, position + 1 + count + 1) {
            lemma_expression_spelled(tokens, position + 1 + count + 1 + more + 1);
        }
    }
}

/// The canonical form of what the statement forms without a statement
/// inside them read from spellable tokens is spelled.
#[verifier::spinoff_prover]
pub proof fn lemma_simple_forms_spelled(tokens: Seq<TokenView>, position: int)
    requires
        spellable(tokens),
    ensures
        spec_null_statement(tokens, position) matches Ok(found) ==> (found.0 matches Some(
            statement,
        ) ==> all_lexical(canonical_statement(statement))),
        spec_labeled_statement(tokens, position) matches Ok(found) ==> (found.0 matches Some(
            statement,
        ) ==> all_lexical(canonical_statement(statement))),
        spec_break_statement(tokens, position) matches Ok(found) ==> (found.0 matches Some(
            statement,
        ) ==> all_lexical(canonical_statement(statement))),
        spec_continue_statement(tokens, position) matches Ok(found) ==> (found.0 matches Some(
            statement,
        ) ==> all_lexical(canonical_statement(statement))),
        spec_goto_statement(tokens, position) matches Ok(found) ==> (found.0 matches Some(
            statement,
        ) ==> all_lexical(canonical_statement(statement))),
        spec_return_statement(tokens, position) matches Ok(found) ==> (found.0 matches Some(
            statement,
        ) ==> all_lexical(canonical_statement(statement))),
        spec_expression_statement(tokens, position) matches Ok(found) ==> (found.0 matches Some(
            statement,
        ) ==> all_lexical(canonical_statement(statement))),
{
    reveal(canonical_statement);
    reveal(spec_null_statement);
    reveal(spec_labeled_statement);
    reveal(spec_break_statement);
    reveal(spec_continue_statement);
    reveal(spec_goto_statement);
    reveal(spec_return_statement);
    reveal(spec_expression_statement);
    lemma_expression_spelled(tokens, position);
    lemma_expression_spelled(tokens, position + 1);
    if 0 <= position < tokens.len() {
        assert(lexical(tokens[position]) || tokens[position] is End);
    }
    if 0 <= position + 1 < tokens.len() {
        assert(lexical(tokens[position + 1]) || tokens[position + 1] is End);
    }
    if let Ok((value, count)) = spec_expression(tokens, position) {
        lemma_all_lexical_concat(canonical(value), seq![punctuator(PunctuatorKind::Semicolon)]);
    }
    if let Ok((value, count)) = spec_expression(tokens, position + 1) {
        lemma_all_lexical_keyword(KeywordKind::Return, canonical(value));
    }
}

/// The canonical form of what the statement rule reads from spellable
/// tokens is spelled.
#[verifier::spinoff_prover]
pub proof fn lemma_statement_spelled(tokens: Seq<TokenView>, position: int)
    requires
        spellable(tokens),
    ensures
        spec_statement(tokens, position) matches Ok(found) ==> all_lexical(
            canonical_statement(found.0),
        ),
    decreases tokens_left(tokens, position), 20nat,
{
    reveal(spec_statement);
    reveal(spec_if_statement);
    reveal(spec_switch_statement);
    reveal(spec_while_statement);
    reveal(spec_do_while_statement);
    reveal(spec_for_statement);
    reveal(spec_compound_statement);
    lemma_simple_forms_spelled(tokens, position);
    lemma_if_spelled(tokens, position);
    lemma_switch_spelled(tokens, position);
    lemma_while_spelled(tokens, position);
    lemma_do_while_spelled(tokens, position);
    lemma_for_spelled(tokens, position);
    lemma_compound_spelled(tokens, position);
}

/// The canonical forms of the condition and the statement that are read
/// after `if`, `switch` or `while` from spellable tokens are spelled.
#[verifier::spinoff_prover]
pub proof fn lemma_governed_spelled(tokens: Seq<TokenView>, position: int)
    requires
        spellable(tokens),
    ensures
        spec_governed(tokens, position) matches Ok(found) ==> all_lexical(canonical(found.0.0))
            && all_lexical(canonical_statement(found.0.1)),
    decreases tokens_left(tokens, position), 25nat,
{
    reveal(spec_governed);
    reveal(spec_statement);
    lemma_condition_spelled(tokens, position);
    if let Ok((condition, count)) = spec_condition(tokens, position) {
        lemma_statement_spelled(tokens, position + count);
    }
}

/// The canonical form of the `if` statement that is read from spellable
/// tokens is spelled.
#[verifier::spinoff_prover]
pub proof fn lemma_if_spelled(tokens: Seq<TokenView>, position: int)
    requires
        spellable(tokens),
    ensures
        spec_if_statement(tokens, position) matches Ok(found) ==> (found.0 matches Some(
            statement,
        ) ==> all_lexical(canonical_statement(statement))),
    decreases tokens_left(tokens, position), 10nat,
{
    reveal(spec_if_statement);
    reveal(spec_governed);
    reveal(canonical_statement);
    if keyword_at(tokens, position, KeywordKind::If) {
        lemma_governed_spelled(tokens, position + 1);
        if let Ok((parts, count)) = spec_governed(tokens, position + 1) {
            lemma_governed_form_spelled(
                KeywordKind::If,
                canonical(parts.0),
                canonical_statement(parts.1),
            );
        }
    }
}

/// The canonical form of the `switch` statement that is read from spellable
/// tokens is spelled.
#[verifier::spinoff_prover]
pub proof fn lemma_switch_spelled(tokens: Seq<TokenView>, position: int)
    requires
        spellable(tokens),
    ensures
        spec_switch_statement(tokens, position) matches Ok(found) ==> (found.0 matches Some(
            statement,
        ) ==> all_lexical(canonical_statement(statement))),
    decreases tokens_left(tokens, position), 10nat,
{
    reveal(spec_switch_statement);
    reveal(spec_governed);
    reveal(canonical_statement);
    if keyword_at(tokens, position, KeywordKind::Switch) {
        lemma_governed_spelled(tokens, position + 1);
        if let Ok((parts, count)) = spec_governed(tokens, position + 1) {
            lemma_governed_form_spelled(
                KeywordKind::Switch,
                canonical(parts.0),
                canonical_statement(parts.1),
            );
        }
    }
}

/// The canonical form of the `while` statement that is read from spellable
/// tokens is spelled.
#[verifier::spinoff_prover]
pub proof fn lemma_while_spelled(tokens: Seq<TokenView>, position: int)
    requires
        spellable(tokens),
    ensures
        spec_while_statement(tokens, position) matches Ok(found) ==> (found.0 matches Some(
            statement,
        ) ==> all_lexical(canonical_statement(statement))),
    decreases tokens_left(tokens, position), 10nat,
{
    reveal(spec_while_statement);
    reveal(spec_governed);
    reveal(canonical_statement);
    if keyword_at(tokens, position, KeywordKind::While) {
        lemma_governed_spelled(tokens, position + 1);
        if let Ok((parts, count)) = spec_governed(tokens, position + 1) {
            lemma_governed_form_spelled(
                KeywordKind::While,
                canonical(parts.0),
                canonical_statement(parts.1),
            );
        }
    }
}

/// The canonical form of the `do` statement that is read from spellable
/// tokens is spelled.
#[verifier::spinoff_prover]
pub proof fn lemma_do_while_spelled(tokens: Seq<TokenView>, position: int)
    requires
        spellable(tokens),
    ensures
        spec_do_while_statement(tokens, position) matches Ok(found) ==> (found.0 matches Some(
            statement,
        ) ==> all_lexical(canonical_statement(statement))),
    decreases tokens_left(tokens, position), 10nat,
{
    reveal(spec_do_while_statement);
    reveal(spec_statement);
    reveal(canonical_statement);
    if keyword_at(tokens, position, KeywordKind::Do) {
        lemma_statement_spelled(tokens, position + 1);
        if let Ok((body, count)) = spec_statement(tokens, position + 1) {
            lemma_condition_spelled(tokens, position + 1 + count + 1);
            if let Ok((condition, more)) = spec_condition(tokens, position + 1 + count + 1) {
                lemma_governed_form_spelled(
                    KeywordKind::While,
                    canonical(condition),
                    Seq::empty(),
                );
                let close = seq![punctuator(PunctuatorKind::RightRoundBracket)];
                assert(close + Seq::<TokenView>::empty() =~= close);
                let tail = seq![keyword(KeywordKind::While)] + (seq![
                    punctuator(PunctuatorKind::LeftRoundBracket),
                ] + (canonical(condition) + close));
                lemma_all_lexical_concat(canonical_statement(body), tail);
                lemma_all_lexical_keyword(KeywordKind::Do, canonical_statement(body) + tail);
            }
        }
    }
}

/// The canonical form of the `for` statement that is read from spellable
/// tokens is spelled.
#[verifier::spinoff_prover]
pub proof fn lemma_for_spelled(tokens: Seq<TokenView>, position: int)
    requires
        spellable(tokens),
    ensures
        spec_for_statement(tokens, position) matches Ok(found) ==> (found.0 matches Some(
            statement,
        ) ==> all_lexical(canonical_statement(statement))),
    decreases tokens_left(tokens, position), 10nat,
{
    reveal(spec_for_statement);
    reveal(spec_statement);
    reveal(canonical_statement);
    if keyword_at(tokens, position, KeywordKind::For) {
        lemma_for_clauses_spelled(tokens, position + 1);
        if let Ok((clauses, count)) = spec_for_clauses(tokens, position + 1) {
            lemma_statement_spelled(tokens, position + 1 + count);
            if let Ok((body, more)) = spec_statement(tokens, position + 1 + count) {
                let semicolon = seq![punctuator(PunctuatorKind::Semicolon)];
                let last = canonical(clauses.2) + (seq![
                    punctuator(PunctuatorKind::RightRoundBracket),
                ] + canonical_statement(body));
                lemma_all_lexical_punctuator(
                    PunctuatorKind::RightRoundBracket,
                    canonical_statement(body),
                );
                lemma_all_lexical_concat(
                    canonical(clauses.2),
                    seq![punctuator(PunctuatorKind::RightRoundBracket)] + canonical_statement(body),
                );
                lemma_all_lexical_punctuator(PunctuatorKind::Semicolon, last);
                let second = canonical(clauses.1) + (semicolon + last);
                lemma_all_lexical_concat(canonical(clauses.1), semicolon + last);
                lemma_all_lexical_punctuator(PunctuatorKind::Semicolon, second);
                let first = canonical(clauses.0) + (semicolon + second);
                lemma_all_lexical_concat(canonical(clauses.0), semicolon + second);
                lemma_all_lexical_punctuator(PunctuatorKind::LeftRoundBracket, first);
                lemma_all_lexical_keyword(
                    KeywordKind::For,
                    seq![punctuator(PunctuatorKind::LeftRoundBracket)] + first,
                );
            }
        }
    }
}

/// The canonical form of the compound statement that is read from spellable
/// tokens is spelled.
#[verifier::spinoff_prover]
pub proof fn lemma_compound_spelled(tokens: Seq<TokenView>, position: int)
    requires
        spellable(tokens),
    ensures
        spec_compound_statement(tokens, position) matches Ok(found) ==> (found.0 matches Some(
            statement,
        ) ==> all_lexical(canonical_statement(statement))),
    decreases tokens_left(tokens, position), 10nat,
{
    reveal(spec_compound_statement);
    reveal(spec_statement_list);
    reveal(canonical_statement);
    reveal(canonical_statements);
    if punctuator_at(tokens, position, PunctuatorKind::LeftCurlyBracket) {
        lemma_statement_list_spelled(tokens, position + 1);
        if let Ok((statements, count)) = spec_statement_list(tokens, position + 1) {
            lemma_statements_spelled(statements, 0);
            lemma_all_lexical_punctuator(
                PunctuatorKind::LeftCurlyBracket,
                canonical_statements(statements, 0),
            );
        }
    }
}

/// The canonical forms of the statements that are read up to the closing
/// bracket of a compound statement from spellable tokens are spelled.
#[verifier::spinoff_prover]
pub proof fn lemma_statement_list_spelled(tokens: Seq<TokenView>, position: int)
    requires
        spellable(tokens),
    ensures
        spec_statement_list(tokens, position) matches Ok(found) ==> each_statement_spelled(
            found.0,
        ),
    decreases tokens_left(tokens, position), 30nat,
{
    reveal(spec_statement_list);
    reveal(spec_statement);
    if punctuator_at(tokens, position, PunctuatorKind::RightCurlyBracket) {
    } else if !(token_at(tokens, position) is End) {
        lemma_statement_spelled(tokens, position);
        if let Ok((statement, count)) = spec_statement(tokens, position) {
            if count > 0 {
                lemma_statement_list_spelled(tokens, position + count);
                if let Ok((rest, more)) = spec_statement_list(tokens, position + count) {
                    let all = seq![statement] + rest;
                    assert forall|index: int| 0 <= index < all.len() implies all_lexical(
                        canonical_statement(#[trigger] all[index]),
                    ) by {
                        if index > 0 {
                            assert(all[index] == rest[index - 1]);
                        }
                    }
                }
            }
        }
    }
}

} // verus!
