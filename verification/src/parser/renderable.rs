//! Every statement that the grammar gives is renderable: its expressions are
//! printable, so that it has a canonical form.

use crate::parser::canonical::printable;
use crate::parser::canonical_statement::{
    canonical_statement, lemma_statement_round_trip, renderable, renderable_from, separable,
};
use crate::parser::expression::spec_expression;
use crate::parser::printable::lemma_expression_printable;
use crate::parser::spec_parse;
use crate::parser::statement::{
    spec_break_statement, spec_compound_statement, spec_condition, spec_continue_statement,
    spec_do_while_statement, spec_expression_statement, spec_for_clauses, spec_for_statement,
    spec_goto_statement, spec_governed, spec_if_statement, spec_labeled_statement,
    spec_null_statement, spec_return_statement, spec_statement, spec_statement_list,
    spec_switch_statement, spec_while_statement, StatementView,
};
use crate::parser::util::{keyword_at, punctuator_at, token_at, tokens_left};
use crate::tokenizer::{KeywordKind, PunctuatorKind, TokenView};
use vstd::prelude::*;

verus! {

/// A sequence whose first statement is renderable and whose other statements
/// are renderable is renderable.
pub proof fn lemma_renderable_from_first(first: StatementView, rest: Seq<StatementView>)
    requires
        renderable(first),
        renderable_from(rest, 0),
    ensures
        renderable_from(seq![first] + rest, 0),
{
    reveal(renderable_from);
    reveal(renderable);
    lemma_renderable_from_shift(first, rest, 0);
    let all = seq![first] + rest;
    assert(all.len() == rest.len() + 1);
    assert(all[0] == first);
    assert(renderable_from(all, 1));
}

/// The statements after the first, from some place on, are renderable where
/// they are renderable without the first.
pub proof fn lemma_renderable_from_shift(
    first: StatementView,
    rest: Seq<StatementView>,
    from: int,
)
    requires
        0 <= from,
        renderable_from(rest, from),
    ensures
        renderable_from(seq![first] + rest, from + 1),
    decreases rest.len() - from,
{
    reveal(renderable_from);
    reveal(renderable);
    if from < rest.len() {
        lemma_renderable_from_shift(first, rest, from + 1);
        assert((seq![first] + rest)[from + 1] == rest[from]);
    }
}

/// The condition that is read in round brackets is printable.
pub proof fn lemma_condition_printable(tokens: Seq<TokenView>, position: int)
    ensures
        spec_condition(tokens, position) matches Ok(found) ==> printable(found.0),
{
    reveal(spec_condition);
    lemma_expression_printable(tokens, position + 1);
}

/// The three expressions that are read for `for` are printable.
pub proof fn lemma_for_clauses_printable(tokens: Seq<TokenView>, position: int)
    ensures
        spec_for_clauses(tokens, position) matches Ok(found) ==> printable(found.0.0)
            && printable(found.0.1) && printable(found.0.2),
{
    reveal(spec_for_clauses);
    lemma_expression_printable(tokens, position + 1);
    if let Ok((initialization, count)) = spec_expression(tokens, position + 1) {
        lemma_expression_printable(tokens, position + 1 + count + 1);
        if let Ok((condition, more)) = spec_expression(tokens, position + 1 + count + 1) {
            lemma_expression_printable(tokens, position + 1 + count + 1 + more + 1);
        }
    }
}

/// What the statement forms without a statement inside them read is
/// renderable.
#[verifier::spinoff_prover]
pub proof fn lemma_simple_forms_renderable(tokens: Seq<TokenView>, position: int)
    ensures
        spec_null_statement(tokens, position) matches Ok(found) ==> (found.0 matches Some(
            statement,
        ) ==> renderable(statement)),
        spec_labeled_statement(tokens, position) matches Ok(found) ==> (found.0 matches Some(
            statement,
        ) ==> renderable(statement)),
        spec_break_statement(tokens, position) matches Ok(found) ==> (found.0 matches Some(
            statement,
        ) ==> renderable(statement)),
        spec_continue_statement(tokens, position) matches Ok(found) ==> (found.0 matches Some(
            statement,
        ) ==> renderable(statement)),
        spec_goto_statement(tokens, position) matches Ok(found) ==> (found.0 matches Some(
            statement,
        ) ==> renderable(statement)),
        spec_return_statement(tokens, position) matches Ok(found) ==> (found.0 matches Some(
            statement,
        ) ==> renderable(statement)),
        spec_expression_statement(tokens, position) matches Ok(found) ==> (found.0 matches Some(
            statement,
        ) ==> renderable(statement)),
{
    reveal(renderable);
    reveal(spec_null_statement);
    reveal(spec_labeled_statement);
    reveal(spec_break_statement);
    reveal(spec_continue_statement);
    reveal(spec_goto_statement);
    reveal(spec_return_statement);
    reveal(spec_expression_statement);
    lemma_expression_printable(tokens, position);
    lemma_expression_printable(tokens, position + 1);
}

/// What the statement rule reads is renderable.
#[verifier::spinoff_prover]
pub proof fn lemma_statement_renderable(tokens: Seq<TokenView>, position: int)
    ensures
        spec_statement(tokens, position) matches Ok(found) ==> renderable(found.0),
    decreases tokens_left(tokens, position), 20nat,
{
    reveal(spec_statement);
    reveal(spec_if_statement);
    reveal(spec_switch_statement);
    reveal(spec_while_statement);
    reveal(spec_do_while_statement);
    reveal(spec_for_statement);
    reveal(spec_compound_statement);
    lemma_simple_forms_renderable(tokens, position);
    lemma_if_renderable(tokens, position);
    lemma_switch_renderable(tokens, position);
    lemma_while_renderable(tokens, position);
    lemma_do_while_renderable(tokens, position);
    lemma_for_renderable(tokens, position);
    lemma_compound_renderable(tokens, position);
}

/// The condition and the statement that are read after `if`, `switch` or
/// `while` are printable and renderable.
#[verifier::spinoff_prover]
pub proof fn lemma_governed_renderable(tokens: Seq<TokenView>, position: int)
    ensures
        spec_governed(tokens, position) matches Ok(found) ==> printable(found.0.0) && renderable(
            found.0.1,
        ),
    decreases tokens_left(tokens, position), 25nat,
{
    reveal(spec_governed);
    reveal(spec_statement);
    lemma_condition_printable(tokens, position);
    if let Ok((condition, count)) = spec_condition(tokens, position) {
        lemma_statement_renderable(tokens, position + count);
    }
}

/// The `if` statement that is read is renderable.
#[verifier::spinoff_prover]
pub proof fn lemma_if_renderable(tokens: Seq<TokenView>, position: int)
    ensures
        spec_if_statement(tokens, position) matches Ok(found) ==> (found.0 matches Some(
            statement,
        ) ==> renderable(statement)),
    decreases tokens_left(tokens, position), 10nat,
{
    reveal(spec_if_statement);
    reveal(spec_governed);
    reveal(renderable);
    if keyword_at(tokens, position, KeywordKind::If) {
        lemma_governed_renderable(tokens, position + 1);
    }
}

/// The `switch` statement that is read is renderable.
#[verifier::spinoff_prover]
pub proof fn lemma_switch_renderable(tokens: Seq<TokenView>, position: int)
    ensures
        spec_switch_statement(tokens, position) matches Ok(found) ==> (found.0 matches Some(
            statement,
        ) ==> renderable(statement)),
    decreases tokens_left(tokens, position), 10nat,
{
    reveal(spec_switch_statement);
    reveal(spec_governed);
    reveal(renderable);
    if keyword_at(tokens, position, KeywordKind::Switch) {
        lemma_governed_renderable(tokens, position + 1);
    }
}

/// The `while` statement that is read is renderable.
#[verifier::spinoff_prover]
pub proof fn lemma_while_renderable(tokens: Seq<TokenView>, position: int)
    ensures
        spec_while_statement(tokens, position) matches Ok(found) ==> (found.0 matches Some(
            statement,
        ) ==> renderable(statement)),
    decreases tokens_left(tokens, position), 10nat,
{
    reveal(spec_while_statement);
    reveal(spec_governed);
    reveal(renderable);
    if keyword_at(tokens, position, KeywordKind::While) {
        lemma_governed_renderable(tokens, position + 1);
    }
}

/// The `do` statement that is read is renderable.
#[verifier::spinoff_prover]
pub proof fn lemma_do_while_renderable(tokens: Seq<TokenView>, position: int)
    ensures
        spec_do_while_statement(tokens, position) matches Ok(found) ==> (found.0 matches Some(
            statement,
        ) ==> renderable(statement)),
    decreases tokens_left(tokens, position), 10nat,
{
    reveal(spec_do_while_statement);
    reveal(spec_statement);
    reveal(renderable);
    if keyword_at(tokens, position, KeywordKind::Do) {
        lemma_statement_renderable(tokens, position + 1);
        if let Ok((body, count)) = spec_statement(tokens, position + 1) {
            lemma_condition_printable(tokens, position + 1 + count + 1);
        }
    }
}

/// The `for` statement that is read is renderable.
#[verifier::spinoff_prover]
pub proof fn lemma_for_renderable(tokens: Seq<TokenView>, position: int)
    ensures
        spec_for_statement(tokens, position) matches Ok(found) ==> (found.0 matches Some(
            statement,
        ) ==> renderable(statement)),
    decreases tokens_left(tokens, position), 10nat,
{
    reveal(spec_for_statement);
    reveal(spec_statement);
    reveal(renderable);
    if keyword_at(tokens, position, KeywordKind::For) {
        lemma_for_clauses_printable(tokens, position + 1);
        if let Ok((clauses, count)) = spec_for_clauses(tokens, position + 1) {
            lemma_statement_renderable(tokens, position + 1 + count);
        }
    }
}

/// The compound statement that is read is renderable.
#[verifier::spinoff_prover]
pub proof fn lemma_compound_renderable(tokens: Seq<TokenView>, position: int)
    ensures
        spec_compound_statement(tokens, position) matches Ok(found) ==> (found.0 matches Some(
            statement,
        ) ==> renderable(statement)),
    decreases tokens_left(tokens, position), 10nat,
{
    reveal(spec_compound_statement);
    reveal(spec_statement_list);
    reveal(renderable);
    reveal(renderable_from);
    if punctuator_at(tokens, position, PunctuatorKind::LeftCurlyBracket) {
        lemma_statement_list_renderable(tokens, position + 1);
    }
}

/// The statements that are read up to the closing bracket of a compound
/// statement are renderable.
#[verifier::spinoff_prover]
pub proof fn lemma_statement_list_renderable(tokens: Seq<TokenView>, position: int)
    ensures
        spec_statement_list(tokens, position) matches Ok(found) ==> renderable_from(found.0, 0),
    decreases tokens_left(tokens, position), 30nat,
{
    reveal(spec_statement_list);
    reveal(spec_statement);
    if punctuator_at(tokens, position, PunctuatorKind::RightCurlyBracket) {
        reveal(renderable_from);
    } else if !(token_at(tokens, position) is End) {
        lemma_statement_renderable(tokens, position);
        if let Ok((statement, count)) = spec_statement(tokens, position) {
            if count > 0 {
                lemma_statement_list_renderable(tokens, position + count);
                if let Ok((rest, more)) = spec_statement_list(tokens, position + count) {
                    lemma_renderable_from_first(statement, rest);
                }
            }
        }
    }
}

/// Structural idempotence: where a token sequence parses to a statement,
/// and that statement is separable, the canonical form of the statement,
/// closed by the end marker, parses to the same statement.
pub proof fn lemma_reparse(tokens: Seq<TokenView>)
    requires
        spec_parse(tokens) matches Ok(statement) && separable(statement),
    ensures
        spec_parse(canonical_statement(spec_parse(tokens).unwrap()) + seq![TokenView::End])
            == spec_parse(tokens),
{
    lemma_statement_renderable(tokens, 0);
    lemma_statement_round_trip(spec_parse(tokens).unwrap());
}

} // verus!
