//! Every expression that the grammar gives is printable: it has a canonical
//! form that parses back to it.

use crate::parser::canonical::{
    canonical, lemma_expression_round_trip, printable, printable_from,
};
use crate::parser::expression::{
    binary_rank, binary_view, one_view, operator_view, spec_argument_list, spec_arguments,
    spec_assign, spec_binary, spec_binary_operator, spec_binary_rest, spec_conditional,
    spec_expression, spec_expression_rest, spec_postfix, spec_postfix_rest, spec_prefix_operator,
    spec_primary, spec_unary, unary_view, BinaryOperatorKind, ExpressionView, UnaryOperatorView,
    BINARY_LEVELS,
};
use crate::parser::util::{punctuator_at, token_at, tokens_left, ParseError};
use crate::tokenizer::{PunctuatorKind, TokenView};
use vstd::prelude::*;

verus! {

/// A sequence whose first expression is printable and whose other
/// expressions are printable is printable.
pub proof fn lemma_printable_from_first(first: ExpressionView, rest: Seq<ExpressionView>)
    requires
        printable(first),
        printable_from(rest, 0),
    ensures
        printable_from(seq![first] + rest, 0),
{
    reveal(printable_from);
    reveal(printable);
    lemma_printable_from_shift(first, rest, 0);
    let all = seq![first] + rest;
    assert(all.len() == rest.len() + 1);
    assert(all[0] == first);
    assert(printable_from(all, 1));
}

/// The expressions after the first, from some place on, are printable where
/// they are printable without the first.
pub proof fn lemma_printable_from_shift(
    first: ExpressionView,
    rest: Seq<ExpressionView>,
    from: int,
)
    requires
        0 <= from,
        printable_from(rest, from),
    ensures
        printable_from(seq![first] + rest, from + 1),
    decreases rest.len() - from,
{
    reveal(printable_from);
    reveal(printable);
    if from < rest.len() {
        lemma_printable_from_shift(first, rest, from + 1);
        assert((seq![first] + rest)[from + 1] == rest[from]);
    }
}

/// What the expression rule reads is printable.
#[verifier::spinoff_prover]
pub proof fn lemma_expression_printable(tokens: Seq<TokenView>, position: int)
    ensures
        spec_expression(tokens, position) matches Ok(found) ==> printable(found.0),
    decreases tokens_left(tokens, position), 40nat,
{
    reveal(spec_expression);
    reveal(spec_assign);
    reveal(spec_expression_rest);
    lemma_assign_printable(tokens, position);
    if let Ok((first, count)) = spec_assign(tokens, position) {
        lemma_expression_rest_printable(tokens, position + count, first);
    }
}

/// What is read after the printable operands of a comma expression is
/// printable.
#[verifier::spinoff_prover]
pub proof fn lemma_expression_rest_printable(
    tokens: Seq<TokenView>,
    position: int,
    current: ExpressionView,
)
    requires
        printable(current),
    ensures
        spec_expression_rest(tokens, position, current) matches Ok(found) ==> printable(found.0),
    decreases tokens_left(tokens, position), 39nat,
{
    reveal(spec_expression_rest);
    reveal(spec_assign);
    if punctuator_at(tokens, position, PunctuatorKind::Commma) {
        lemma_assign_printable(tokens, position + 1);
        if let Ok((operand, count)) = spec_assign(tokens, position + 1) {
            let next = binary_view(BinaryOperatorKind::Comma, current, operand);
            assert(printable(next)) by {
                reveal(printable);
            }
            lemma_expression_rest_printable(tokens, position + 1 + count, next);
        }
    }
}

/// What the assignment rule reads is printable.
#[verifier::spinoff_prover]
pub proof fn lemma_assign_printable(tokens: Seq<TokenView>, position: int)
    ensures
        spec_assign(tokens, position) matches Ok(found) ==> printable(found.0),
    decreases tokens_left(tokens, position), 38nat,
{
    reveal(spec_assign);
    reveal(spec_conditional);
    lemma_conditional_printable(tokens, position);
    if let Ok((target, count)) = spec_conditional(tokens, position) {
        if punctuator_at(tokens, position + count, PunctuatorKind::Equal) {
            lemma_assign_printable(tokens, position + count + 1);
            if let Ok((value, more)) = spec_assign(tokens, position + count + 1) {
                assert(printable(binary_view(BinaryOperatorKind::Assign, target, value))) by {
                    reveal(printable);
                }
            }
        }
    }
}

/// What the rule of conditional expressions reads is printable.
#[verifier::spinoff_prover]
pub proof fn lemma_conditional_printable(tokens: Seq<TokenView>, position: int)
    ensures
        spec_conditional(tokens, position) matches Ok(found) ==> printable(found.0),
    decreases tokens_left(tokens, position), 36nat,
{
    reveal(spec_conditional);
    reveal(spec_binary);
    reveal(spec_expression);
    reveal(printable);
    lemma_binary_printable(tokens, position, 0);
    if let Ok((first, count)) = spec_binary(tokens, position, 0) {
        if punctuator_at(tokens, position + count, PunctuatorKind::Question) {
            lemma_expression_printable(tokens, position + count + 1);
            if let Ok((second, more)) = spec_expression(tokens, position + count + 1) {
                if punctuator_at(tokens, position + count + 1 + more, PunctuatorKind::Colon) {
                    lemma_conditional_printable(tokens, position + count + 1 + more + 1);
                }
            }
        }
    }
}

/// What a binary level reads is printable.
#[verifier::spinoff_prover]
pub proof fn lemma_binary_printable(tokens: Seq<TokenView>, position: int, level: nat)
    ensures
        spec_binary(tokens, position, level) matches Ok(found) ==> printable(found.0),
    decreases tokens_left(tokens, position), binary_rank(level),
{
    reveal(spec_binary);
    reveal(spec_binary_rest);
    reveal(spec_unary);
    if level >= BINARY_LEVELS {
        lemma_unary_printable(tokens, position);
    } else {
        lemma_binary_printable(tokens, position, level + 1);
        if let Ok((first, count)) = spec_binary(tokens, position, level + 1) {
            lemma_binary_rest_printable(tokens, position + count, level, first);
        }
    }
}

/// What is read after the printable operands of a binary level is printable.
#[verifier::spinoff_prover]
pub proof fn lemma_binary_rest_printable(
    tokens: Seq<TokenView>,
    position: int,
    level: nat,
    current: ExpressionView,
)
    requires
        printable(current),
    ensures
        spec_binary_rest(tokens, position, level, current) matches Ok(found) ==> printable(
            found.0,
        ),
    decreases tokens_left(tokens, position), (binary_rank(level) - 1) as nat,
{
    reveal(spec_binary_rest);
    reveal(spec_binary);
    if let Some((kind, exchanged)) = spec_binary_operator(level, token_at(tokens, position)) {
        if level < BINARY_LEVELS {
            lemma_binary_printable(tokens, position + 1, level + 1);
            if let Ok((operand, count)) = spec_binary(tokens, position + 1, level + 1) {
                let next = operator_view(kind, exchanged, current, operand);
                assert(printable(next)) by {
                    reveal(printable);
                }
                lemma_binary_rest_printable(tokens, position + 1 + count, level, next);
            }
        }
    }
}

/// What the rule of unary expressions reads is printable.
#[verifier::spinoff_prover]
pub proof fn lemma_unary_printable(tokens: Seq<TokenView>, position: int)
    ensures
        spec_unary(tokens, position) matches Ok(found) ==> printable(found.0),
    decreases tokens_left(tokens, position), 10nat,
{
    reveal(spec_unary);
    reveal(spec_postfix);
    reveal(printable);
    if spec_prefix_operator(token_at(tokens, position)) is Some {
        lemma_unary_printable(tokens, position + 1);
    } else {
        lemma_postfix_printable(tokens, position);
    }
}

/// What the rule of postfix expressions reads is printable.
#[verifier::spinoff_prover]
pub proof fn lemma_postfix_printable(tokens: Seq<TokenView>, position: int)
    ensures
        spec_postfix(tokens, position) matches Ok(found) ==> printable(found.0),
    decreases tokens_left(tokens, position), 9nat,
{
    reveal(spec_postfix);
    reveal(spec_primary);
    reveal(spec_postfix_rest);
    lemma_primary_printable(tokens, position);
    if let Ok((first, count)) = spec_primary(tokens, position) {
        lemma_postfix_rest_printable(tokens, position + count, first);
    }
}

/// What is read after a printable postfix expression is printable.
#[verifier::spinoff_prover]
pub proof fn lemma_postfix_rest_printable(
    tokens: Seq<TokenView>,
    position: int,
    current: ExpressionView,
)
    requires
        printable(current),
    ensures
        spec_postfix_rest(tokens, position, current) matches Ok(found) ==> printable(found.0),
    decreases tokens_left(tokens, position), 8nat,
{
    reveal(spec_postfix_rest);
    reveal(spec_arguments);
    reveal(spec_expression);
    if punctuator_at(tokens, position, PunctuatorKind::LeftRoundBracket) {
        lemma_arguments_printable(tokens, position + 1);
        if let Ok((arguments, count)) = spec_arguments(tokens, position + 1) {
            let next = unary_view(UnaryOperatorView::FunctionCall(arguments), current);
            assert(printable(next)) by {
                reveal(printable);
            }
            lemma_postfix_rest_printable(tokens, position + 1 + count, next);
        }
    } else if punctuator_at(tokens, position, PunctuatorKind::LeftSquareBracket) {
        lemma_expression_printable(tokens, position + 1);
        if let Ok((index, count)) = spec_expression(tokens, position + 1) {
            if punctuator_at(tokens, position + 1 + count, PunctuatorKind::RightSquareBracket) {
                let next = binary_view(BinaryOperatorKind::Add, current, index);
                assert(printable(next)) by {
                    reveal(printable);
                }
                lemma_postfix_rest_printable(tokens, position + 1 + count + 1, next);
            }
        }
    } else if punctuator_at(tokens, position, PunctuatorKind::DoublePluses) {
        let next = binary_view(
            BinaryOperatorKind::Assign,
            current,
            binary_view(BinaryOperatorKind::Add, current, one_view()),
        );
        assert(printable(next)) by {
            reveal_with_fuel(printable, 3);
        }
        lemma_postfix_rest_printable(tokens, position + 1, next);
    } else if punctuator_at(tokens, position, PunctuatorKind::DoubleMinuses) {
        let next = binary_view(
            BinaryOperatorKind::Assign,
            current,
            binary_view(BinaryOperatorKind::Sub, current, one_view()),
        );
        assert(printable(next)) by {
            reveal_with_fuel(printable, 3);
        }
        lemma_postfix_rest_printable(tokens, position + 1, next);
    }
}

/// The arguments that are read for a call are printable.
#[verifier::spinoff_prover]
pub proof fn lemma_arguments_printable(tokens: Seq<TokenView>, position: int)
    ensures
        spec_arguments(tokens, position) matches Ok(found) ==> printable_from(found.0, 0),
    decreases tokens_left(tokens, position), 42nat,
{
    reveal(spec_arguments);
    reveal(spec_argument_list);
    if !punctuator_at(tokens, position, PunctuatorKind::RightRoundBracket) {
        lemma_argument_list_printable(tokens, position);
    } else {
        reveal(printable_from);
    }
}

/// The arguments that are read up to the closing bracket of a call are
/// printable.
#[verifier::spinoff_prover]
pub proof fn lemma_argument_list_printable(tokens: Seq<TokenView>, position: int)
    ensures
        spec_argument_list(tokens, position) matches Ok(found) ==> printable_from(found.0, 0),
    decreases tokens_left(tokens, position), 41nat,
{
    reveal(spec_argument_list);
    reveal(spec_assign);
    lemma_assign_printable(tokens, position);
    if let Ok((argument, count)) = spec_assign(tokens, position) {
        if punctuator_at(tokens, position + count, PunctuatorKind::Commma) {
            lemma_argument_list_printable(tokens, position + count + 1);
            if let Ok((rest, more)) = spec_argument_list(tokens, position + count + 1) {
                lemma_printable_from_first(argument, rest);
            }
        } else {
            reveal_with_fuel(printable_from, 2);
            reveal(printable);
            assert(seq![argument][0] == argument);
        }
    }
}

/// What the rule of primary expressions reads is printable.
#[verifier::spinoff_prover]
pub proof fn lemma_primary_printable(tokens: Seq<TokenView>, position: int)
    ensures
        spec_primary(tokens, position) matches Ok(found) ==> printable(found.0),
    decreases tokens_left(tokens, position), 7nat,
{
    reveal(spec_primary);
    reveal(spec_expression);
    reveal(printable);
    if punctuator_at(tokens, position, PunctuatorKind::LeftRoundBracket) {
        lemma_expression_printable(tokens, position + 1);
    }
}

/// Structural idempotence of the expression rule: where it reads an
/// expression from some tokens, it reads the same expression from the
/// canonical form of that expression, closed by the end marker.
pub proof fn lemma_expression_reparse(tokens: Seq<TokenView>, position: int)
    requires
        spec_expression(tokens, position) is Ok,
    ensures
        ({
            let expression = spec_expression(tokens, position)->Ok_0.0;
            spec_expression(canonical(expression) + seq![TokenView::End], 0) == Ok::<
                (ExpressionView, nat),
                (ParseError, nat),
            >((expression, canonical(expression).len()))
        }),
{
    lemma_expression_printable(tokens, position);
    lemma_expression_round_trip(spec_expression(tokens, position)->Ok_0.0, seq![TokenView::End]);
}

} // verus!
