//! The canonical form of what the grammar reads from tokens that source
//! text can spell is made of tokens that source text can spell.

use crate::lexical::lexical;
use crate::parser::canonical::{
    binary_punctuator, canonical, canonical_arguments, prefix_punctuator, punctuator,
};
use crate::parser::expression::{
    binary_rank, binary_view, one_view, operator_view, spec_argument_list, spec_arguments,
    spec_assign, spec_binary, spec_binary_operator, spec_binary_rest, spec_conditional,
    spec_expression, spec_expression_rest, spec_postfix, spec_postfix_rest,
    spec_prefix_operator, spec_primary, spec_unary, unary_view, BinaryOperatorKind,
    ExpressionView, UnaryOperatorView, BINARY_LEVELS,
};
use crate::parser::util::{punctuator_at, token_at, tokens_left};
use crate::tokenizer::{PunctuatorKind, TokenView};
use vstd::prelude::*;

verus! {

/// Whether source text can spell every token of the sequence.
pub open spec fn all_lexical(tokens: Seq<TokenView>) -> bool {
    forall|index: int| 0 <= index < tokens.len() ==> lexical(#[trigger] tokens[index])
}

/// Whether source text can spell every token of the sequence but the end
/// markers in it.
pub open spec fn spellable(tokens: Seq<TokenView>) -> bool {
    forall|index: int|
        0 <= index < tokens.len() ==> lexical(#[trigger] tokens[index]) || tokens[index] is End
}

/// Whether the canonical form of every expression of the sequence is made
/// of tokens that source text can spell.
pub open spec fn each_spelled(expressions: Seq<ExpressionView>) -> bool {
    forall|index: int|
        0 <= index < expressions.len() ==> all_lexical(canonical(#[trigger] expressions[index]))
}

/// Two sequences of tokens that source text can spell, one after the other,
/// are a sequence of such tokens.
pub proof fn lemma_all_lexical_concat(first: Seq<TokenView>, second: Seq<TokenView>)
    requires
        all_lexical(first),
        all_lexical(second),
    ensures
        all_lexical(first + second),
{
    assert forall|index: int| 0 <= index < (first + second).len() implies lexical(
        #[trigger] (first + second)[index],
    ) by {
        if index < first.len() {
            assert((first + second)[index] == first[index]);
        } else {
            assert((first + second)[index] == second[index - first.len()]);
        }
    }
}

/// A punctuator between or around sequences of tokens that source text can
/// spell keeps them so.
pub proof fn lemma_all_lexical_punctuator(kind: PunctuatorKind, rest: Seq<TokenView>)
    requires
        all_lexical(rest),
    ensures
        all_lexical(seq![punctuator(kind)] + rest),
        all_lexical(seq![punctuator(kind)]),
{
    assert(all_lexical(seq![punctuator(kind)]));
    lemma_all_lexical_concat(seq![punctuator(kind)], rest);
}

/// The canonical form of a binary operator with spelled operands is
/// spelled.
pub proof fn lemma_binary_spelled(
    kind: BinaryOperatorKind,
    lhs: ExpressionView,
    rhs: ExpressionView,
)
    requires
        all_lexical(canonical(lhs)),
        all_lexical(canonical(rhs)),
    ensures
        all_lexical(canonical(binary_view(kind, lhs, rhs))),
{
    reveal(canonical);
    let close = seq![punctuator(PunctuatorKind::RightRoundBracket)];
    assert(all_lexical(close));
    lemma_all_lexical_concat(canonical(rhs), close);
    lemma_all_lexical_punctuator(binary_punctuator(kind).unwrap(), canonical(rhs) + close);
    lemma_all_lexical_concat(
        canonical(lhs),
        seq![punctuator(binary_punctuator(kind).unwrap())] + (canonical(rhs) + close),
    );
    lemma_all_lexical_punctuator(
        PunctuatorKind::LeftRoundBracket,
        canonical(lhs) + (seq![punctuator(binary_punctuator(kind).unwrap())] + (canonical(rhs)
            + close)),
    );
}

/// The canonical form of a conditional expression with spelled operands is
/// spelled.
pub proof fn lemma_ternary_spelled(
    first: ExpressionView,
    second: ExpressionView,
    third: ExpressionView,
)
    requires
        all_lexical(canonical(first)),
        all_lexical(canonical(second)),
        all_lexical(canonical(third)),
    ensures
        all_lexical(canonical(crate::parser::canonical::ternary_view(first, second, third))),
{
    reveal(canonical);
    let close = seq![punctuator(PunctuatorKind::RightRoundBracket)];
    assert(all_lexical(close));
    let three = canonical(third) + close;
    lemma_all_lexical_concat(canonical(third), close);
    let colon = seq![punctuator(PunctuatorKind::Colon)] + three;
    lemma_all_lexical_punctuator(PunctuatorKind::Colon, three);
    let two = canonical(second) + colon;
    lemma_all_lexical_concat(canonical(second), colon);
    let question = seq![punctuator(PunctuatorKind::Question)] + two;
    lemma_all_lexical_punctuator(PunctuatorKind::Question, two);
    let one = canonical(first) + question;
    lemma_all_lexical_concat(canonical(first), question);
    lemma_all_lexical_punctuator(PunctuatorKind::LeftRoundBracket, one);
}

/// The canonical form of a prefix operator with a spelled operand is
/// spelled.
pub proof fn lemma_prefix_spelled(kind: UnaryOperatorView, operand: ExpressionView)
    requires
        all_lexical(canonical(operand)),
        !(kind is FunctionCall),
    ensures
        all_lexical(canonical(unary_view(kind, operand))),
{
    reveal(canonical);
    let close = seq![punctuator(PunctuatorKind::RightRoundBracket)];
    assert(all_lexical(close));
    lemma_all_lexical_concat(canonical(operand), close);
    let head = seq![
        punctuator(PunctuatorKind::LeftRoundBracket),
        punctuator(prefix_punctuator(kind).unwrap()),
    ];
    assert(all_lexical(head));
    lemma_all_lexical_concat(head, canonical(operand) + close);
}

/// The canonical form of arguments with spelled canonical forms is spelled.
pub proof fn lemma_arguments_spelled(arguments: Seq<ExpressionView>, from: int)
    requires
        each_spelled(arguments),
        0 <= from,
    ensures
        all_lexical(canonical_arguments(arguments, from)),
    decreases arguments.len() - from,
{
    reveal(canonical_arguments);
    reveal(canonical);
    if from < arguments.len() {
        lemma_arguments_spelled(arguments, from + 1);
        let separator = if from + 1 < arguments.len() {
            PunctuatorKind::Commma
        } else {
            PunctuatorKind::RightRoundBracket
        };
        lemma_all_lexical_punctuator(separator, canonical_arguments(arguments, from + 1));
        lemma_all_lexical_concat(
            canonical(arguments[from]),
            seq![punctuator(separator)] + canonical_arguments(arguments, from + 1),
        );
    } else {
        lemma_all_lexical_punctuator(PunctuatorKind::RightRoundBracket, Seq::empty());
    }
}

/// The canonical form of a call with a spelled operand and spelled
/// arguments is spelled.
pub proof fn lemma_call_spelled(operand: ExpressionView, arguments: Seq<ExpressionView>)
    requires
        all_lexical(canonical(operand)),
        each_spelled(arguments),
    ensures
        all_lexical(canonical(unary_view(UnaryOperatorView::FunctionCall(arguments), operand))),
{
    reveal(canonical);
    reveal(canonical_arguments);
    lemma_arguments_spelled(arguments, 0);
    let close = seq![punctuator(PunctuatorKind::RightRoundBracket)];
    assert(all_lexical(close));
    let list = canonical_arguments(arguments, 0) + close;
    lemma_all_lexical_concat(canonical_arguments(arguments, 0), close);
    lemma_all_lexical_punctuator(PunctuatorKind::LeftRoundBracket, list);
    let called = canonical(operand) + (seq![punctuator(PunctuatorKind::LeftRoundBracket)] + list);
    lemma_all_lexical_concat(
        canonical(operand),
        seq![punctuator(PunctuatorKind::LeftRoundBracket)] + list,
    );
    lemma_all_lexical_punctuator(PunctuatorKind::LeftRoundBracket, called);
}

/// The canonical form of what the expression rule reads from spellable
/// tokens is spelled.
#[verifier::spinoff_prover]
pub proof fn lemma_expression_spelled(tokens: Seq<TokenView>, position: int)
    requires
        spellable(tokens),
    ensures
        spec_expression(tokens, position) matches Ok(found) ==> all_lexical(canonical(found.0)),
    decreases tokens_left(tokens, position), 40nat,
{
    reveal(spec_expression);
    reveal(spec_assign);
    reveal(spec_expression_rest);
    lemma_assign_spelled(tokens, position);
    if let Ok((first, count)) = spec_assign(tokens, position) {
        lemma_expression_rest_spelled(tokens, position + count, first);
    }
}

/// The canonical form of what is read after spelled operands of a comma
/// expression is spelled.
#[verifier::spinoff_prover]
pub proof fn lemma_expression_rest_spelled(
    tokens: Seq<TokenView>,
    position: int,
    current: ExpressionView,
)
    requires
        spellable(tokens),
        all_lexical(canonical(current)),
    ensures
        spec_expression_rest(tokens, position, current) matches Ok(found) ==> all_lexical(
            canonical(found.0),
        ),
    decreases tokens_left(tokens, position), 39nat,
{
    reveal(spec_expression_rest);
    reveal(spec_assign);
    if punctuator_at(tokens, position, PunctuatorKind::Commma) {
        lemma_assign_spelled(tokens, position + 1);
        if let Ok((operand, count)) = spec_assign(tokens, position + 1) {
            lemma_binary_spelled(BinaryOperatorKind::Comma, current, operand);
            lemma_expression_rest_spelled(
                tokens,
                position + 1 + count,
                binary_view(BinaryOperatorKind::Comma, current, operand),
            );
        }
    }
}

/// The canonical form of what the assignment rule reads from spellable
/// tokens is spelled.
#[verifier::spinoff_prover]
pub proof fn lemma_assign_spelled(tokens: Seq<TokenView>, position: int)
    requires
        spellable(tokens),
    ensures
        spec_assign(tokens, position) matches Ok(found) ==> all_lexical(canonical(found.0)),
    decreases tokens_left(tokens, position), 38nat,
{
    reveal(spec_assign);
    reveal(spec_conditional);
    lemma_conditional_spelled(tokens, position);
    if let Ok((target, count)) = spec_conditional(tokens, position) {
        if punctuator_at(tokens, position + count, PunctuatorKind::Equal) {
            lemma_assign_spelled(tokens, position + count + 1);
            if let Ok((value, more)) = spec_assign(tokens, position + count + 1) {
                lemma_binary_spelled(BinaryOperatorKind::Assign, target, value);
            }
        }
    }
}

/// The canonical form of what the rule of conditional expressions reads
/// from spellable tokens is spelled.
#[verifier::spinoff_prover]
pub proof fn lemma_conditional_spelled(tokens: Seq<TokenView>, position: int)
    requires
        spellable(tokens),
    ensures
        spec_conditional(tokens, position) matches Ok(found) ==> all_lexical(canonical(found.0)),
    decreases tokens_left(tokens, position), 36nat,
{
    reveal(spec_conditional);
    reveal(spec_binary);
    reveal(spec_expression);
    lemma_binary_level_spelled(tokens, position, 0);
    if let Ok((first, count)) = spec_binary(tokens, position, 0) {
        if punctuator_at(tokens, position + count, PunctuatorKind::Question) {
            lemma_expression_spelled(tokens, position + count + 1);
            if let Ok((second, more)) = spec_expression(tokens, position + count + 1) {
                if punctuator_at(tokens, position + count + 1 + more, PunctuatorKind::Colon) {
                    lemma_conditional_spelled(tokens, position + count + 1 + more + 1);
                    if let Ok((third, last)) = spec_conditional(
                        tokens,
                        position + count + 1 + more + 1,
                    ) {
                        lemma_ternary_spelled(first, second, third);
                    }
                }
            }
        }
    }
}

/// The canonical form of what a binary level reads from spellable tokens is
/// spelled.
#[verifier::spinoff_prover]
pub proof fn lemma_binary_level_spelled(tokens: Seq<TokenView>, position: int, level: nat)
    requires
        spellable(tokens),
    ensures
        spec_binary(tokens, position, level) matches Ok(found) ==> all_lexical(canonical(found.0)),
    decreases tokens_left(tokens, position), binary_rank(level),
{
    reveal(spec_binary);
    reveal(spec_binary_rest);
    reveal(spec_unary);
    if level >= BINARY_LEVELS {
        lemma_unary_spelled(tokens, position);
    } else {
        lemma_binary_level_spelled(tokens, position, level + 1);
        if let Ok((first, count)) = spec_binary(tokens, position, level + 1) {
            lemma_binary_rest_spelled(tokens, position + count, level, first);
        }
    }
}

/// The canonical form of what is read after spelled operands of a binary
/// level is spelled.
#[verifier::spinoff_prover]
pub proof fn lemma_binary_rest_spelled(
    tokens: Seq<TokenView>,
    position: int,
    level: nat,
    current: ExpressionView,
)
    requires
        spellable(tokens),
        all_lexical(canonical(current)),
    ensures
        spec_binary_rest(tokens, position, level, current) matches Ok(found) ==> all_lexical(
            canonical(found.0),
        ),
    decreases tokens_left(tokens, position), (binary_rank(level) - 1) as nat,
{
    reveal(spec_binary_rest);
    reveal(spec_binary);
    if let Some((kind, exchanged)) = spec_binary_operator(level, token_at(tokens, position)) {
        if level < BINARY_LEVELS {
            lemma_binary_level_spelled(tokens, position + 1, level + 1);
            if let Ok((operand, count)) = spec_binary(tokens, position + 1, level + 1) {
                lemma_binary_spelled(kind, current, operand);
                lemma_binary_spelled(kind, operand, current);
                lemma_binary_rest_spelled(
                    tokens,
                    position + 1 + count,
                    level,
                    operator_view(kind, exchanged, current, operand),
                );
            }
        }
    }
}

/// The canonical form of what the rule of unary expressions reads from
/// spellable tokens is spelled.
#[verifier::spinoff_prover]
pub proof fn lemma_unary_spelled(tokens: Seq<TokenView>, position: int)
    requires
        spellable(tokens),
    ensures
        spec_unary(tokens, position) matches Ok(found) ==> all_lexical(canonical(found.0)),
    decreases tokens_left(tokens, position), 10nat,
{
    reveal(spec_unary);
    reveal(spec_postfix);
    if let Some(kind) = spec_prefix_operator(token_at(tokens, position)) {
        lemma_unary_spelled(tokens, position + 1);
        if let Ok((operand, count)) = spec_unary(tokens, position + 1) {
            lemma_prefix_spelled(kind, operand);
        }
    } else {
        lemma_postfix_spelled(tokens, position);
    }
}

/// The canonical form of what the rule of postfix expressions reads from
/// spellable tokens is spelled.
#[verifier::spinoff_prover]
pub proof fn lemma_postfix_spelled(tokens: Seq<TokenView>, position: int)
    requires
        spellable(tokens),
    ensures
        spec_postfix(tokens, position) matches Ok(found) ==> all_lexical(canonical(found.0)),
    decreases tokens_left(tokens, position), 9nat,
{
    reveal(spec_postfix);
    reveal(spec_primary);
    reveal(spec_postfix_rest);
    lemma_primary_spelled(tokens, position);
    if let Ok((first, count)) = spec_primary(tokens, position) {
        lemma_postfix_rest_spelled(tokens, position + count, first);
    }
}

/// The canonical form of what is read after a spelled postfix expression is
/// spelled.
#[verifier::spinoff_prover]
pub proof fn lemma_postfix_rest_spelled(
    tokens: Seq<TokenView>,
    position: int,
    current: ExpressionView,
)
    requires
        spellable(tokens),
        all_lexical(canonical(current)),
    ensures
        spec_postfix_rest(tokens, position, current) matches Ok(found) ==> all_lexical(
            canonical(found.0),
        ),
    decreases tokens_left(tokens, position), 8nat,
{
    reveal(spec_postfix_rest);
    reveal(spec_arguments);
    reveal(spec_expression);
    let one = one_view();
    assert(all_lexical(canonical(one))) by {
        reveal(canonical);
    }
    if punctuator_at(tokens, position, PunctuatorKind::LeftRoundBracket) {
        lemma_arguments_each_spelled(tokens, position + 1);
        if let Ok((arguments, count)) = spec_arguments(tokens, position + 1) {
            lemma_call_spelled(current, arguments);
            lemma_postfix_rest_spelled(
                tokens,
                position + 1 + count,
                unary_view(UnaryOperatorView::FunctionCall(arguments), current),
            );
        }
    } else if punctuator_at(tokens, position, PunctuatorKind::LeftSquareBracket) {
        lemma_expression_spelled(tokens, position + 1);
        if let Ok((index, count)) = spec_expression(tokens, position + 1) {
            if punctuator_at(tokens, position + 1 + count, PunctuatorKind::RightSquareBracket) {
                lemma_binary_spelled(BinaryOperatorKind::Add, current, index);
                lemma_postfix_rest_spelled(
                    tokens,
                    position + 1 + count + 1,
                    binary_view(BinaryOperatorKind::Add, current, index),
                );
            }
        }
    } else if punctuator_at(tokens, position, PunctuatorKind::DoublePluses) {
        let sum = binary_view(BinaryOperatorKind::Add, current, one);
        lemma_binary_spelled(BinaryOperatorKind::Add, current, one);
        lemma_binary_spelled(BinaryOperatorKind::Assign, current, sum);
        lemma_postfix_rest_spelled(
            tokens,
            position + 1,
            binary_view(BinaryOperatorKind::Assign, current, sum),
        );
    } else if punctuator_at(tokens, position, PunctuatorKind::DoubleMinuses) {
        let difference = binary_view(BinaryOperatorKind::Sub, current, one);
        lemma_binary_spelled(BinaryOperatorKind::Sub, current, one);
        lemma_binary_spelled(BinaryOperatorKind::Assign, current, difference);
        lemma_postfix_rest_spelled(
            tokens,
            position + 1,
            binary_view(BinaryOperatorKind::Assign, current, difference),
        );
    }
}

/// The canonical forms of the arguments that are read from spellable tokens
/// are spelled.
#[verifier::spinoff_prover]
pub proof fn lemma_arguments_each_spelled(tokens: Seq<TokenView>, position: int)
    requires
        spellable(tokens),
    ensures
        spec_arguments(tokens, position) matches Ok(found) ==> each_spelled(found.0),
    decreases tokens_left(tokens, position), 42nat,
{
    reveal(spec_arguments);
    reveal(spec_argument_list);
    if !punctuator_at(tokens, position, PunctuatorKind::RightRoundBracket) {
        lemma_argument_list_each_spelled(tokens, position);
    }
}

/// The canonical forms of the arguments that are read up to the closing
/// bracket of a call from spellable tokens are spelled.
#[verifier::spinoff_prover]
pub proof fn lemma_argument_list_each_spelled(tokens: Seq<TokenView>, position: int)
    requires
        spellable(tokens),
    ensures
        spec_argument_list(tokens, position) matches Ok(found) ==> each_spelled(found.0),
    decreases tokens_left(tokens, position), 41nat,
{
    reveal(spec_argument_list);
    reveal(spec_assign);
    lemma_assign_spelled(tokens, position);
    if let Ok((argument, count)) = spec_assign(tokens, position) {
        if punctuator_at(tokens, position + count, PunctuatorKind::Commma) {
            lemma_argument_list_each_spelled(tokens, position + count + 1);
            if let Ok((rest, more)) = spec_argument_list(tokens, position + count + 1) {
                let all = seq![argument] + rest;
                assert forall|index: int| 0 <= index < all.len() implies all_lexical(
                    canonical(#[trigger] all[index]),
                ) by {
                    if index > 0 {
                        assert(all[index] == rest[index - 1]);
                    }
                }
            }
        } else {
            assert(seq![argument][0] == argument);
        }
    }
}

/// The canonical form of what the rule of primary expressions reads from
/// spellable tokens is spelled.
#[verifier::spinoff_prover]
pub proof fn lemma_primary_spelled(tokens: Seq<TokenView>, position: int)
    requires
        spellable(tokens),
    ensures
        spec_primary(tokens, position) matches Ok(found) ==> all_lexical(canonical(found.0)),
    decreases tokens_left(tokens, position), 7nat,
{
    reveal(spec_primary);
    reveal(spec_expression);
    reveal(canonical);
    if punctuator_at(tokens, position, PunctuatorKind::LeftRoundBracket) {
        lemma_expression_spelled(tokens, position + 1);
    } else if 0 <= position < tokens.len() {
        assert(lexical(tokens[position]) || tokens[position] is End);
    }
}

} // verus!
