//! The canonical form of an expression, and the proof that parsing it gives
//! the expression back.
//!
//! The canonical form writes every operator with its operands in round
//! brackets, so that it reads the same whatever stands around it.

use crate::parser::expression::{
    binary_view, spec_argument_list, spec_arguments, spec_assign, spec_binary, spec_binary_rest,
    spec_conditional, spec_expression, spec_expression_rest, spec_operator_row, spec_postfix,
    spec_postfix_rest, spec_prefix_operator, spec_primary, spec_unary, unary_view,
    BinaryOperatorKind, ExpressionView, TernaryOperatorKind, UnaryOperatorView, BINARY_LEVELS,
};
use crate::parser::util::{punctuator_at, token_at, ParseError};
use crate::tokenizer::{PunctuatorKind, TokenView};
use vstd::prelude::*;

verus! {

/// Whether `part` stands in `tokens` at `position`.
pub open spec fn holds_at(tokens: Seq<TokenView>, position: int, part: Seq<TokenView>) -> bool {
    &&& 0 <= position
    &&& position + part.len() <= tokens.len()
    &&& tokens.subrange(position, position + part.len()) == part
}

/// Where a token and more stand, the token stands first and the rest after
/// it.
pub proof fn lemma_holds_first(
    tokens: Seq<TokenView>,
    position: int,
    first: TokenView,
    rest: Seq<TokenView>,
)
    requires
        holds_at(tokens, position, seq![first] + rest),
    ensures
        token_at(tokens, position) == first,
        holds_at(tokens, position + 1, rest),
{
    let part = seq![first] + rest;
    assert(tokens.subrange(position, position + part.len())[0] == part[0]);
    assert(tokens.subrange(position + 1, position + 1 + rest.len()) =~= rest) by {
        assert forall|index: int| 0 <= index < rest.len() implies tokens.subrange(
            position + 1,
            position + 1 + rest.len(),
        )[index] == rest[index] by {
            assert(tokens.subrange(position, position + part.len())[index + 1] == part[index + 1]);
        }
    }
}

/// Where two parts stand one after the other, each stands in its place.
pub proof fn lemma_holds_split(
    tokens: Seq<TokenView>,
    position: int,
    first: Seq<TokenView>,
    second: Seq<TokenView>,
)
    requires
        holds_at(tokens, position, first + second),
    ensures
        holds_at(tokens, position, first),
        holds_at(tokens, position + first.len(), second),
{
    let part = first + second;
    assert(tokens.subrange(position, position + first.len()) =~= first) by {
        assert forall|index: int| 0 <= index < first.len() implies tokens.subrange(
            position,
            position + first.len(),
        )[index] == first[index] by {
            assert(tokens.subrange(position, position + part.len())[index] == part[index]);
        }
    }
    assert(tokens.subrange(position + first.len(), position + first.len() + second.len())
        =~= second) by {
        assert forall|index: int| 0 <= index < second.len() implies tokens.subrange(
            position + first.len(),
            position + first.len() + second.len(),
        )[index] == second[index] by {
            assert(tokens.subrange(position, position + part.len())[first.len() + index]
                == part[first.len() + index]);
        }
    }
}

/// Where one token stands, it is the token at that position.
pub proof fn lemma_holds_one(tokens: Seq<TokenView>, position: int, token: TokenView)
    requires
        holds_at(tokens, position, seq![token]),
    ensures
        token_at(tokens, position) == token,
{
    assert(tokens.subrange(position, position + 1)[0] == seq![token][0]);
}

/// The punctuator that the canonical form writes for a binary operator.
/// There is none for `.`, which the grammar does not have.
pub open spec fn binary_punctuator(kind: BinaryOperatorKind) -> Option<PunctuatorKind> {
    match kind {
        BinaryOperatorKind::Add => Some(PunctuatorKind::Plus),
        BinaryOperatorKind::Sub => Some(PunctuatorKind::Minus),
        BinaryOperatorKind::Mul => Some(PunctuatorKind::Star),
        BinaryOperatorKind::Div => Some(PunctuatorKind::Slash),
        BinaryOperatorKind::Mod => Some(PunctuatorKind::Percent),
        BinaryOperatorKind::Dot => None,
        BinaryOperatorKind::LeftShift => Some(PunctuatorKind::DoubleLessThans),
        BinaryOperatorKind::RightShift => Some(PunctuatorKind::DoubleGreaterThans),
        BinaryOperatorKind::Equal => Some(PunctuatorKind::DoubleEquals),
        BinaryOperatorKind::NotEqual => Some(PunctuatorKind::ExclamationEqual),
        BinaryOperatorKind::LessThan => Some(PunctuatorKind::LessThan),
        BinaryOperatorKind::LessThanEqual => Some(PunctuatorKind::LessThanEqual),
        BinaryOperatorKind::LogicalAnd => Some(PunctuatorKind::DoubleAmpersands),
        BinaryOperatorKind::LogicalOr => Some(PunctuatorKind::DoublePipelines),
        BinaryOperatorKind::BitwiseAnd => Some(PunctuatorKind::Ampersand),
        BinaryOperatorKind::BitwiseXor => Some(PunctuatorKind::Hat),
        BinaryOperatorKind::BitwiseOr => Some(PunctuatorKind::Pipeline),
        BinaryOperatorKind::Assign => Some(PunctuatorKind::Equal),
        BinaryOperatorKind::Comma => Some(PunctuatorKind::Commma),
    }
}

/// The punctuator that the canonical form writes for a prefix operator.
/// There is none for a cast and none for a call.
pub open spec fn prefix_punctuator(kind: UnaryOperatorView) -> Option<PunctuatorKind> {
    match kind {
        UnaryOperatorView::LogicalNot => Some(PunctuatorKind::Exclamation),
        UnaryOperatorView::BitwiseNot => Some(PunctuatorKind::Tilde),
        UnaryOperatorView::Reference => Some(PunctuatorKind::Ampersand),
        UnaryOperatorView::Dereference => Some(PunctuatorKind::Star),
        _ => None,
    }
}

/// A punctuator as a token.
pub open spec fn punctuator(kind: PunctuatorKind) -> TokenView {
    TokenView::Punctuator(kind)
}

/// Whether the grammar can give the expression: it has no `.` and no cast.
#[verifier::opaque]
pub open spec fn printable(expression: ExpressionView) -> bool
    decreases expression, 1nat, 0nat,
{
    match expression {
        ExpressionView::TernaryOperator { kind, first, second, third } => {
            &&& printable(*first)
            &&& printable(*second)
            &&& printable(*third)
        },
        ExpressionView::BinaryOperator { kind, lhs, rhs } => {
            &&& kind != BinaryOperatorKind::Dot
            &&& printable(*lhs)
            &&& printable(*rhs)
        },
        ExpressionView::UnaryOperator { kind, operand } => {
            &&& printable(*operand)
            &&& match kind {
                UnaryOperatorView::Cast(_) => false,
                UnaryOperatorView::FunctionCall(arguments) => printable_from(arguments, 0),
                _ => true,
            }
        },
        ExpressionView::Immediate(_) => true,
        ExpressionView::Identifier(_) => true,
    }
}

/// Whether the expressions of a sequence from the one at `from` on are
/// printable.
#[verifier::opaque]
pub open spec fn printable_from(expressions: Seq<ExpressionView>, from: int) -> bool
    decreases expressions, 0nat, expressions.len() - from,
{
    if 0 <= from < expressions.len() {
        printable(expressions[from]) && printable_from(expressions, from + 1)
    } else {
        true
    }
}

/// The canonical form of an expression: a literal or an identifier as it is,
/// anything else in round brackets, with each operand in its canonical form.
#[verifier::opaque]
pub open spec fn canonical(expression: ExpressionView) -> Seq<TokenView>
    decreases expression, 1nat,
{
    match expression {
        ExpressionView::TernaryOperator { kind, first, second, third } => {
            seq![punctuator(PunctuatorKind::LeftRoundBracket)] + (canonical(*first) + (seq![
                punctuator(PunctuatorKind::Question),
            ] + (canonical(*second) + (seq![punctuator(PunctuatorKind::Colon)] + (canonical(
                *third,
            ) + seq![punctuator(PunctuatorKind::RightRoundBracket)])))))
        },
        ExpressionView::BinaryOperator { kind, lhs, rhs } => {
            seq![punctuator(PunctuatorKind::LeftRoundBracket)] + (canonical(*lhs) + (seq![
                punctuator(binary_punctuator(kind).unwrap()),
            ] + (canonical(*rhs) + seq![punctuator(PunctuatorKind::RightRoundBracket)])))
        },
        ExpressionView::UnaryOperator { kind, operand } => match kind {
            UnaryOperatorView::FunctionCall(arguments) => {
                seq![punctuator(PunctuatorKind::LeftRoundBracket)] + (canonical(*operand) + (seq![
                    punctuator(PunctuatorKind::LeftRoundBracket),
                ] + (canonical_arguments(arguments, 0) + seq![
                    punctuator(PunctuatorKind::RightRoundBracket),
                ])))
            },
            _ => {
                seq![
                    punctuator(PunctuatorKind::LeftRoundBracket),
                    punctuator(prefix_punctuator(kind).unwrap()),
                ] + (canonical(*operand) + seq![punctuator(PunctuatorKind::RightRoundBracket)])
            },
        },
        ExpressionView::Immediate(literal) => seq![TokenView::Literal(literal)],
        ExpressionView::Identifier(name) => seq![TokenView::Identifier(name)],
    }
}

/// The canonical form of the arguments of a call from the one at `from` on,
/// up to and with the closing bracket of the call: the arguments in their
/// canonical forms, with commas between them.
#[verifier::opaque]
pub open spec fn canonical_arguments(arguments: Seq<ExpressionView>, from: int) -> Seq<TokenView>
    decreases arguments, 0nat, arguments.len() - from,
{
    if 0 <= from < arguments.len() {
        canonical(arguments[from]) + (seq![
            punctuator(
                if from + 1 < arguments.len() {
                    PunctuatorKind::Commma
                } else {
                    PunctuatorKind::RightRoundBracket
                },
            ),
        ] + canonical_arguments(arguments, from + 1))
    } else if arguments.len() == 0 && from == 0 {
        seq![punctuator(PunctuatorKind::RightRoundBracket)]
    } else {
        Seq::empty()
    }
}

/// Whether `token` continues a postfix expression: `(`, `[`, `++` or `--`.
pub open spec fn starts_postfix(token: TokenView) -> bool {
    ||| token == punctuator(PunctuatorKind::LeftRoundBracket)
    ||| token == punctuator(PunctuatorKind::LeftSquareBracket)
    ||| token == punctuator(PunctuatorKind::DoublePluses)
    ||| token == punctuator(PunctuatorKind::DoubleMinuses)
}

/// The level of the operator table at which `token` is an operator, if it is
/// one.
pub open spec fn operator_level(token: TokenView) -> Option<nat> {
    match token {
        TokenView::Punctuator(kind) => match spec_operator_row(kind) {
            Some(row) => Some(row.0),
            None => None,
        },
        _ => None,
    }
}

/// Whether `token` after an operand of binary level `level` ends the
/// operand: it continues no postfix expression and is no operator of that
/// level or of a tighter one.
pub open spec fn ends_operand(token: TokenView, level: nat) -> bool {
    &&& !starts_postfix(token)
    &&& operator_level(token) matches Some(found) ==> found < level
}

/// Whether `token` after a conditional expression ends it.
pub open spec fn ends_conditional(token: TokenView) -> bool {
    &&& ends_operand(token, 0)
    &&& token != punctuator(PunctuatorKind::Question)
}

/// Whether `token` after an assignment ends it.
pub open spec fn ends_assign(token: TokenView) -> bool {
    &&& ends_conditional(token)
    &&& token != punctuator(PunctuatorKind::Equal)
}

/// Whether `token` after an expression ends it: no operator and no bracket
/// that would make the expression longer.
pub open spec fn ends_expression(token: TokenView) -> bool {
    &&& ends_assign(token)
    &&& token != punctuator(PunctuatorKind::Commma)
}

/// A primary expression that no prefix operator starts and no postfix
/// operator follows is a unary expression.
#[verifier::spinoff_prover]
pub proof fn lemma_unary_of_primary(
    tokens: Seq<TokenView>,
    position: int,
    expression: ExpressionView,
    count: nat,
)
    requires
        spec_primary(tokens, position) == Ok::<(ExpressionView, nat), (ParseError, nat)>(
            (expression, count),
        ),
        spec_prefix_operator(token_at(tokens, position)) is None,
        !starts_postfix(token_at(tokens, position + count)),
    ensures
        spec_unary(tokens, position) == Ok::<(ExpressionView, nat), (ParseError, nat)>(
            (expression, count),
        ),
{
    reveal(spec_unary);
    reveal(spec_postfix);
    reveal(spec_postfix_rest);
    reveal(spec_primary);
    assert(spec_postfix_rest(tokens, position + count, expression) == Ok::<
        (ExpressionView, nat),
        (ParseError, nat),
    >((expression, 0)));
    assert(spec_postfix(tokens, position) == Ok::<(ExpressionView, nat), (ParseError, nat)>(
        (expression, count),
    ));
}

/// A unary expression that no operator of level `level` or tighter follows
/// is an expression of that level.
#[verifier::spinoff_prover]
pub proof fn lemma_binary_of_unary(
    tokens: Seq<TokenView>,
    position: int,
    expression: ExpressionView,
    count: nat,
    level: nat,
)
    requires
        spec_unary(tokens, position) == Ok::<(ExpressionView, nat), (ParseError, nat)>(
            (expression, count),
        ),
        ends_operand(token_at(tokens, position + count), level),
        level <= BINARY_LEVELS,
    ensures
        spec_binary(tokens, position, level) == Ok::<(ExpressionView, nat), (ParseError, nat)>(
            (expression, count),
        ),
    decreases BINARY_LEVELS - level,
{
    reveal(spec_binary);
    reveal(spec_binary_rest);
    reveal(spec_unary);
    if level < BINARY_LEVELS {
        lemma_binary_of_unary(tokens, position, expression, count, level + 1);
        assert(spec_binary_rest(tokens, position + count, level, expression) == Ok::<
            (ExpressionView, nat),
            (ParseError, nat),
        >((expression, 0)));
    }
}

/// An expression of the loosest binary level that no `?` follows is a
/// conditional expression.
pub proof fn lemma_conditional_of_binary(
    tokens: Seq<TokenView>,
    position: int,
    expression: ExpressionView,
    count: nat,
)
    requires
        spec_binary(tokens, position, 0) == Ok::<(ExpressionView, nat), (ParseError, nat)>(
            (expression, count),
        ),
        token_at(tokens, position + count) != punctuator(PunctuatorKind::Question),
    ensures
        spec_conditional(tokens, position) == Ok::<(ExpressionView, nat), (ParseError, nat)>(
            (expression, count),
        ),
{
    reveal(spec_conditional);
    reveal(spec_binary);
}

/// A conditional expression that no `=` follows is an assignment.
pub proof fn lemma_assign_of_conditional(
    tokens: Seq<TokenView>,
    position: int,
    expression: ExpressionView,
    count: nat,
)
    requires
        spec_conditional(tokens, position) == Ok::<(ExpressionView, nat), (ParseError, nat)>(
            (expression, count),
        ),
        token_at(tokens, position + count) != punctuator(PunctuatorKind::Equal),
    ensures
        spec_assign(tokens, position) == Ok::<(ExpressionView, nat), (ParseError, nat)>(
            (expression, count),
        ),
{
    reveal(spec_assign);
    reveal(spec_conditional);
}

/// An assignment that no comma follows is an expression.
pub proof fn lemma_expression_of_assign(
    tokens: Seq<TokenView>,
    position: int,
    expression: ExpressionView,
    count: nat,
)
    requires
        spec_assign(tokens, position) == Ok::<(ExpressionView, nat), (ParseError, nat)>(
            (expression, count),
        ),
        token_at(tokens, position + count) != punctuator(PunctuatorKind::Commma),
    ensures
        spec_expression(tokens, position) == Ok::<(ExpressionView, nat), (ParseError, nat)>(
            (expression, count),
        ),
{
    reveal(spec_expression);
    reveal(spec_expression_rest);
    reveal(spec_assign);
    assert(spec_expression_rest(tokens, position + count, expression) == Ok::<
        (ExpressionView, nat),
        (ParseError, nat),
    >((expression, 0)));
}

/// Whether the rule of primary expressions reads `expression` in `count`
/// tokens at `position`, starting with a token that is no prefix operator.
pub open spec fn reads_primary(
    tokens: Seq<TokenView>,
    position: int,
    expression: ExpressionView,
    count: nat,
) -> bool {
    &&& spec_primary(tokens, position) == Ok::<(ExpressionView, nat), (ParseError, nat)>(
        (expression, count),
    )
    &&& spec_prefix_operator(token_at(tokens, position)) is None
}

/// A primary expression that the token after it ends as an operand of level
/// `level` is an expression of that level.
pub proof fn lemma_operand_of_primary(
    tokens: Seq<TokenView>,
    position: int,
    expression: ExpressionView,
    count: nat,
    level: nat,
)
    requires
        reads_primary(tokens, position, expression, count),
        ends_operand(token_at(tokens, position + count), level),
        level <= BINARY_LEVELS,
    ensures
        spec_binary(tokens, position, level) == Ok::<(ExpressionView, nat), (ParseError, nat)>(
            (expression, count),
        ),
{
    lemma_unary_of_primary(tokens, position, expression, count);
    lemma_binary_of_unary(tokens, position, expression, count, level);
}

/// A primary expression that the token after it ends as a conditional
/// expression is a conditional expression.
pub proof fn lemma_conditional_of_primary(
    tokens: Seq<TokenView>,
    position: int,
    expression: ExpressionView,
    count: nat,
)
    requires
        reads_primary(tokens, position, expression, count),
        ends_conditional(token_at(tokens, position + count)),
    ensures
        spec_binary(tokens, position, 0) == Ok::<(ExpressionView, nat), (ParseError, nat)>(
            (expression, count),
        ),
        spec_conditional(tokens, position) == Ok::<(ExpressionView, nat), (ParseError, nat)>(
            (expression, count),
        ),
{
    lemma_operand_of_primary(tokens, position, expression, count, 0);
    lemma_conditional_of_binary(tokens, position, expression, count);
}

/// A primary expression that the token after it ends as an assignment is an
/// assignment.
pub proof fn lemma_assign_of_primary(
    tokens: Seq<TokenView>,
    position: int,
    expression: ExpressionView,
    count: nat,
)
    requires
        reads_primary(tokens, position, expression, count),
        ends_assign(token_at(tokens, position + count)),
    ensures
        spec_conditional(tokens, position) == Ok::<(ExpressionView, nat), (ParseError, nat)>(
            (expression, count),
        ),
        spec_assign(tokens, position) == Ok::<(ExpressionView, nat), (ParseError, nat)>(
            (expression, count),
        ),
{
    lemma_conditional_of_primary(tokens, position, expression, count);
    lemma_assign_of_conditional(tokens, position, expression, count);
}

/// A primary expression that the token after it ends as an expression is an
/// expression.
pub proof fn lemma_expression_of_primary(
    tokens: Seq<TokenView>,
    position: int,
    expression: ExpressionView,
    count: nat,
)
    requires
        reads_primary(tokens, position, expression, count),
        ends_expression(token_at(tokens, position + count)),
    ensures
        spec_assign(tokens, position) == Ok::<(ExpressionView, nat), (ParseError, nat)>(
            (expression, count),
        ),
        spec_expression(tokens, position) == Ok::<(ExpressionView, nat), (ParseError, nat)>(
            (expression, count),
        ),
{
    lemma_assign_of_primary(tokens, position, expression, count);
    lemma_expression_of_assign(tokens, position, expression, count);
}

/// An expression of a binary level that the token after it ends as an
/// expression is an expression, an assignment and a conditional expression.
#[verifier::spinoff_prover]
pub proof fn lemma_expression_of_binary(
    tokens: Seq<TokenView>,
    position: int,
    expression: ExpressionView,
    count: nat,
    level: nat,
)
    requires
        spec_binary(tokens, position, level) == Ok::<(ExpressionView, nat), (ParseError, nat)>(
            (expression, count),
        ),
        ends_expression(token_at(tokens, position + count)),
        level <= BINARY_LEVELS,
    ensures
        spec_binary(tokens, position, 0) == Ok::<(ExpressionView, nat), (ParseError, nat)>(
            (expression, count),
        ),
        spec_conditional(tokens, position) == Ok::<(ExpressionView, nat), (ParseError, nat)>(
            (expression, count),
        ),
        spec_assign(tokens, position) == Ok::<(ExpressionView, nat), (ParseError, nat)>(
            (expression, count),
        ),
        spec_expression(tokens, position) == Ok::<(ExpressionView, nat), (ParseError, nat)>(
            (expression, count),
        ),
    decreases level,
{
    if level == 0 {
        lemma_conditional_of_binary(tokens, position, expression, count);
        lemma_assign_of_conditional(tokens, position, expression, count);
        lemma_expression_of_assign(tokens, position, expression, count);
    } else {
        reveal(spec_binary);
        reveal(spec_binary_rest);
        assert(spec_binary_rest(tokens, position + count, (level - 1) as nat, expression) == Ok::<
            (ExpressionView, nat),
            (ParseError, nat),
        >((expression, 0)));
        assert(spec_binary(tokens, position, (level - 1) as nat) == Ok::<
            (ExpressionView, nat),
            (ParseError, nat),
        >((expression, count)));
        lemma_expression_of_binary(tokens, position, expression, count, (level - 1) as nat);
    }
}

/// An expression between round brackets is a primary expression.
#[verifier::spinoff_prover]
pub proof fn lemma_parenthesized(
    tokens: Seq<TokenView>,
    position: int,
    expression: ExpressionView,
    count: nat,
)
    requires
        token_at(tokens, position) == punctuator(PunctuatorKind::LeftRoundBracket),
        spec_expression(tokens, position + 1) == Ok::<(ExpressionView, nat), (ParseError, nat)>(
            (expression, count),
        ),
        token_at(tokens, position + 1 + count) == punctuator(PunctuatorKind::RightRoundBracket),
    ensures
        reads_primary(tokens, position, expression, count + 2),
{
    reveal(spec_primary);
    reveal(spec_expression);
}

/// Whether `kind` is an operator of the operator table, written with the
/// punctuator that the canonical form uses for it.
pub open spec fn in_table(kind: BinaryOperatorKind) -> bool {
    &&& binary_punctuator(kind) matches Some(operator)
    &&& spec_operator_row(operator) matches Some(row)
    &&& row.0 < BINARY_LEVELS
    &&& row.1 == kind
    &&& !row.2
}

/// Two primary expressions with an operator of the table between them, in
/// round brackets, are read as the node of the operator.
#[verifier::spinoff_prover]
pub proof fn lemma_binary_case(
    tokens: Seq<TokenView>,
    position: int,
    kind: BinaryOperatorKind,
    lhs: ExpressionView,
    lhs_count: nat,
    rhs: ExpressionView,
    rhs_count: nat,
)
    requires
        in_table(kind),
        token_at(tokens, position) == punctuator(PunctuatorKind::LeftRoundBracket),
        reads_primary(tokens, position + 1, lhs, lhs_count),
        token_at(tokens, position + 1 + lhs_count) == punctuator(binary_punctuator(kind).unwrap()),
        reads_primary(tokens, position + 2 + lhs_count, rhs, rhs_count),
        token_at(tokens, position + 2 + lhs_count + rhs_count) == punctuator(
            PunctuatorKind::RightRoundBracket,
        ),
    ensures
        reads_primary(tokens, position, binary_view(kind, lhs, rhs), lhs_count + rhs_count + 3),
{
    let operator = binary_punctuator(kind).unwrap();
    let level = spec_operator_row(operator).unwrap().0;
    let node = binary_view(kind, lhs, rhs);
    lemma_operand_of_primary(tokens, position + 1, lhs, lhs_count, level + 1);
    lemma_operand_of_primary(tokens, position + 2 + lhs_count, rhs, rhs_count, level + 1);
    reveal(spec_binary);
    reveal(spec_binary_rest);
    assert(spec_binary_rest(tokens, position + 2 + lhs_count + rhs_count, level, node) == Ok::<
        (ExpressionView, nat),
        (ParseError, nat),
    >((node, 0)));
    assert(spec_binary_rest(tokens, position + 1 + lhs_count, level, lhs) == Ok::<
        (ExpressionView, nat),
        (ParseError, nat),
    >((node, 1 + rhs_count)));
    assert(spec_binary(tokens, position + 1, level) == Ok::<
        (ExpressionView, nat),
        (ParseError, nat),
    >((node, lhs_count + 1 + rhs_count)));
    lemma_expression_of_binary(tokens, position + 1, node, lhs_count + 1 + rhs_count, level);
    lemma_parenthesized(tokens, position, node, lhs_count + 1 + rhs_count);
}

/// Two primary expressions with `=` between them, in round brackets, are
/// read as an assignment.
#[verifier::spinoff_prover]
pub proof fn lemma_assign_case(
    tokens: Seq<TokenView>,
    position: int,
    lhs: ExpressionView,
    lhs_count: nat,
    rhs: ExpressionView,
    rhs_count: nat,
)
    requires
        token_at(tokens, position) == punctuator(PunctuatorKind::LeftRoundBracket),
        reads_primary(tokens, position + 1, lhs, lhs_count),
        token_at(tokens, position + 1 + lhs_count) == punctuator(PunctuatorKind::Equal),
        reads_primary(tokens, position + 2 + lhs_count, rhs, rhs_count),
        token_at(tokens, position + 2 + lhs_count + rhs_count) == punctuator(
            PunctuatorKind::RightRoundBracket,
        ),
    ensures
        reads_primary(
            tokens,
            position,
            binary_view(BinaryOperatorKind::Assign, lhs, rhs),
            lhs_count + rhs_count + 3,
        ),
{
    let node = binary_view(BinaryOperatorKind::Assign, lhs, rhs);
    lemma_conditional_of_primary(tokens, position + 1, lhs, lhs_count);
    lemma_assign_of_primary(tokens, position + 2 + lhs_count, rhs, rhs_count);
    reveal(spec_assign);
    reveal(spec_conditional);
    assert(spec_assign(tokens, position + 1) == Ok::<(ExpressionView, nat), (ParseError, nat)>(
        (node, lhs_count + 1 + rhs_count),
    ));
    lemma_expression_of_assign(tokens, position + 1, node, lhs_count + 1 + rhs_count);
    lemma_parenthesized(tokens, position, node, lhs_count + 1 + rhs_count);
}

/// Two primary expressions with a comma between them, in round brackets, are
/// read as a comma expression.
#[verifier::spinoff_prover]
pub proof fn lemma_comma_case(
    tokens: Seq<TokenView>,
    position: int,
    lhs: ExpressionView,
    lhs_count: nat,
    rhs: ExpressionView,
    rhs_count: nat,
)
    requires
        token_at(tokens, position) == punctuator(PunctuatorKind::LeftRoundBracket),
        reads_primary(tokens, position + 1, lhs, lhs_count),
        token_at(tokens, position + 1 + lhs_count) == punctuator(PunctuatorKind::Commma),
        reads_primary(tokens, position + 2 + lhs_count, rhs, rhs_count),
        token_at(tokens, position + 2 + lhs_count + rhs_count) == punctuator(
            PunctuatorKind::RightRoundBracket,
        ),
    ensures
        reads_primary(
            tokens,
            position,
            binary_view(BinaryOperatorKind::Comma, lhs, rhs),
            lhs_count + rhs_count + 3,
        ),
{
    let node = binary_view(BinaryOperatorKind::Comma, lhs, rhs);
    lemma_assign_of_primary(tokens, position + 1, lhs, lhs_count);
    lemma_assign_of_primary(tokens, position + 2 + lhs_count, rhs, rhs_count);
    reveal(spec_expression);
    reveal(spec_expression_rest);
    reveal(spec_assign);
    assert(spec_expression_rest(tokens, position + 2 + lhs_count + rhs_count, node) == Ok::<
        (ExpressionView, nat),
        (ParseError, nat),
    >((node, 0)));
    assert(spec_expression_rest(tokens, position + 1 + lhs_count, lhs) == Ok::<
        (ExpressionView, nat),
        (ParseError, nat),
    >((node, 1 + rhs_count)));
    assert(spec_expression(tokens, position + 1) == Ok::<
        (ExpressionView, nat),
        (ParseError, nat),
    >((node, lhs_count + 1 + rhs_count)));
    lemma_parenthesized(tokens, position, node, lhs_count + 1 + rhs_count);
}

/// The node of a conditional expression.
pub open spec fn ternary_view(
    first: ExpressionView,
    second: ExpressionView,
    third: ExpressionView,
) -> ExpressionView {
    ExpressionView::TernaryOperator {
        kind: TernaryOperatorKind::Conditional,
        first: Box::new(first),
        second: Box::new(second),
        third: Box::new(third),
    }
}

/// Three primary expressions with `?` and `:` between them, in round
/// brackets, are read as a conditional expression.
#[verifier::spinoff_prover]
pub proof fn lemma_ternary_case(
    tokens: Seq<TokenView>,
    position: int,
    first: ExpressionView,
    first_count: nat,
    second: ExpressionView,
    second_count: nat,
    third: ExpressionView,
    third_count: nat,
)
    requires
        token_at(tokens, position) == punctuator(PunctuatorKind::LeftRoundBracket),
        reads_primary(tokens, position + 1, first, first_count),
        token_at(tokens, position + 1 + first_count) == punctuator(PunctuatorKind::Question),
        reads_primary(tokens, position + 2 + first_count, second, second_count),
        token_at(tokens, position + 2 + first_count + second_count) == punctuator(
            PunctuatorKind::Colon,
        ),
        reads_primary(tokens, position + 3 + first_count + second_count, third, third_count),
        token_at(tokens, position + 3 + first_count + second_count + third_count) == punctuator(
            PunctuatorKind::RightRoundBracket,
        ),
    ensures
        reads_primary(
            tokens,
            position,
            ternary_view(first, second, third),
            first_count + second_count + third_count + 4,
        ),
{
    let node = ternary_view(first, second, third);
    let count = first_count + 1 + second_count + 1 + third_count;
    lemma_operand_of_primary(tokens, position + 1, first, first_count, 0);
    lemma_expression_of_primary(tokens, position + 2 + first_count, second, second_count);
    lemma_conditional_of_primary(
        tokens,
        position + 3 + first_count + second_count,
        third,
        third_count,
    );
    reveal(spec_conditional);
    reveal(spec_binary);
    reveal(spec_expression);
    assert(spec_conditional(tokens, position + 1) == Ok::<
        (ExpressionView, nat),
        (ParseError, nat),
    >((node, count)));
    lemma_assign_of_conditional(tokens, position + 1, node, count);
    lemma_expression_of_assign(tokens, position + 1, node, count);
    lemma_parenthesized(tokens, position, node, count);
}

/// A prefix operator and a primary expression, in round brackets, are read
/// as the node of the operator.
#[verifier::spinoff_prover]
pub proof fn lemma_prefix_case(
    tokens: Seq<TokenView>,
    position: int,
    kind: UnaryOperatorView,
    operand: ExpressionView,
    operand_count: nat,
)
    requires
        prefix_punctuator(kind) is Some,
        token_at(tokens, position) == punctuator(PunctuatorKind::LeftRoundBracket),
        token_at(tokens, position + 1) == punctuator(prefix_punctuator(kind).unwrap()),
        reads_primary(tokens, position + 2, operand, operand_count),
        token_at(tokens, position + 2 + operand_count) == punctuator(
            PunctuatorKind::RightRoundBracket,
        ),
    ensures
        reads_primary(tokens, position, unary_view(kind, operand), operand_count + 3),
{
    let node = unary_view(kind, operand);
    lemma_unary_of_primary(tokens, position + 2, operand, operand_count);
    reveal(spec_unary);
    assert(spec_unary(tokens, position + 1) == Ok::<(ExpressionView, nat), (ParseError, nat)>(
        (node, 1 + operand_count),
    ));
    lemma_binary_of_unary(tokens, position + 1, node, 1 + operand_count, 0);
    lemma_expression_of_binary(tokens, position + 1, node, 1 + operand_count, 0);
    lemma_parenthesized(tokens, position, node, 1 + operand_count);
}

/// A primary expression and arguments in round brackets, in round brackets,
/// are read as a call.
#[verifier::spinoff_prover]
pub proof fn lemma_call_case(
    tokens: Seq<TokenView>,
    position: int,
    operand: ExpressionView,
    operand_count: nat,
    arguments: Seq<ExpressionView>,
    arguments_count: nat,
)
    requires
        token_at(tokens, position) == punctuator(PunctuatorKind::LeftRoundBracket),
        reads_primary(tokens, position + 1, operand, operand_count),
        token_at(tokens, position + 1 + operand_count) == punctuator(
            PunctuatorKind::LeftRoundBracket,
        ),
        spec_arguments(tokens, position + 2 + operand_count) == Ok::<
            (Seq<ExpressionView>, nat),
            (ParseError, nat),
        >((arguments, arguments_count)),
        token_at(tokens, position + 2 + operand_count + arguments_count) == punctuator(
            PunctuatorKind::RightRoundBracket,
        ),
    ensures
        reads_primary(
            tokens,
            position,
            unary_view(UnaryOperatorView::FunctionCall(arguments), operand),
            operand_count + arguments_count + 3,
        ),
{
    let node = unary_view(UnaryOperatorView::FunctionCall(arguments), operand);
    let count = operand_count + 1 + arguments_count;
    reveal(spec_postfix);
    reveal(spec_postfix_rest);
    reveal(spec_primary);
    reveal(spec_arguments);
    reveal(spec_unary);
    assert(spec_postfix_rest(tokens, position + 2 + operand_count + arguments_count, node)
        == Ok::<(ExpressionView, nat), (ParseError, nat)>((node, 0)));
    assert(spec_postfix_rest(tokens, position + 1 + operand_count, operand) == Ok::<
        (ExpressionView, nat),
        (ParseError, nat),
    >((node, 1 + arguments_count)));
    assert(spec_postfix(tokens, position + 1) == Ok::<(ExpressionView, nat), (ParseError, nat)>(
        (node, count),
    ));
    assert(spec_unary(tokens, position + 1) == Ok::<(ExpressionView, nat), (ParseError, nat)>(
        (node, count),
    ));
    lemma_binary_of_unary(tokens, position + 1, node, count, 0);
    lemma_expression_of_binary(tokens, position + 1, node, count, 0);
    lemma_parenthesized(tokens, position, node, count);
}

/// Parsing the canonical form of a printable expression as a primary
/// expression gives the expression back, whatever stands around the form.
#[verifier::spinoff_prover]
pub proof fn lemma_canonical_primary(
    tokens: Seq<TokenView>,
    position: int,
    expression: ExpressionView,
)
    requires
        printable(expression),
        holds_at(tokens, position, canonical(expression)),
    ensures
        reads_primary(tokens, position, expression, canonical(expression).len()),
        canonical(expression).len() > 0,
    decreases expression, 1nat, 0nat,
{
    reveal(printable);
    reveal(canonical);
    let open = punctuator(PunctuatorKind::LeftRoundBracket);
    let close = punctuator(PunctuatorKind::RightRoundBracket);
    match expression {
        ExpressionView::TernaryOperator { kind, first, second, third } => {
            let one = canonical(*first);
            let two = canonical(*second);
            let three = canonical(*third);
            let question = punctuator(PunctuatorKind::Question);
            let colon = punctuator(PunctuatorKind::Colon);
            let at_one = position + 1;
            let at_two = at_one + one.len() + 1;
            let at_three = at_two + two.len() + 1;
            lemma_holds_first(
                tokens,
                position,
                open,
                one + (seq![question] + (two + (seq![colon] + (three + seq![close])))),
            );
            lemma_holds_split(
                tokens,
                at_one,
                one,
                seq![question] + (two + (seq![colon] + (three + seq![close]))),
            );
            lemma_holds_first(
                tokens,
                at_one + one.len(),
                question,
                two + (seq![colon] + (three + seq![close])),
            );
            lemma_holds_split(tokens, at_two, two, seq![colon] + (three + seq![close]));
            lemma_holds_first(tokens, at_two + two.len(), colon, three + seq![close]);
            lemma_holds_split(tokens, at_three, three, seq![close]);
            lemma_holds_one(tokens, at_three + three.len(), close);
            lemma_canonical_primary(tokens, at_one, *first);
            lemma_canonical_primary(tokens, at_two, *second);
            lemma_canonical_primary(tokens, at_three, *third);
            lemma_ternary_case(
                tokens,
                position,
                *first,
                one.len(),
                *second,
                two.len(),
                *third,
                three.len(),
            );
        },
        ExpressionView::BinaryOperator { kind, lhs, rhs } => {
            let left = canonical(*lhs);
            let right = canonical(*rhs);
            let operator = punctuator(binary_punctuator(kind).unwrap());
            let at_left = position + 1;
            let at_right = at_left + left.len() + 1;
            lemma_holds_first(
                tokens,
                position,
                open,
                left + (seq![operator] + (right + seq![close])),
            );
            lemma_holds_split(tokens, at_left, left, seq![operator] + (right + seq![close]));
            lemma_holds_first(tokens, at_left + left.len(), operator, right + seq![close]);
            lemma_holds_split(tokens, at_right, right, seq![close]);
            lemma_holds_one(tokens, at_right + right.len(), close);
            lemma_canonical_primary(tokens, at_left, *lhs);
            lemma_canonical_primary(tokens, at_right, *rhs);
            if kind == BinaryOperatorKind::Assign {
                lemma_assign_case(tokens, position, *lhs, left.len(), *rhs, right.len());
            } else if kind == BinaryOperatorKind::Comma {
                lemma_comma_case(tokens, position, *lhs, left.len(), *rhs, right.len());
            } else {
                lemma_binary_case(tokens, position, kind, *lhs, left.len(), *rhs, right.len());
            }
        },
        ExpressionView::UnaryOperator { kind, operand } => match kind {
            UnaryOperatorView::FunctionCall(arguments) => {
                let called = canonical(*operand);
                let list = canonical_arguments(arguments, 0);
                let at_called = position + 1;
                let at_list = at_called + called.len() + 1;
                lemma_holds_first(
                    tokens,
                    position,
                    open,
                    called + (seq![open] + (list + seq![close])),
                );
                lemma_holds_split(tokens, at_called, called, seq![open] + (list + seq![close]));
                lemma_holds_first(tokens, at_called + called.len(), open, list + seq![close]);
                lemma_holds_split(tokens, at_list, list, seq![close]);
                lemma_holds_one(tokens, at_list + list.len(), close);
                lemma_canonical_primary(tokens, at_called, *operand);
                lemma_canonical_arguments(tokens, at_list, arguments);
                lemma_call_case(
                    tokens,
                    position,
                    *operand,
                    called.len(),
                    arguments,
                    list.len(),
                );
            },
            _ => {
                let inner = canonical(*operand);
                let operator = punctuator(prefix_punctuator(kind).unwrap());
                assert(seq![open, operator] + (inner + seq![close]) =~= seq![open] + (seq![
                    operator,
                ] + (inner + seq![close])));
                lemma_holds_first(
                    tokens,
                    position,
                    open,
                    seq![operator] + (inner + seq![close]),
                );
                lemma_holds_first(tokens, position + 1, operator, inner + seq![close]);
                lemma_holds_split(tokens, position + 2, inner, seq![close]);
                lemma_holds_one(tokens, position + 2 + inner.len(), close);
                lemma_canonical_primary(tokens, position + 2, *operand);
                lemma_prefix_case(tokens, position, kind, *operand, inner.len());
            },
        },
        ExpressionView::Immediate(literal) => {
            reveal(spec_primary);
            lemma_holds_one(tokens, position, TokenView::Literal(literal));
        },
        ExpressionView::Identifier(name) => {
            reveal(spec_primary);
            lemma_holds_one(tokens, position, TokenView::Identifier(name));
        },
    }
}

/// Parsing the canonical form of the arguments of a call, after the opening
/// bracket of the call, gives the arguments back.
#[verifier::spinoff_prover]
pub proof fn lemma_canonical_arguments(
    tokens: Seq<TokenView>,
    position: int,
    arguments: Seq<ExpressionView>,
)
    requires
        printable_from(arguments, 0),
        holds_at(tokens, position, canonical_arguments(arguments, 0)),
    ensures
        spec_arguments(tokens, position) == Ok::<(Seq<ExpressionView>, nat), (ParseError, nat)>(
            (arguments, canonical_arguments(arguments, 0).len()),
        ),
    decreases arguments, 0nat, arguments.len() + 1,
{
    reveal(spec_arguments);
    reveal(spec_argument_list);
    reveal(canonical_arguments);
    reveal(printable_from);
    reveal(printable);
    if arguments.len() == 0 {
        lemma_holds_one(tokens, position, punctuator(PunctuatorKind::RightRoundBracket));
        assert(arguments =~= Seq::<ExpressionView>::empty());
    } else {
        let first = canonical(arguments[0]);
        let separator = punctuator(
            if 1 == arguments.len() {
                PunctuatorKind::RightRoundBracket
            } else {
                PunctuatorKind::Commma
            },
        );
        lemma_holds_split(
            tokens,
            position,
            first,
            seq![separator] + canonical_arguments(arguments, 1),
        );
        lemma_canonical_primary(tokens, position, arguments[0]);
        reveal(spec_primary);
        assert(!punctuator_at(tokens, position, PunctuatorKind::RightRoundBracket));
        lemma_canonical_argument_list(tokens, position, arguments, 0);
        assert(arguments.subrange(0, arguments.len() as int) =~= arguments);
    }
}

/// Parsing the canonical form of the arguments of a call from the one at
/// `from` on gives those arguments.
#[verifier::spinoff_prover]
pub proof fn lemma_canonical_argument_list(
    tokens: Seq<TokenView>,
    position: int,
    arguments: Seq<ExpressionView>,
    from: int,
)
    requires
        0 <= from < arguments.len(),
        printable_from(arguments, from),
        holds_at(tokens, position, canonical_arguments(arguments, from)),
    ensures
        spec_argument_list(tokens, position) == Ok::<
            (Seq<ExpressionView>, nat),
            (ParseError, nat),
        >(
            (
                arguments.subrange(from, arguments.len() as int),
                canonical_arguments(arguments, from).len(),
            ),
        ),
    decreases arguments, 0nat, arguments.len() - from,
{
    reveal(spec_argument_list);
    reveal(canonical_arguments);
    reveal(printable_from);
    reveal(printable);
    let first = canonical(arguments[from]);
    let last = from + 1 == arguments.len();
    let separator = punctuator(
        if last {
            PunctuatorKind::RightRoundBracket
        } else {
            PunctuatorKind::Commma
        },
    );
    let rest = canonical_arguments(arguments, from + 1);
    lemma_holds_split(tokens, position, first, seq![separator] + rest);
    lemma_holds_first(tokens, position + first.len(), separator, rest);
    lemma_canonical_primary(tokens, position, arguments[from]);
    lemma_assign_of_primary(tokens, position, arguments[from], first.len());
    if last {
        assert(rest =~= Seq::<TokenView>::empty());
        assert(arguments.subrange(from, arguments.len() as int) =~= seq![arguments[from]]);
    } else {
        lemma_canonical_argument_list(tokens, position + first.len() + 1, arguments, from + 1);
        assert(seq![arguments[from]] + arguments.subrange(from + 1, arguments.len() as int)
            =~= arguments.subrange(from, arguments.len() as int));
    }
}

/// Re-parsing is the identity on canonical forms: the expression rule reads
/// the canonical form of a printable expression, with any tokens after it of
/// which the first ends an expression, as that expression, and reads all of
/// the form.
pub proof fn lemma_expression_round_trip(expression: ExpressionView, after: Seq<TokenView>)
    requires
        printable(expression),
        ends_expression(token_at(after, 0)),
    ensures
        spec_expression(canonical(expression) + after, 0) == Ok::<
            (ExpressionView, nat),
            (ParseError, nat),
        >((expression, canonical(expression).len())),
{
    let form = canonical(expression);
    let tokens = form + after;
    assert(tokens.subrange(0, form.len() as int) =~= form);
    assert(token_at(tokens, form.len() as int) == token_at(after, 0));
    lemma_canonical_primary(tokens, 0, expression);
    lemma_expression_of_primary(tokens, 0, expression, form.len());
}

} // verus!
