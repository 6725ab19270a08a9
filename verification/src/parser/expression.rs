//! Expressions: the syntax tree, the grammar as a function on token
//! sequences, and the parser that computes it.

use crate::parser::util::{
    agrees, agrees_list, consume_punctuator, consume_token, expect_literal, expect_punctuator,
    lemma_models, lemma_models_empty, lemma_models_push, lemma_prefixed_start,
    lemma_prefixed_step, models, prefixed, punctuator_at, shifted, token_at, tokens_left,
    ParseContext, ParseError, Parsed, TokenKind,
};
use crate::tokenizer::{Literal, LiteralView, PunctuatorKind, Token, TokenView};
use vstd::prelude::*;

verus! {

/// An expression. Each node owns its operands.
#[derive(Debug, PartialEq, Eq)]
pub enum ExpressionNode<'a> {
    TernaryOperator {
        kind: TernaryOperatorKind,
        first: Box<ExpressionNode<'a>>,
        second: Box<ExpressionNode<'a>>,
        third: Box<ExpressionNode<'a>>,
    },
    BinaryOperator { kind: BinaryOperatorKind, lhs: Box<ExpressionNode<'a>>, rhs: Box<ExpressionNode<'a>> },
    UnaryOperator { kind: UnaryOperatorKind<'a>, operand: Box<ExpressionNode<'a>> },
    Immediate(Immediate<'a>),
    Identifier(&'a str),
}

#[derive(Debug, Clone, Copy, PartialEq, Eq, Structural)]
pub enum TernaryOperatorKind {
    /// `first ? second : third`
    Conditional,
}

#[derive(Debug, Clone, Copy, PartialEq, Eq, Structural)]
pub enum BinaryOperatorKind {
    /// `+`
    Add,
    /// `-`
    Sub,
    /// `*`
    Mul,
    /// `/`
    Div,
    /// `%`
    Mod,
    /// `.`
    Dot,
    /// `<<`
    LeftShift,
    /// `>>`
    RightShift,
    /// `==`
    Equal,
    /// `!=`
    NotEqual,
    /// `<`
    LessThan,
    /// `<=`
    LessThanEqual,
    /// `&&`
    LogicalAnd,
    /// `||`
    LogicalOr,
    /// `&`
    BitwiseAnd,
    /// `^`
    BitwiseXor,
    /// `|`
    BitwiseOr,
    /// `=`
    Assign,
    /// `,`
    Comma,
}

/// An operator with one operand. A call holds its arguments and has the
/// called expression as its operand.
#[derive(Debug, PartialEq, Eq)]
pub enum UnaryOperatorKind<'a> {
    /// `!operand`
    LogicalNot,
    /// `~operand`
    BitwiseNot,
    /// `&operand`
    Reference,
    /// `*operand`
    Dereference,
    /// `(type-name)operand`
    Cast(Type),
    /// `operand(arguments)`
    FunctionCall(Vec<ExpressionNode<'a>>),
}

/// A literal constant as an expression.
#[derive(Debug, Clone, Copy, PartialEq, Eq)]
pub enum Immediate<'a> {
    String(&'a str),
    Char(char),
    Number(i32),
}

/// The type that a cast names.
#[derive(Debug, Clone, Copy, PartialEq, Eq, Structural)]
pub struct Type {}

/// The model of an [`ExpressionNode`].
pub enum ExpressionView {
    TernaryOperator {
        kind: TernaryOperatorKind,
        first: Box<ExpressionView>,
        second: Box<ExpressionView>,
        third: Box<ExpressionView>,
    },
    BinaryOperator { kind: BinaryOperatorKind, lhs: Box<ExpressionView>, rhs: Box<ExpressionView> },
    UnaryOperator { kind: UnaryOperatorView, operand: Box<ExpressionView> },
    Immediate(LiteralView),
    Identifier(Seq<char>),
}

/// The model of a [`UnaryOperatorKind`].
pub enum UnaryOperatorView {
    LogicalNot,
    BitwiseNot,
    Reference,
    Dereference,
    Cast(Type),
    FunctionCall(Seq<ExpressionView>),
}

impl<'a> View for Immediate<'a> {
    type V = LiteralView;

    open spec fn view(&self) -> LiteralView {
        match self {
            Immediate::String(text) => LiteralView::String(text@),
            Immediate::Char(c) => LiteralView::Char(*c),
            Immediate::Number(n) => LiteralView::Number(*n),
        }
    }
}

impl<'a> ExpressionNode<'a> {
    /// The model of the expression: the same tree over sequences.
    pub open spec fn model(self) -> ExpressionView
        decreases self,
    {
        match self {
            ExpressionNode::TernaryOperator { kind, first, second, third } => {
                ExpressionView::TernaryOperator {
                    kind,
                    first: Box::new(first.model()),
                    second: Box::new(second.model()),
                    third: Box::new(third.model()),
                }
            },
            ExpressionNode::BinaryOperator { kind, lhs, rhs } => ExpressionView::BinaryOperator {
                kind,
                lhs: Box::new(lhs.model()),
                rhs: Box::new(rhs.model()),
            },
            ExpressionNode::UnaryOperator { kind, operand } => ExpressionView::UnaryOperator {
                kind: kind.model(),
                operand: Box::new(operand.model()),
            },
            ExpressionNode::Immediate(value) => ExpressionView::Immediate(value@),
            ExpressionNode::Identifier(name) => ExpressionView::Identifier(name@),
        }
    }
}

impl<'a> UnaryOperatorKind<'a> {
    /// The model of the operator.
    pub open spec fn model(self) -> UnaryOperatorView
        decreases self,
    {
        match self {
            UnaryOperatorKind::LogicalNot => UnaryOperatorView::LogicalNot,
            UnaryOperatorKind::BitwiseNot => UnaryOperatorView::BitwiseNot,
            UnaryOperatorKind::Reference => UnaryOperatorView::Reference,
            UnaryOperatorKind::Dereference => UnaryOperatorView::Dereference,
            UnaryOperatorKind::Cast(target) => UnaryOperatorView::Cast(target),
            UnaryOperatorKind::FunctionCall(arguments) => UnaryOperatorView::FunctionCall(
                Seq::new(
                    arguments@.len(),
                    |index: int|
                        if 0 <= index < arguments@.len() {
                            arguments@[index].model()
                        } else {
                            arbitrary()
                        },
                ),
            ),
        }
    }
}

impl<'a> View for ExpressionNode<'a> {
    type V = ExpressionView;

    open spec fn view(&self) -> ExpressionView {
        self.model()
    }
}

impl<'a> DeepView for ExpressionNode<'a> {
    type V = ExpressionView;

    open spec fn deep_view(&self) -> ExpressionView {
        self.model()
    }
}

impl<'a> View for UnaryOperatorKind<'a> {
    type V = UnaryOperatorView;

    open spec fn view(&self) -> UnaryOperatorView {
        self.model()
    }
}

/// The number of levels of binary operators that associate to the left, from
/// `||`, which binds loosest, to `*`, `/` and `%`, which bind tightest.
pub const BINARY_LEVELS: u8 = 10;

/// The table of the binary operators that associate to the left: for a
/// punctuator its level, the node it builds, and whether the node has the
/// operands the other way round. `>` and `>=` build the nodes of `<` and `<=`
/// with the operands exchanged.
pub open spec fn spec_operator_row(punctuator: PunctuatorKind) -> Option<
    (nat, BinaryOperatorKind, bool),
> {
    match punctuator {
        PunctuatorKind::DoublePipelines => Some((0, BinaryOperatorKind::LogicalOr, false)),
        PunctuatorKind::DoubleAmpersands => Some((1, BinaryOperatorKind::LogicalAnd, false)),
        PunctuatorKind::Pipeline => Some((2, BinaryOperatorKind::BitwiseOr, false)),
        PunctuatorKind::Hat => Some((3, BinaryOperatorKind::BitwiseXor, false)),
        PunctuatorKind::Ampersand => Some((4, BinaryOperatorKind::BitwiseAnd, false)),
        PunctuatorKind::DoubleEquals => Some((5, BinaryOperatorKind::Equal, false)),
        PunctuatorKind::ExclamationEqual => Some((5, BinaryOperatorKind::NotEqual, false)),
        PunctuatorKind::LessThan => Some((6, BinaryOperatorKind::LessThan, false)),
        PunctuatorKind::GreaterThan => Some((6, BinaryOperatorKind::LessThan, true)),
        PunctuatorKind::LessThanEqual => Some((6, BinaryOperatorKind::LessThanEqual, false)),
        PunctuatorKind::GreaterThanEqual => Some((6, BinaryOperatorKind::LessThanEqual, true)),
        PunctuatorKind::DoubleLessThans => Some((7, BinaryOperatorKind::LeftShift, false)),
        PunctuatorKind::DoubleGreaterThans => Some((7, BinaryOperatorKind::RightShift, false)),
        PunctuatorKind::Plus => Some((8, BinaryOperatorKind::Add, false)),
        PunctuatorKind::Minus => Some((8, BinaryOperatorKind::Sub, false)),
        PunctuatorKind::Star => Some((9, BinaryOperatorKind::Mul, false)),
        PunctuatorKind::Slash => Some((9, BinaryOperatorKind::Div, false)),
        PunctuatorKind::Percent => Some((9, BinaryOperatorKind::Mod, false)),
        _ => None,
    }
}

/// The operator of level `level` that `token` is, if it is one: the node it
/// builds and whether the operands are exchanged.
pub open spec fn spec_binary_operator(level: nat, token: TokenView) -> Option<
    (BinaryOperatorKind, bool),
> {
    match token {
        TokenView::Punctuator(punctuator) => match spec_operator_row(punctuator) {
            Some((row_level, kind, exchanged)) => if row_level == level {
                Some((kind, exchanged))
            } else {
                None
            },
            None => None,
        },
        _ => None,
    }
}

/// The prefix operator that `token` is, if it is one.
pub open spec fn spec_prefix_operator(token: TokenView) -> Option<UnaryOperatorView> {
    match token {
        TokenView::Punctuator(punctuator) => match punctuator {
            PunctuatorKind::Exclamation => Some(UnaryOperatorView::LogicalNot),
            PunctuatorKind::Tilde => Some(UnaryOperatorView::BitwiseNot),
            PunctuatorKind::Ampersand => Some(UnaryOperatorView::Reference),
            PunctuatorKind::Star => Some(UnaryOperatorView::Dereference),
            _ => None,
        },
        _ => None,
    }
}

/// The node of a binary operator.
pub open spec fn binary_view(
    kind: BinaryOperatorKind,
    lhs: ExpressionView,
    rhs: ExpressionView,
) -> ExpressionView {
    ExpressionView::BinaryOperator { kind, lhs: Box::new(lhs), rhs: Box::new(rhs) }
}

/// The node that an operator of the table builds from the operand to its left
/// and the operand to its right.
pub open spec fn operator_view(
    kind: BinaryOperatorKind,
    exchanged: bool,
    left: ExpressionView,
    right: ExpressionView,
) -> ExpressionView {
    if exchanged {
        binary_view(kind, right, left)
    } else {
        binary_view(kind, left, right)
    }
}

/// The node of a unary operator.
pub open spec fn unary_view(kind: UnaryOperatorView, operand: ExpressionView) -> ExpressionView {
    ExpressionView::UnaryOperator { kind, operand: Box::new(operand) }
}

/// The node of the number one.
pub open spec fn one_view() -> ExpressionView {
    ExpressionView::Immediate(LiteralView::Number(1))
}

/// The place of a binary level in the order in which the rules of the
/// grammar call each other without reading a token.
pub open spec fn binary_rank(level: nat) -> nat {
    if level < BINARY_LEVELS {
        (34 - 2 * level) as nat
    } else {
        12
    }
}

/// `expression := assign (',' assign)*`, which groups to the left.
#[verifier::opaque]
pub open spec fn spec_expression(tokens: Seq<TokenView>, position: int) -> Parsed<ExpressionView>
    decreases tokens_left(tokens, position), 40nat,
{
    match spec_assign(tokens, position) {
        Err(error) => Err(error),
        Ok((first, count)) => shifted(
            count,
            spec_expression_rest(tokens, position + count, first),
        ),
    }
}

/// What follows the operands of a comma expression that were read into
/// `current`.
#[verifier::opaque]
pub open spec fn spec_expression_rest(
    tokens: Seq<TokenView>,
    position: int,
    current: ExpressionView,
) -> Parsed<ExpressionView>
    decreases tokens_left(tokens, position), 39nat,
{
    if punctuator_at(tokens, position, PunctuatorKind::Commma) {
        match spec_assign(tokens, position + 1) {
            Err((error, count)) => Err((error, 1 + count)),
            Ok((operand, count)) => shifted(
                1 + count,
                spec_expression_rest(
                    tokens,
                    position + 1 + count,
                    binary_view(BinaryOperatorKind::Comma, current, operand),
                ),
            ),
        }
    } else {
        Ok((current, 0))
    }
}

/// `assign := conditional ('=' assign)?`, which groups to the right.
#[verifier::opaque]
pub open spec fn spec_assign(tokens: Seq<TokenView>, position: int) -> Parsed<ExpressionView>
    decreases tokens_left(tokens, position), 38nat,
{
    match spec_conditional(tokens, position) {
        Err(error) => Err(error),
        Ok((target, count)) => if punctuator_at(tokens, position + count, PunctuatorKind::Equal) {
            match spec_assign(tokens, position + count + 1) {
                Err((error, more)) => Err((error, count + 1 + more)),
                Ok((value, more)) => Ok(
                    (binary_view(BinaryOperatorKind::Assign, target, value), count + 1 + more),
                ),
            }
        } else {
            Ok((target, count))
        },
    }
}

/// `conditional := logical-or ('?' expression ':' conditional)?`.
#[verifier::opaque]
pub open spec fn spec_conditional(tokens: Seq<TokenView>, position: int) -> Parsed<ExpressionView>
    decreases tokens_left(tokens, position), 36nat,
{
    match spec_binary(tokens, position, 0) {
        Err(error) => Err(error),
        Ok((first, count)) => if punctuator_at(tokens, position + count, PunctuatorKind::Question) {
            match spec_expression(tokens, position + count + 1) {
                Err((error, more)) => Err((error, count + 1 + more)),
                Ok((second, more)) => if punctuator_at(
                    tokens,
                    position + count + 1 + more,
                    PunctuatorKind::Colon,
                ) {
                    match spec_conditional(tokens, position + count + 1 + more + 1) {
                        Err((error, last)) => Err((error, count + 1 + more + 1 + last)),
                        Ok((third, last)) => Ok(
                            (
                                ExpressionView::TernaryOperator {
                                    kind: TernaryOperatorKind::Conditional,
                                    first: Box::new(first),
                                    second: Box::new(second),
                                    third: Box::new(third),
                                },
                                count + 1 + more + 1 + last,
                            ),
                        ),
                    }
                } else {
                    Err(
                        (
                            ParseError::ExpectedToken(TokenKind::Punctuator(PunctuatorKind::Colon)),
                            count + 1 + more,
                        ),
                    )
                },
            }
        } else {
            Ok((first, count))
        },
    }
}

/// A binary level: an operand of the next tighter level, then any number of
/// operators of this level, each with an operand of the next tighter level,
/// grouped to the left. The level after the last is the unary level.
#[verifier::opaque]
pub open spec fn spec_binary(tokens: Seq<TokenView>, position: int, level: nat) -> Parsed<
    ExpressionView,
>
    decreases tokens_left(tokens, position), binary_rank(level),
{
    if level >= BINARY_LEVELS {
        spec_unary(tokens, position)
    } else {
        match spec_binary(tokens, position, level + 1) {
            Err(error) => Err(error),
            Ok((first, count)) => shifted(
                count,
                spec_binary_rest(tokens, position + count, level, first),
            ),
        }
    }
}

/// What follows the operands of level `level` that were read into `current`.
#[verifier::opaque]
pub open spec fn spec_binary_rest(
    tokens: Seq<TokenView>,
    position: int,
    level: nat,
    current: ExpressionView,
) -> Parsed<ExpressionView>
    decreases tokens_left(tokens, position), (binary_rank(level) - 1) as nat,
{
    match spec_binary_operator(level, token_at(tokens, position)) {
        Some((kind, exchanged)) => if level < BINARY_LEVELS {
            match spec_binary(tokens, position + 1, level + 1) {
                Err((error, count)) => Err((error, 1 + count)),
                Ok((operand, count)) => shifted(
                    1 + count,
                    spec_binary_rest(
                        tokens,
                        position + 1 + count,
                        level,
                        operator_view(kind, exchanged, current, operand),
                    ),
                ),
            }
        } else {
            Ok((current, 0))
        },
        None => Ok((current, 0)),
    }
}

/// `unary := ('!' | '~' | '&' | '*') unary | postfix`.
#[verifier::opaque]
pub open spec fn spec_unary(tokens: Seq<TokenView>, position: int) -> Parsed<ExpressionView>
    decreases tokens_left(tokens, position), 10nat,
{
    match spec_prefix_operator(token_at(tokens, position)) {
        Some(kind) => match spec_unary(tokens, position + 1) {
            Err((error, count)) => Err((error, 1 + count)),
            Ok((operand, count)) => Ok((unary_view(kind, operand), 1 + count)),
        },
        None => spec_postfix(tokens, position),
    }
}

/// `postfix := primary (call | subscript | '++' | '--')*`.
#[verifier::opaque]
pub open spec fn spec_postfix(tokens: Seq<TokenView>, position: int) -> Parsed<ExpressionView>
    decreases tokens_left(tokens, position), 9nat,
{
    match spec_primary(tokens, position) {
        Err(error) => Err(error),
        Ok((first, count)) => shifted(count, spec_postfix_rest(tokens, position + count, first)),
    }
}

/// What follows the postfix expression that was read into `current`.
///
/// A call wraps `current` with its arguments. A subscript is the sum of
/// `current` and the index. `++` and `--` assign to `current` the sum, or the
/// difference, of `current` and one.
#[verifier::opaque]
pub open spec fn spec_postfix_rest(
    tokens: Seq<TokenView>,
    position: int,
    current: ExpressionView,
) -> Parsed<ExpressionView>
    decreases tokens_left(tokens, position), 8nat,
{
    if punctuator_at(tokens, position, PunctuatorKind::LeftRoundBracket) {
        match spec_arguments(tokens, position + 1) {
            Err((error, count)) => Err((error, 1 + count)),
            Ok((arguments, count)) => shifted(
                1 + count,
                spec_postfix_rest(
                    tokens,
                    position + 1 + count,
                    unary_view(UnaryOperatorView::FunctionCall(arguments), current),
                ),
            ),
        }
    } else if punctuator_at(tokens, position, PunctuatorKind::LeftSquareBracket) {
        match spec_expression(tokens, position + 1) {
            Err((error, count)) => Err((error, 1 + count)),
            Ok((index, count)) => if punctuator_at(
                tokens,
                position + 1 + count,
                PunctuatorKind::RightSquareBracket,
            ) {
                shifted(
                    1 + count + 1,
                    spec_postfix_rest(
                        tokens,
                        position + 1 + count + 1,
                        binary_view(BinaryOperatorKind::Add, current, index),
                    ),
                )
            } else {
                Err(
                    (
                        ParseError::ExpectedToken(
                            TokenKind::Punctuator(PunctuatorKind::RightSquareBracket),
                        ),
                        1 + count,
                    ),
                )
            },
        }
    } else if punctuator_at(tokens, position, PunctuatorKind::DoublePluses) {
        shifted(
            1,
            spec_postfix_rest(
                tokens,
                position + 1,
                binary_view(
                    BinaryOperatorKind::Assign,
                    current,
                    binary_view(BinaryOperatorKind::Add, current, one_view()),
                ),
            ),
        )
    } else if punctuator_at(tokens, position, PunctuatorKind::DoubleMinuses) {
        shifted(
            1,
            spec_postfix_rest(
                tokens,
                position + 1,
                binary_view(
                    BinaryOperatorKind::Assign,
                    current,
                    binary_view(BinaryOperatorKind::Sub, current, one_view()),
                ),
            ),
        )
    } else {
        Ok((current, 0))
    }
}

/// The arguments of a call, from the token after its opening bracket up to
/// and with its closing bracket: nothing, or `assign (',' assign)*`.
#[verifier::opaque]
pub open spec fn spec_arguments(tokens: Seq<TokenView>, position: int) -> Parsed<
    Seq<ExpressionView>,
>
    decreases tokens_left(tokens, position), 42nat,
{
    if punctuator_at(tokens, position, PunctuatorKind::RightRoundBracket) {
        Ok((Seq::empty(), 1))
    } else {
        spec_argument_list(tokens, position)
    }
}

/// `assign (',' assign)* ')'`: the arguments of a call that has some, up to
/// and with the closing bracket.
#[verifier::opaque]
pub open spec fn spec_argument_list(tokens: Seq<TokenView>, position: int) -> Parsed<
    Seq<ExpressionView>,
>
    decreases tokens_left(tokens, position), 41nat,
{
    match spec_assign(tokens, position) {
        Err(error) => Err(error),
        Ok((argument, count)) => if punctuator_at(
            tokens,
            position + count,
            PunctuatorKind::Commma,
        ) {
            prefixed(
                seq![argument],
                count + 1,
                spec_argument_list(tokens, position + count + 1),
            )
        } else if punctuator_at(tokens, position + count, PunctuatorKind::RightRoundBracket) {
            Ok((seq![argument], count + 1))
        } else {
            Err(
                (
                    ParseError::ExpectedToken(
                        TokenKind::Punctuator(PunctuatorKind::RightRoundBracket),
                    ),
                    count,
                ),
            )
        },
    }
}

/// `primary := '(' expression ')' | literal | identifier`.
#[verifier::opaque]
pub open spec fn spec_primary(tokens: Seq<TokenView>, position: int) -> Parsed<ExpressionView>
    decreases tokens_left(tokens, position), 7nat,
{
    if punctuator_at(tokens, position, PunctuatorKind::LeftRoundBracket) {
        match spec_expression(tokens, position + 1) {
            Err((error, count)) => Err((error, 1 + count)),
            Ok((inner, count)) => if punctuator_at(
                tokens,
                position + 1 + count,
                PunctuatorKind::RightRoundBracket,
            ) {
                Ok((inner, 1 + count + 1))
            } else {
                Err(
                    (
                        ParseError::ExpectedToken(
                            TokenKind::Punctuator(PunctuatorKind::RightRoundBracket),
                        ),
                        1 + count,
                    ),
                )
            },
        }
    } else {
        match token_at(tokens, position) {
            TokenView::Literal(literal) => Ok((ExpressionView::Immediate(literal), 1)),
            TokenView::Identifier(name) => Ok((ExpressionView::Identifier(name), 1)),
            _ => Err((ParseError::ExpectedExpression, 0)),
        }
    }
}

/// `literal`: a literal token as an expression.
pub open spec fn spec_literal_expression(tokens: Seq<TokenView>, position: int) -> Parsed<
    ExpressionView,
> {
    match token_at(tokens, position) {
        TokenView::Literal(literal) => Ok((ExpressionView::Immediate(literal), 1)),
        _ => Err((ParseError::ExpectedLiteral, 0)),
    }
}

/// The model of a call is the call of the models of its arguments.
pub proof fn lemma_call_model(arguments: Vec<ExpressionNode<'_>>)
    ensures
        UnaryOperatorKind::FunctionCall(arguments).model() == UnaryOperatorView::FunctionCall(
            models(arguments@),
        ),
{
    lemma_models(arguments@);
    assert(UnaryOperatorKind::FunctionCall(arguments).model()->FunctionCall_0 =~= models(
        arguments@,
    ));
}

impl<'a> ExpressionNode<'a> {
    /// A copy of the expression.
    pub fn duplicate(&self) -> (copy: ExpressionNode<'a>)
        ensures
            copy@ == self@,
        decreases self,
    {
        match self {
            ExpressionNode::TernaryOperator { kind, first, second, third } => {
                ExpressionNode::TernaryOperator {
                    kind: *kind,
                    first: Box::new(first.duplicate()),
                    second: Box::new(second.duplicate()),
                    third: Box::new(third.duplicate()),
                }
            },
            ExpressionNode::BinaryOperator { kind, lhs, rhs } => ExpressionNode::BinaryOperator {
                kind: *kind,
                lhs: Box::new(lhs.duplicate()),
                rhs: Box::new(rhs.duplicate()),
            },
            ExpressionNode::UnaryOperator { kind, operand } => {
                let kind_copy = match kind {
                    UnaryOperatorKind::LogicalNot => UnaryOperatorKind::LogicalNot,
                    UnaryOperatorKind::BitwiseNot => UnaryOperatorKind::BitwiseNot,
                    UnaryOperatorKind::Reference => UnaryOperatorKind::Reference,
                    UnaryOperatorKind::Dereference => UnaryOperatorKind::Dereference,
                    UnaryOperatorKind::Cast(target) => UnaryOperatorKind::Cast(*target),
                    UnaryOperatorKind::FunctionCall(arguments) => {
                        let copies = Self::duplicate_all(arguments);
                        proof {
                            lemma_call_model(copies);
                            lemma_call_model(*arguments);
                        }
                        UnaryOperatorKind::FunctionCall(copies)
                    },
                };
                ExpressionNode::UnaryOperator { kind: kind_copy, operand: Box::new(operand.duplicate()) }
            },
            ExpressionNode::Immediate(value) => ExpressionNode::Immediate(*value),
            ExpressionNode::Identifier(name) => ExpressionNode::Identifier(*name),
        }
    }

    /// Copies of the expressions, in their order.
    pub fn duplicate_all(nodes: &Vec<ExpressionNode<'a>>) -> (copies: Vec<ExpressionNode<'a>>)
        ensures
            models(copies@) == models(nodes@),
        decreases nodes,
    {
        let mut copies: Vec<ExpressionNode<'a>> = Vec::new();
        let mut index: usize = 0;
        while index < nodes.len()
            invariant
                index <= nodes.len(),
                copies@.len() == index,
                forall|at: int| 0 <= at < index ==> (#[trigger] copies@[at])@ == nodes@[at]@,
            decreases nodes.len() - index,
        {
            proof {
                assert(decreases_to!(nodes => nodes@));
                assert(decreases_to!(nodes@ => nodes@[index as int]));
            }
            let copy = nodes[index].duplicate();
            copies.push(copy);
            index = index + 1;
        }
        proof {
            lemma_models(copies@);
            lemma_models(nodes@);
            assert(models(copies@) =~= models(nodes@));
        }
        copies
    }
}

/// The row of the operator table for `punctuator`.
pub fn operator_row(punctuator: PunctuatorKind) -> (row: Option<(u8, BinaryOperatorKind, bool)>)
    ensures
        match row {
            Some((level, kind, exchanged)) => spec_operator_row(punctuator) == Some(
                (level as nat, kind, exchanged),
            ) && level < BINARY_LEVELS,
            None => spec_operator_row(punctuator) is None,
        },
{
    match punctuator {
        PunctuatorKind::DoublePipelines => Some((0, BinaryOperatorKind::LogicalOr, false)),
        PunctuatorKind::DoubleAmpersands => Some((1, BinaryOperatorKind::LogicalAnd, false)),
        PunctuatorKind::Pipeline => Some((2, BinaryOperatorKind::BitwiseOr, false)),
        PunctuatorKind::Hat => Some((3, BinaryOperatorKind::BitwiseXor, false)),
        PunctuatorKind::Ampersand => Some((4, BinaryOperatorKind::BitwiseAnd, false)),
        PunctuatorKind::DoubleEquals => Some((5, BinaryOperatorKind::Equal, false)),
        PunctuatorKind::ExclamationEqual => Some((5, BinaryOperatorKind::NotEqual, false)),
        PunctuatorKind::LessThan => Some((6, BinaryOperatorKind::LessThan, false)),
        PunctuatorKind::GreaterThan => Some((6, BinaryOperatorKind::LessThan, true)),
        PunctuatorKind::LessThanEqual => Some((6, BinaryOperatorKind::LessThanEqual, false)),
        PunctuatorKind::GreaterThanEqual => Some((6, BinaryOperatorKind::LessThanEqual, true)),
        PunctuatorKind::DoubleLessThans => Some((7, BinaryOperatorKind::LeftShift, false)),
        PunctuatorKind::DoubleGreaterThans => Some((7, BinaryOperatorKind::RightShift, false)),
        PunctuatorKind::Plus => Some((8, BinaryOperatorKind::Add, false)),
        PunctuatorKind::Minus => Some((8, BinaryOperatorKind::Sub, false)),
        PunctuatorKind::Star => Some((9, BinaryOperatorKind::Mul, false)),
        PunctuatorKind::Slash => Some((9, BinaryOperatorKind::Div, false)),
        PunctuatorKind::Percent => Some((9, BinaryOperatorKind::Mod, false)),
        _ => None,
    }
}

/// The operator of level `level` that `token` is, if it is one.
pub fn binary_operator(level: u8, token: Token) -> (operator: Option<(BinaryOperatorKind, bool)>)
    ensures
        operator == spec_binary_operator(level as nat, token@),
{
    match token {
        Token::Punctuator(punctuator) => match operator_row(punctuator) {
            Some((row_level, kind, exchanged)) => if row_level == level {
                Some((kind, exchanged))
            } else {
                None
            },
            None => None,
        },
        _ => None,
    }
}

/// The prefix operator that `token` is, if it is one.
pub fn prefix_operator<'b>(token: Token) -> (operator: Option<UnaryOperatorKind<'b>>)
    ensures
        match operator {
            Some(kind) => spec_prefix_operator(token@) == Some(kind@),
            None => spec_prefix_operator(token@) is None,
        },
{
    match token {
        Token::Punctuator(punctuator) => match punctuator {
            PunctuatorKind::Exclamation => Some(UnaryOperatorKind::LogicalNot),
            PunctuatorKind::Tilde => Some(UnaryOperatorKind::BitwiseNot),
            PunctuatorKind::Ampersand => Some(UnaryOperatorKind::Reference),
            PunctuatorKind::Star => Some(UnaryOperatorKind::Dereference),
            _ => None,
        },
        _ => None,
    }
}

/// The node of a binary operator.
fn binary_node<'b>(kind: BinaryOperatorKind, lhs: ExpressionNode<'b>, rhs: ExpressionNode<'b>) -> (node:
    ExpressionNode<'b>)
    ensures
        node@ == binary_view(kind, lhs@, rhs@),
{
    ExpressionNode::BinaryOperator { kind, lhs: Box::new(lhs), rhs: Box::new(rhs) }
}

/// Parses an expression: assignments with commas between them, grouped to the
/// left.
#[verifier::spinoff_prover]
pub fn expression<'a, 'b>(context: &'a mut ParseContext<'b>) -> (result: Result<
    ExpressionNode<'b>,
    ParseError,
>)
    ensures
        agrees(
            result,
            old(context)@,
            final(context)@,
            spec_expression(old(context)@.tokens, old(context)@.position as int),
        ),
    decreases tokens_left(old(context)@.tokens, old(context)@.position as int), 40nat,
{
    reveal(spec_expression);
    reveal(spec_expression_rest);
    reveal(spec_assign);
    let ghost tokens = context@.tokens;
    let ghost start = context@.position as int;
    let mut current = match assign(context) {
        Ok(node) => node,
        Err(error) => {
            return Err(error);
        },
    };
    loop
        invariant_except_break
            spec_expression(tokens, start) == shifted(
                (context@.position - start) as nat,
                spec_expression_rest(tokens, context@.position as int, current@),
            ),
        invariant
            context@.tokens == tokens,
            context@.position >= start,
            tokens == old(context)@.tokens,
            start == old(context)@.position,
        ensures
            spec_expression(tokens, start) == Ok::<(ExpressionView, nat), (ParseError, nat)>(
                (current@, (context@.position - start) as nat),
            ),
        decreases tokens_left(tokens, context@.position as int),
    {
        reveal(spec_expression);
        reveal(spec_expression_rest);
        reveal(spec_assign);
        if consume_punctuator(context, PunctuatorKind::Commma) {
            let operand = match assign(context) {
                Ok(node) => node,
                Err(error) => {
                    return Err(error);
                },
            };
            current = binary_node(BinaryOperatorKind::Comma, current, operand);
        } else {
            break ;
        }
    }
    Ok(current)
}

/// Parses an assignment: a conditional expression, or one that is assigned
/// the assignment that follows `=`.
#[verifier::spinoff_prover]
pub fn assign<'a, 'b>(context: &'a mut ParseContext<'b>) -> (result: Result<
    ExpressionNode<'b>,
    ParseError,
>)
    ensures
        agrees(
            result,
            old(context)@,
            final(context)@,
            spec_assign(old(context)@.tokens, old(context)@.position as int),
        ),
    decreases tokens_left(old(context)@.tokens, old(context)@.position as int), 38nat,
{
    reveal(spec_assign);
    reveal(spec_conditional);
    let target = match conditional(context) {
        Ok(node) => node,
        Err(error) => {
            return Err(error);
        },
    };
    if consume_punctuator(context, PunctuatorKind::Equal) {
        let value = match assign(context) {
            Ok(node) => node,
            Err(error) => {
                return Err(error);
            },
        };
        Ok(binary_node(BinaryOperatorKind::Assign, target, value))
    } else {
        Ok(target)
    }
}

/// Parses a conditional expression: a condition, or a condition with the two
/// expressions it chooses between.
#[verifier::spinoff_prover]
pub fn conditional<'a, 'b>(context: &'a mut ParseContext<'b>) -> (result: Result<
    ExpressionNode<'b>,
    ParseError,
>)
    ensures
        agrees(
            result,
            old(context)@,
            final(context)@,
            spec_conditional(old(context)@.tokens, old(context)@.position as int),
        ),
    decreases tokens_left(old(context)@.tokens, old(context)@.position as int), 36nat,
{
    reveal(spec_conditional);
    reveal(spec_binary);
    reveal(spec_expression);
    let condition = match binary(context, 0) {
        Ok(node) => node,
        Err(error) => {
            return Err(error);
        },
    };
    if consume_punctuator(context, PunctuatorKind::Question) {
        let second = match expression(context) {
            Ok(node) => node,
            Err(error) => {
                return Err(error);
            },
        };
        match expect_punctuator(context, PunctuatorKind::Colon) {
            Ok(_) => {},
            Err(error) => {
                return Err(error);
            },
        }
        let third = match conditional(context) {
            Ok(node) => node,
            Err(error) => {
                return Err(error);
            },
        };
        Ok(
            ExpressionNode::TernaryOperator {
                kind: TernaryOperatorKind::Conditional,
                first: Box::new(condition),
                second: Box::new(second),
                third: Box::new(third),
            },
        )
    } else {
        Ok(condition)
    }
}

/// Parses one of the binary levels that group to the left, by the operator
/// table; the level after the last is the unary level.
#[verifier::spinoff_prover]
pub fn binary<'a, 'b>(context: &'a mut ParseContext<'b>, level: u8) -> (result: Result<
    ExpressionNode<'b>,
    ParseError,
>)
    ensures
        agrees(
            result,
            old(context)@,
            final(context)@,
            spec_binary(old(context)@.tokens, old(context)@.position as int, level as nat),
        ),
    decreases tokens_left(old(context)@.tokens, old(context)@.position as int), binary_rank(
        level as nat,
    ),
{
    reveal(spec_binary);
    reveal(spec_binary_rest);
    reveal(spec_unary);
    if level >= BINARY_LEVELS {
        return unary(context);
    }
    let ghost tokens = context@.tokens;
    let ghost start = context@.position as int;
    let mut current = match binary(context, level + 1) {
        Ok(node) => node,
        Err(error) => {
            return Err(error);
        },
    };
    loop
        invariant_except_break
            spec_binary(tokens, start, level as nat) == shifted(
                (context@.position - start) as nat,
                spec_binary_rest(tokens, context@.position as int, level as nat, current@),
            ),
        invariant
            level < BINARY_LEVELS,
            context@.tokens == tokens,
            context@.position >= start,
            tokens == old(context)@.tokens,
            start == old(context)@.position,
        ensures
            spec_binary(tokens, start, level as nat) == Ok::<
                (ExpressionView, nat),
                (ParseError, nat),
            >((current@, (context@.position - start) as nat)),
        decreases tokens_left(tokens, context@.position as int),
    {
        reveal(spec_binary);
        reveal(spec_binary_rest);
        reveal(spec_unary);
        match binary_operator(level, context.peek(0)) {
            Some((kind, exchanged)) => {
                consume_token(context);
                let operand = match binary(context, level + 1) {
                    Ok(node) => node,
                    Err(error) => {
                        return Err(error);
                    },
                };
                current = if exchanged {
                    binary_node(kind, operand, current)
                } else {
                    binary_node(kind, current, operand)
                };
            },
            None => {
                break ;
            },
        }
    }
    Ok(current)
}

/// Parses operands of `&&` with `||` between them.
pub fn logical_or<'a, 'b>(context: &'a mut ParseContext<'b>) -> (result: Result<
    ExpressionNode<'b>,
    ParseError,
>)
    ensures
        agrees(
            result,
            old(context)@,
            final(context)@,
            spec_binary(old(context)@.tokens, old(context)@.position as int, 0),
        ),
{
    binary(context, 0)
}

/// Parses operands of `|` with `&&` between them.
pub fn logical_and<'a, 'b>(context: &'a mut ParseContext<'b>) -> (result: Result<
    ExpressionNode<'b>,
    ParseError,
>)
    ensures
        agrees(
            result,
            old(context)@,
            final(context)@,
            spec_binary(old(context)@.tokens, old(context)@.position as int, 1),
        ),
{
    binary(context, 1)
}

/// Parses operands of `^` with `|` between them.
pub fn bitwise_inclusive_or<'a, 'b>(context: &'a mut ParseContext<'b>) -> (result: Result<
    ExpressionNode<'b>,
    ParseError,
>)
    ensures
        agrees(
            result,
            old(context)@,
            final(context)@,
            spec_binary(old(context)@.tokens, old(context)@.position as int, 2),
        ),
{
    binary(context, 2)
}

/// Parses operands of `&` with `^` between them.
pub fn bitwise_exclusive_or<'a, 'b>(context: &'a mut ParseContext<'b>) -> (result: Result<
    ExpressionNode<'b>,
    ParseError,
>)
    ensures
        agrees(
            result,
            old(context)@,
            final(context)@,
            spec_binary(old(context)@.tokens, old(context)@.position as int, 3),
        ),
{
    binary(context, 3)
}

/// Parses equalities with `&` between them.
pub fn bitwise_and<'a, 'b>(context: &'a mut ParseContext<'b>) -> (result: Result<
    ExpressionNode<'b>,
    ParseError,
>)
    ensures
        agrees(
            result,
            old(context)@,
            final(context)@,
            spec_binary(old(context)@.tokens, old(context)@.position as int, 4),
        ),
{
    binary(context, 4)
}

/// Parses comparisons with `==` or `!=` between them.
pub fn equality<'a, 'b>(context: &'a mut ParseContext<'b>) -> (result: Result<
    ExpressionNode<'b>,
    ParseError,
>)
    ensures
        agrees(
            result,
            old(context)@,
            final(context)@,
            spec_binary(old(context)@.tokens, old(context)@.position as int, 5),
        ),
{
    binary(context, 5)
}

/// Parses shifts with `<`, `>`, `<=` or `>=` between them. `a > b` gives the
/// node of `b < a`, and `a >= b` the node of `b <= a`.
pub fn relational<'a, 'b>(context: &'a mut ParseContext<'b>) -> (result: Result<
    ExpressionNode<'b>,
    ParseError,
>)
    ensures
        agrees(
            result,
            old(context)@,
            final(context)@,
            spec_binary(old(context)@.tokens, old(context)@.position as int, 6),
        ),
{
    binary(context, 6)
}

/// Parses sums with `<<` or `>>` between them.
pub fn shift<'a, 'b>(context: &'a mut ParseContext<'b>) -> (result: Result<
    ExpressionNode<'b>,
    ParseError,
>)
    ensures
        agrees(
            result,
            old(context)@,
            final(context)@,
            spec_binary(old(context)@.tokens, old(context)@.position as int, 7),
        ),
{
    binary(context, 7)
}

/// Parses products with `+` or `-` between them.
pub fn add<'a, 'b>(context: &'a mut ParseContext<'b>) -> (result: Result<
    ExpressionNode<'b>,
    ParseError,
>)
    ensures
        agrees(
            result,
            old(context)@,
            final(context)@,
            spec_binary(old(context)@.tokens, old(context)@.position as int, 8),
        ),
{
    binary(context, 8)
}

/// Parses unary expressions with `*`, `/` or `%` between them.
pub fn multiply<'a, 'b>(context: &'a mut ParseContext<'b>) -> (result: Result<
    ExpressionNode<'b>,
    ParseError,
>)
    ensures
        agrees(
            result,
            old(context)@,
            final(context)@,
            spec_binary(old(context)@.tokens, old(context)@.position as int, 9),
        ),
{
    binary(context, 9)
}

/// Parses a unary expression: prefix operators, the innermost last, around a
/// postfix expression.
#[verifier::spinoff_prover]
pub fn unary<'a, 'b>(context: &'a mut ParseContext<'b>) -> (result: Result<
    ExpressionNode<'b>,
    ParseError,
>)
    ensures
        agrees(
            result,
            old(context)@,
            final(context)@,
            spec_unary(old(context)@.tokens, old(context)@.position as int),
        ),
    decreases tokens_left(old(context)@.tokens, old(context)@.position as int), 10nat,
{
    reveal(spec_unary);
    reveal(spec_postfix);
    match prefix_operator(context.peek(0)) {
        Some(kind) => {
            consume_token(context);
            let operand = match unary(context) {
                Ok(node) => node,
                Err(error) => {
                    return Err(error);
                },
            };
            Ok(ExpressionNode::UnaryOperator { kind, operand: Box::new(operand) })
        },
        None => postfix(context),
    }
}

/// Parses a postfix expression: a primary expression and, from left to right,
/// the calls, subscripts, `++` and `--` that follow it.
#[verifier::spinoff_prover]
pub fn postfix<'a, 'b>(context: &'a mut ParseContext<'b>) -> (result: Result<
    ExpressionNode<'b>,
    ParseError,
>)
    ensures
        agrees(
            result,
            old(context)@,
            final(context)@,
            spec_postfix(old(context)@.tokens, old(context)@.position as int),
        ),
    decreases tokens_left(old(context)@.tokens, old(context)@.position as int), 9nat,
{
    reveal(spec_postfix);
    reveal(spec_postfix_rest);
    reveal(spec_primary);
    reveal(spec_arguments);
    reveal(spec_expression);
    let ghost tokens = context@.tokens;
    let ghost start = context@.position as int;
    let mut current = match primary(context) {
        Ok(node) => node,
        Err(error) => {
            return Err(error);
        },
    };
    loop
        invariant_except_break
            spec_postfix(tokens, start) == shifted(
                (context@.position - start) as nat,
                spec_postfix_rest(tokens, context@.position as int, current@),
            ),
        invariant
            context@.tokens == tokens,
            context@.position >= start,
            tokens == old(context)@.tokens,
            start == old(context)@.position,
        ensures
            spec_postfix(tokens, start) == Ok::<(ExpressionView, nat), (ParseError, nat)>(
                (current@, (context@.position - start) as nat),
            ),
        decreases tokens_left(tokens, context@.position as int),
    {
        reveal(spec_postfix);
        reveal(spec_postfix_rest);
        reveal(spec_primary);
        reveal(spec_arguments);
        reveal(spec_expression);
        if consume_punctuator(context, PunctuatorKind::LeftRoundBracket) {
            let parameters = match arguments(context) {
                Ok(nodes) => nodes,
                Err(error) => {
                    return Err(error);
                },
            };
            proof {
                lemma_call_model(parameters);
            }
            current = ExpressionNode::UnaryOperator {
                kind: UnaryOperatorKind::FunctionCall(parameters),
                operand: Box::new(current),
            };
        } else if consume_punctuator(context, PunctuatorKind::LeftSquareBracket) {
            let index = match expression(context) {
                Ok(node) => node,
                Err(error) => {
                    return Err(error);
                },
            };
            match expect_punctuator(context, PunctuatorKind::RightSquareBracket) {
                Ok(_) => {},
                Err(error) => {
                    return Err(error);
                },
            }
            current = binary_node(BinaryOperatorKind::Add, current, index);
        } else if consume_punctuator(context, PunctuatorKind::DoublePluses) {
            let copy = current.duplicate();
            let sum = binary_node(
                BinaryOperatorKind::Add,
                copy,
                ExpressionNode::Immediate(Immediate::Number(1)),
            );
            current = binary_node(BinaryOperatorKind::Assign, current, sum);
        } else if consume_punctuator(context, PunctuatorKind::DoubleMinuses) {
            let copy = current.duplicate();
            let difference = binary_node(
                BinaryOperatorKind::Sub,
                copy,
                ExpressionNode::Immediate(Immediate::Number(1)),
            );
            current = binary_node(BinaryOperatorKind::Assign, current, difference);
        } else {
            break ;
        }
    }
    Ok(current)
}

/// Parses the arguments of a call, after its opening bracket, up to and with
/// its closing bracket.
#[verifier::spinoff_prover]
#[verifier::rlimit(40)]
pub fn arguments<'a, 'b>(context: &'a mut ParseContext<'b>) -> (result: Result<
    Vec<ExpressionNode<'b>>,
    ParseError,
>)
    ensures
        agrees_list(
            result,
            old(context)@,
            final(context)@,
            spec_arguments(old(context)@.tokens, old(context)@.position as int),
        ),
    decreases tokens_left(old(context)@.tokens, old(context)@.position as int), 42nat,
{
    reveal(spec_arguments);
    reveal(spec_argument_list);
    reveal(spec_assign);
    let ghost tokens = context@.tokens;
    let ghost start = context@.position as int;
    let ghost goal = spec_arguments(tokens, start);
    let mut parameters: Vec<ExpressionNode<'b>> = Vec::new();
    proof {
        lemma_models_empty(parameters@);
    }
    if consume_punctuator(context, PunctuatorKind::RightRoundBracket) {
        return Ok(parameters);
    }
    proof {
        lemma_prefixed_start(spec_argument_list(tokens, start));
    }
    loop
        invariant
            context@.tokens == tokens,
            context@.position >= start,
            tokens == old(context)@.tokens,
            start == old(context)@.position,
            goal == spec_arguments(tokens, start),
            goal == prefixed(
                models(parameters@),
                (context@.position - start) as nat,
                spec_argument_list(tokens, context@.position as int),
            ),
        decreases tokens_left(tokens, context@.position as int),
    {
        reveal(spec_arguments);
        reveal(spec_argument_list);
        reveal(spec_assign);
        let ghost position = context@.position as int;
        let ghost before = models(parameters@);
        let argument = match assign(context) {
            Ok(node) => node,
            Err(error) => {
                return Err(error);
            },
        };
        proof {
            lemma_models_push(parameters@, argument);
            lemma_prefixed_step(
                before,
                (position - start) as nat,
                argument@,
                (context@.position - position + 1) as nat,
                spec_argument_list(tokens, context@.position as int + 1),
            );
        }
        parameters.push(argument);
        if consume_punctuator(context, PunctuatorKind::Commma) {
        } else {
            match expect_punctuator(context, PunctuatorKind::RightRoundBracket) {
                Ok(_) => {
                    return Ok(parameters);
                },
                Err(error) => {
                    return Err(error);
                },
            }
        }
    }
}

/// Parses a primary expression: an expression in round brackets, a literal,
/// or an identifier.
#[verifier::spinoff_prover]
pub fn primary<'a, 'b>(context: &'a mut ParseContext<'b>) -> (result: Result<
    ExpressionNode<'b>,
    ParseError,
>)
    ensures
        agrees(
            result,
            old(context)@,
            final(context)@,
            spec_primary(old(context)@.tokens, old(context)@.position as int),
        ),
    decreases tokens_left(old(context)@.tokens, old(context)@.position as int), 7nat,
{
    reveal(spec_primary);
    reveal(spec_expression);
    match context.peek(0) {
        Token::Punctuator(PunctuatorKind::LeftRoundBracket) => {
            consume_token(context);
            let inner = match expression(context) {
                Ok(node) => node,
                Err(error) => {
                    return Err(error);
                },
            };
            match expect_punctuator(context, PunctuatorKind::RightRoundBracket) {
                Ok(_) => Ok(inner),
                Err(error) => Err(error),
            }
        },
        Token::Literal(_) => literal(context),
        Token::Identifier(name) => {
            consume_token(context);
            Ok(ExpressionNode::Identifier(name))
        },
        _ => Err(ParseError::ExpectedExpression),
    }
}

/// Parses a literal as an expression.
pub fn literal<'a, 'b>(context: &'a mut ParseContext<'b>) -> (result: Result<
    ExpressionNode<'b>,
    ParseError,
>)
    ensures
        agrees(
            result,
            old(context)@,
            final(context)@,
            spec_literal_expression(old(context)@.tokens, old(context)@.position as int),
        ),
{
    let content = match expect_literal(context) {
        Ok(found) => found,
        Err(error) => {
            return Err(error);
        },
    };
    let value = match content {
        Literal::String(text) => Immediate::String(text),
        Literal::Char(c) => Immediate::Char(c),
        Literal::Number(n) => Immediate::Number(n),
    };
    Ok(ExpressionNode::Immediate(value))
}

/// A primary expression starts with an opening round bracket, a literal or
/// an identifier.
pub proof fn lemma_primary_start(tokens: Seq<TokenView>, position: int)
    requires
        spec_primary(tokens, position) is Ok,
    ensures
        0 <= position < tokens.len(),
        match token_at(tokens, position) {
            TokenView::Literal(_) => true,
            TokenView::Identifier(_) => true,
            TokenView::Punctuator(kind) => kind == PunctuatorKind::LeftRoundBracket,
            _ => false,
        },
{
    reveal(spec_primary);
}

} // verus!
