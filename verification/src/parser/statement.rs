//! Statements: the syntax tree, the grammar as a function on token sequences,
//! and the parser that computes it.

use crate::parser::expression::{expression, spec_expression, ExpressionNode, ExpressionView};
use crate::parser::util::{
    absent, agrees, agrees_list, consume_keyword, consume_punctuator, consume_token,
    expect_identifier, expect_keyword, expect_punctuator, keyword_at, lemma_models_empty,
    lemma_models_push, lemma_prefixed_start, lemma_prefixed_step, lemma_models, models,
    moves_when_present, or_else, prefixed, punctuator_at, required, token_at, tokens_left,
    ParseContext, ParseError, Parsed, TokenKind,
};
use crate::tokenizer::{KeywordKind, PunctuatorKind, Token, TokenView};
use vstd::prelude::*;

verus! {

/// A statement. Each node owns its conditions and bodies.
#[derive(Debug, PartialEq, Eq)]
pub enum StatementNode<'a> {
    NullStatement,
    ExpressionStatement(ExpressionNode<'a>),
    IfStatement { condition: Box<ExpressionNode<'a>>, statement: Box<StatementNode<'a>> },
    SwitchStatement { condition: Box<ExpressionNode<'a>>, statement: Box<StatementNode<'a>> },
    LabeledStatement(&'a str),
    WhileStatement { condition: Box<ExpressionNode<'a>>, statement: Box<StatementNode<'a>> },
    DoWhileStatement { condition: Box<ExpressionNode<'a>>, statement: Box<StatementNode<'a>> },
    ForStatement {
        initialization: Box<ExpressionNode<'a>>,
        condition: Box<ExpressionNode<'a>>,
        afterthought: Box<ExpressionNode<'a>>,
        statement: Box<StatementNode<'a>>,
    },
    CompoundStatement(Vec<StatementNode<'a>>),
    ReturnStatement(Box<ExpressionNode<'a>>),
    BreakStatement,
    ContinueStatement,
    GotoStatement(&'a str),
}

/// The model of a [`StatementNode`].
pub enum StatementView {
    NullStatement,
    ExpressionStatement(ExpressionView),
    IfStatement { condition: ExpressionView, statement: Box<StatementView> },
    SwitchStatement { condition: ExpressionView, statement: Box<StatementView> },
    LabeledStatement(Seq<char>),
    WhileStatement { condition: ExpressionView, statement: Box<StatementView> },
    DoWhileStatement { condition: ExpressionView, statement: Box<StatementView> },
    ForStatement {
        initialization: ExpressionView,
        condition: ExpressionView,
        afterthought: ExpressionView,
        statement: Box<StatementView>,
    },
    CompoundStatement(Seq<StatementView>),
    ReturnStatement(ExpressionView),
    BreakStatement,
    ContinueStatement,
    GotoStatement(Seq<char>),
}

impl<'a> StatementNode<'a> {
    /// The model of the statement: the same tree over sequences.
    pub open spec fn model(self) -> StatementView
        decreases self,
    {
        match self {
            StatementNode::NullStatement => StatementView::NullStatement,
            StatementNode::ExpressionStatement(expression) => StatementView::ExpressionStatement(
                expression@,
            ),
            StatementNode::IfStatement { condition, statement } => StatementView::IfStatement {
                condition: condition@,
                statement: Box::new(statement.model()),
            },
            StatementNode::SwitchStatement { condition, statement } => {
                StatementView::SwitchStatement {
                    condition: condition@,
                    statement: Box::new(statement.model()),
                }
            },
            StatementNode::LabeledStatement(name) => StatementView::LabeledStatement(name@),
            StatementNode::WhileStatement { condition, statement } => {
                StatementView::WhileStatement {
                    condition: condition@,
                    statement: Box::new(statement.model()),
                }
            },
            StatementNode::DoWhileStatement { condition, statement } => {
                StatementView::DoWhileStatement {
                    condition: condition@,
                    statement: Box::new(statement.model()),
                }
            },
            StatementNode::ForStatement { initialization, condition, afterthought, statement } => {
                StatementView::ForStatement {
                    initialization: initialization@,
                    condition: condition@,
                    afterthought: afterthought@,
                    statement: Box::new(statement.model()),
                }
            },
            StatementNode::CompoundStatement(statements) => StatementView::CompoundStatement(
                Seq::new(
                    statements@.len(),
                    |index: int|
                        if 0 <= index < statements@.len() {
                            statements@[index].model()
                        } else {
                            arbitrary()
                        },
                ),
            ),
            StatementNode::ReturnStatement(value) => StatementView::ReturnStatement(value@),
            StatementNode::BreakStatement => StatementView::BreakStatement,
            StatementNode::ContinueStatement => StatementView::ContinueStatement,
            StatementNode::GotoStatement(label) => StatementView::GotoStatement(label@),
        }
    }
}

impl<'a> View for StatementNode<'a> {
    type V = StatementView;

    open spec fn view(&self) -> StatementView {
        self.model()
    }
}

impl<'a> DeepView for StatementNode<'a> {
    type V = StatementView;

    open spec fn deep_view(&self) -> StatementView {
        self.model()
    }
}

/// The model of a compound statement is the compound of the models of its
/// statements.
pub proof fn lemma_compound_model(statements: Vec<StatementNode<'_>>)
    ensures
        StatementNode::CompoundStatement(statements).model() == StatementView::CompoundStatement(
            models(statements@),
        ),
{
    lemma_models(statements@);
    assert(StatementNode::CompoundStatement(statements).model()->CompoundStatement_0 =~= models(
        statements@,
    ));
}

/// Whether an expression can start with `token`: a literal, an identifier, an
/// opening round bracket or a prefix operator.
pub open spec fn starts_expression(token: TokenView) -> bool {
    match token {
        TokenView::Literal(_) => true,
        TokenView::Identifier(_) => true,
        TokenView::Punctuator(punctuator) => {
            ||| punctuator == PunctuatorKind::LeftRoundBracket
            ||| punctuator == PunctuatorKind::Exclamation
            ||| punctuator == PunctuatorKind::Tilde
            ||| punctuator == PunctuatorKind::Ampersand
            ||| punctuator == PunctuatorKind::Star
        },
        _ => false,
    }
}

/// An expression in round brackets, from the opening bracket on: the
/// condition of `if`, `switch` and `while`.
#[verifier::opaque]
pub open spec fn spec_condition(tokens: Seq<TokenView>, position: int) -> Parsed<ExpressionView> {
    if punctuator_at(tokens, position, PunctuatorKind::LeftRoundBracket) {
        match spec_expression(tokens, position + 1) {
            Err((error, count)) => Err((error, 1 + count)),
            Ok((condition, count)) => if punctuator_at(
                tokens,
                position + 1 + count,
                PunctuatorKind::RightRoundBracket,
            ) {
                Ok((condition, 1 + count + 1))
            } else {
                Err(
                    (
                        ParseError::ExpectedToken(
                            TokenKind::Punctuator(PunctuatorKind::RightRoundBracket),
                        ),
                        1 + count,
                    ),
                )
            },
        }
    } else {
        Err(
            (ParseError::ExpectedToken(TokenKind::Punctuator(PunctuatorKind::LeftRoundBracket)), 0),
        )
    }
}

/// A condition in round brackets and the statement it governs, after the
/// keyword `if`, `switch` or `while`.
#[verifier::opaque]
pub open spec fn spec_governed(tokens: Seq<TokenView>, position: int) -> Parsed<
    (ExpressionView, StatementView),
>
    decreases tokens_left(tokens, position), 25nat,
{
    match spec_condition(tokens, position) {
        Err(error) => Err(error),
        Ok((condition, count)) => match spec_statement(tokens, position + count) {
            Err((error, more)) => Err((error, count + more)),
            Ok((body, more)) => Ok(((condition, body), count + more)),
        },
    }
}

/// `statement`: the first of the statement forms that is present, tried in
/// this order: null, `if`, `switch`, labeled, `while`, `do`, `for`, compound,
/// `return`, `break`, `continue`, `goto`, expression.
#[verifier::opaque]
pub open spec fn spec_statement(tokens: Seq<TokenView>, position: int) -> Parsed<StatementView>
    decreases tokens_left(tokens, position), 20nat,
{
    let found = or_else(
        spec_null_statement(tokens, position),
        or_else(
            spec_if_statement(tokens, position),
            or_else(
                spec_switch_statement(tokens, position),
                or_else(
                    spec_labeled_statement(tokens, position),
                    or_else(
                        spec_while_statement(tokens, position),
                        or_else(
                            spec_do_while_statement(tokens, position),
                            or_else(
                                spec_for_statement(tokens, position),
                                or_else(
                                    spec_compound_statement(tokens, position),
                                    or_else(
                                        spec_return_statement(tokens, position),
                                        or_else(
                                            spec_break_statement(tokens, position),
                                            or_else(
                                                spec_continue_statement(tokens, position),
                                                or_else(
                                                    spec_goto_statement(tokens, position),
                                                    spec_expression_statement(tokens, position),
                                                ),
                                            ),
                                        ),
                                    ),
                                ),
                            ),
                        ),
                    ),
                ),
            ),
        ),
    );
    required(found, ParseError::ExpectedStatement)
}

/// `;`
#[verifier::opaque]
pub open spec fn spec_null_statement(tokens: Seq<TokenView>, position: int) -> Parsed<
    Option<StatementView>,
> {
    if punctuator_at(tokens, position, PunctuatorKind::Semicolon) {
        Ok((Some(StatementView::NullStatement), 1))
    } else {
        absent()
    }
}

/// `expression ';'`, where a token stands that can start an expression.
#[verifier::opaque]
pub open spec fn spec_expression_statement(tokens: Seq<TokenView>, position: int) -> Parsed<
    Option<StatementView>,
> {
    if starts_expression(token_at(tokens, position)) {
        match spec_expression(tokens, position) {
            Err(error) => Err(error),
            Ok((value, count)) => if punctuator_at(
                tokens,
                position + count,
                PunctuatorKind::Semicolon,
            ) {
                Ok((Some(StatementView::ExpressionStatement(value)), count + 1))
            } else {
                Err(
                    (
                        ParseError::ExpectedToken(
                            TokenKind::Punctuator(PunctuatorKind::Semicolon),
                        ),
                        count,
                    ),
                )
            },
        }
    } else {
        absent()
    }
}

/// `'if' '(' expression ')' statement`
#[verifier::opaque]
pub open spec fn spec_if_statement(tokens: Seq<TokenView>, position: int) -> Parsed<
    Option<StatementView>,
>
    decreases tokens_left(tokens, position), 10nat,
{
    if keyword_at(tokens, position, KeywordKind::If) {
        match spec_governed(tokens, position + 1) {
            Err((error, count)) => Err((error, 1 + count)),
            Ok(((condition, body), count)) => Ok(
                (
                    Some(StatementView::IfStatement { condition, statement: Box::new(body) }),
                    1 + count,
                ),
            ),
        }
    } else {
        absent()
    }
}

/// `'switch' '(' expression ')' statement`
#[verifier::opaque]
pub open spec fn spec_switch_statement(tokens: Seq<TokenView>, position: int) -> Parsed<
    Option<StatementView>,
>
    decreases tokens_left(tokens, position), 10nat,
{
    if keyword_at(tokens, position, KeywordKind::Switch) {
        match spec_governed(tokens, position + 1) {
            Err((error, count)) => Err((error, 1 + count)),
            Ok(((condition, body), count)) => Ok(
                (
                    Some(StatementView::SwitchStatement { condition, statement: Box::new(body) }),
                    1 + count,
                ),
            ),
        }
    } else {
        absent()
    }
}

/// `identifier ':'`. An identifier that no colon follows is no label.
#[verifier::opaque]
pub open spec fn spec_labeled_statement(tokens: Seq<TokenView>, position: int) -> Parsed<
    Option<StatementView>,
> {
    match token_at(tokens, position) {
        TokenView::Identifier(name) => if punctuator_at(
            tokens,
            position + 1,
            PunctuatorKind::Colon,
        ) {
            Ok((Some(StatementView::LabeledStatement(name)), 2))
        } else {
            absent()
        },
        _ => absent(),
    }
}

/// `'while' '(' expression ')' statement`
#[verifier::opaque]
pub open spec fn spec_while_statement(tokens: Seq<TokenView>, position: int) -> Parsed<
    Option<StatementView>,
>
    decreases tokens_left(tokens, position), 10nat,
{
    if keyword_at(tokens, position, KeywordKind::While) {
        match spec_governed(tokens, position + 1) {
            Err((error, count)) => Err((error, 1 + count)),
            Ok(((condition, body), count)) => Ok(
                (
                    Some(StatementView::WhileStatement { condition, statement: Box::new(body) }),
                    1 + count,
                ),
            ),
        }
    } else {
        absent()
    }
}

/// `'do' statement 'while' '(' expression ')'`
#[verifier::opaque]
pub open spec fn spec_do_while_statement(tokens: Seq<TokenView>, position: int) -> Parsed<
    Option<StatementView>,
>
    decreases tokens_left(tokens, position), 10nat,
{
    if keyword_at(tokens, position, KeywordKind::Do) {
        match spec_statement(tokens, position + 1) {
            Err((error, count)) => Err((error, 1 + count)),
            Ok((body, count)) => if keyword_at(tokens, position + 1 + count, KeywordKind::While) {
                match spec_condition(tokens, position + 1 + count + 1) {
                    Err((error, more)) => Err((error, 1 + count + 1 + more)),
                    Ok((condition, more)) => Ok(
                        (
                            Some(
                                StatementView::DoWhileStatement {
                                    condition,
                                    statement: Box::new(body),
                                },
                            ),
                            1 + count + 1 + more,
                        ),
                    ),
                }
            } else {
                Err(
                    (ParseError::ExpectedToken(TokenKind::Keyword(KeywordKind::While)), 1 + count),
                )
            },
        }
    } else {
        absent()
    }
}

/// The three expressions of `for`, from the opening bracket up to and with
/// the closing one: `'(' expression ';' expression ';' expression ')'`.
#[verifier::opaque]
pub open spec fn spec_for_clauses(tokens: Seq<TokenView>, position: int) -> Parsed<
    (ExpressionView, ExpressionView, ExpressionView),
> {
    if punctuator_at(tokens, position, PunctuatorKind::LeftRoundBracket) {
        match spec_expression(tokens, position + 1) {
            Err((error, count)) => Err((error, 1 + count)),
            Ok((initialization, count)) => if punctuator_at(
                tokens,
                position + 1 + count,
                PunctuatorKind::Semicolon,
            ) {
                let second = position + 1 + count + 1;
                match spec_expression(tokens, second) {
                    Err((error, more)) => Err((error, 1 + count + 1 + more)),
                    Ok((condition, more)) => if punctuator_at(
                        tokens,
                        second + more,
                        PunctuatorKind::Semicolon,
                    ) {
                        let third = second + more + 1;
                        match spec_expression(tokens, third) {
                            Err((error, last)) => Err((error, 1 + count + 1 + more + 1 + last)),
                            Ok((afterthought, last)) => if punctuator_at(
                                tokens,
                                third + last,
                                PunctuatorKind::RightRoundBracket,
                            ) {
                                Ok(
                                    (
                                        (initialization, condition, afterthought),
                                        1 + count + 1 + more + 1 + last + 1,
                                    ),
                                )
                            } else {
                                Err(
                                    (
                                        ParseError::ExpectedToken(
                                            TokenKind::Punctuator(
                                                PunctuatorKind::RightRoundBracket,
                                            ),
                                        ),
                                        1 + count + 1 + more + 1 + last,
                                    ),
                                )
                            },
                        }
                    } else {
                        Err(
                            (
                                ParseError::ExpectedToken(
                                    TokenKind::Punctuator(PunctuatorKind::Semicolon),
                                ),
                                1 + count + 1 + more,
                            ),
                        )
                    },
                }
            } else {
                Err(
                    (
                        ParseError::ExpectedToken(
                            TokenKind::Punctuator(PunctuatorKind::Semicolon),
                        ),
                        1 + count,
                    ),
                )
            },
        }
    } else {
        Err(
            (ParseError::ExpectedToken(TokenKind::Punctuator(PunctuatorKind::LeftRoundBracket)), 0),
        )
    }
}

/// `'for' '(' expression ';' expression ';' expression ')' statement`
#[verifier::opaque]
pub open spec fn spec_for_statement(tokens: Seq<TokenView>, position: int) -> Parsed<
    Option<StatementView>,
>
    decreases tokens_left(tokens, position), 10nat,
{
    if keyword_at(tokens, position, KeywordKind::For) {
        match spec_for_clauses(tokens, position + 1) {
            Err((error, count)) => Err((error, 1 + count)),
            Ok(((initialization, condition, afterthought), count)) => match spec_statement(
                tokens,
                position + 1 + count,
            ) {
                Err((error, more)) => Err((error, 1 + count + more)),
                Ok((body, more)) => Ok(
                    (
                        Some(
                            StatementView::ForStatement {
                                initialization,
                                condition,
                                afterthought,
                                statement: Box::new(body),
                            },
                        ),
                        1 + count + more,
                    ),
                ),
            },
        }
    } else {
        absent()
    }
}

/// `'{' statement* '}'`
#[verifier::opaque]
pub open spec fn spec_compound_statement(tokens: Seq<TokenView>, position: int) -> Parsed<
    Option<StatementView>,
>
    decreases tokens_left(tokens, position), 10nat,
{
    if punctuator_at(tokens, position, PunctuatorKind::LeftCurlyBracket) {
        match spec_statement_list(tokens, position + 1) {
            Err((error, count)) => Err((error, 1 + count)),
            Ok((statements, count)) => Ok(
                (Some(StatementView::CompoundStatement(statements)), 1 + count),
            ),
        }
    } else {
        absent()
    }
}

/// `statement* '}'`: the statements of a compound statement, up to and with
/// its closing bracket. Where the tokens end before the bracket, the bracket
/// is what is missing.
#[verifier::opaque]
pub open spec fn spec_statement_list(tokens: Seq<TokenView>, position: int) -> Parsed<
    Seq<StatementView>,
>
    decreases tokens_left(tokens, position), 30nat,
{
    if punctuator_at(tokens, position, PunctuatorKind::RightCurlyBracket) {
        Ok((Seq::empty(), 1))
    } else if token_at(tokens, position) is End {
        Err(
            (
                ParseError::ExpectedToken(
                    TokenKind::Punctuator(PunctuatorKind::RightCurlyBracket),
                ),
                0,
            ),
        )
    } else {
        match spec_statement(tokens, position) {
            Err(error) => Err(error),
            Ok((statement, count)) => if count == 0 {
                Err((ParseError::ExpectedStatement, 0))
            } else {
                prefixed(seq![statement], count, spec_statement_list(tokens, position + count))
            },
        }
    }
}

/// `'return' expression`
#[verifier::opaque]
pub open spec fn spec_return_statement(tokens: Seq<TokenView>, position: int) -> Parsed<
    Option<StatementView>,
> {
    if keyword_at(tokens, position, KeywordKind::Return) {
        match spec_expression(tokens, position + 1) {
            Err((error, count)) => Err((error, 1 + count)),
            Ok((value, count)) => Ok((Some(StatementView::ReturnStatement(value)), 1 + count)),
        }
    } else {
        absent()
    }
}

/// `'break' ';'`
#[verifier::opaque]
pub open spec fn spec_break_statement(tokens: Seq<TokenView>, position: int) -> Parsed<
    Option<StatementView>,
> {
    if keyword_at(tokens, position, KeywordKind::Break) {
        if punctuator_at(tokens, position + 1, PunctuatorKind::Semicolon) {
            Ok((Some(StatementView::BreakStatement), 2))
        } else {
            Err((ParseError::ExpectedToken(TokenKind::Punctuator(PunctuatorKind::Semicolon)), 1))
        }
    } else {
        absent()
    }
}

/// `'continue' ';'`
#[verifier::opaque]
pub open spec fn spec_continue_statement(tokens: Seq<TokenView>, position: int) -> Parsed<
    Option<StatementView>,
> {
    if keyword_at(tokens, position, KeywordKind::Continue) {
        if punctuator_at(tokens, position + 1, PunctuatorKind::Semicolon) {
            Ok((Some(StatementView::ContinueStatement), 2))
        } else {
            Err((ParseError::ExpectedToken(TokenKind::Punctuator(PunctuatorKind::Semicolon)), 1))
        }
    } else {
        absent()
    }
}

/// `'goto' identifier`
#[verifier::opaque]
pub open spec fn spec_goto_statement(tokens: Seq<TokenView>, position: int) -> Parsed<
    Option<StatementView>,
> {
    if keyword_at(tokens, position, KeywordKind::Goto) {
        match token_at(tokens, position + 1) {
            TokenView::Identifier(label) => Ok((Some(StatementView::GotoStatement(label)), 2)),
            _ => Err((ParseError::ExpectedIdentifier, 1)),
        }
    } else {
        absent()
    }
}

/// Whether an expression can start with `token`.
pub fn can_start_expression(token: Token) -> (result: bool)
    ensures
        result == starts_expression(token@),
{
    match token {
        Token::Literal(_) => true,
        Token::Identifier(_) => true,
        Token::Punctuator(punctuator) => {
            punctuator == PunctuatorKind::LeftRoundBracket || punctuator
                == PunctuatorKind::Exclamation || punctuator == PunctuatorKind::Tilde
                || punctuator == PunctuatorKind::Ampersand || punctuator == PunctuatorKind::Star
        },
        _ => false,
    }
}

/// Parses an expression in round brackets.
pub fn condition<'a, 'b>(context: &'a mut ParseContext<'b>) -> (result: Result<
    ExpressionNode<'b>,
    ParseError,
>)
    ensures
        agrees(
            result,
            old(context)@,
            final(context)@,
            spec_condition(old(context)@.tokens, old(context)@.position as int),
        ),
{
    reveal(spec_condition);
    match expect_punctuator(context, PunctuatorKind::LeftRoundBracket) {
        Ok(_) => {},
        Err(error) => {
            return Err(error);
        },
    }
    let value = match expression(context) {
        Ok(node) => node,
        Err(error) => {
            return Err(error);
        },
    };
    match expect_punctuator(context, PunctuatorKind::RightRoundBracket) {
        Ok(_) => Ok(value),
        Err(error) => Err(error),
    }
}

/// Parses a condition in round brackets and the statement it governs.
#[verifier::spinoff_prover]
pub fn governed<'a, 'b>(context: &'a mut ParseContext<'b>) -> (result: Result<
    (ExpressionNode<'b>, StatementNode<'b>),
    ParseError,
>)
    ensures
        agrees(
            result,
            old(context)@,
            final(context)@,
            spec_governed(old(context)@.tokens, old(context)@.position as int),
        ),
    decreases tokens_left(old(context)@.tokens, old(context)@.position as int), 25nat,
{
    reveal(spec_governed);
    reveal(spec_statement);
    let value = match condition(context) {
        Ok(node) => node,
        Err(error) => {
            return Err(error);
        },
    };
    let body = match statement(context) {
        Ok(node) => node,
        Err(error) => {
            return Err(error);
        },
    };
    Ok((value, body))
}

/// Parses a statement: the first of the statement forms that is present.
#[verifier::spinoff_prover]
pub fn statement<'a, 'b>(context: &'a mut ParseContext<'b>) -> (result: Result<
    StatementNode<'b>,
    ParseError,
>)
    ensures
        agrees(
            result,
            old(context)@,
            final(context)@,
            spec_statement(old(context)@.tokens, old(context)@.position as int),
        ),
        result is Ok ==> final(context)@.position > old(context)@.position,
    decreases tokens_left(old(context)@.tokens, old(context)@.position as int), 20nat,
{
    reveal(spec_statement);
    reveal(spec_if_statement);
    reveal(spec_switch_statement);
    reveal(spec_while_statement);
    reveal(spec_do_while_statement);
    reveal(spec_for_statement);
    reveal(spec_compound_statement);
    match null_statement(context) {
        Err(error) => {
            return Err(error);
        },
        Ok(Some(found)) => {
            return Ok(found);
        },
        Ok(None) => {},
    }
    match if_statement(context) {
        Err(error) => {
            return Err(error);
        },
        Ok(Some(found)) => {
            return Ok(found);
        },
        Ok(None) => {},
    }
    match switch_statement(context) {
        Err(error) => {
            return Err(error);
        },
        Ok(Some(found)) => {
            return Ok(found);
        },
        Ok(None) => {},
    }
    match labeled_statement(context) {
        Err(error) => {
            return Err(error);
        },
        Ok(Some(found)) => {
            return Ok(found);
        },
        Ok(None) => {},
    }
    match while_statement(context) {
        Err(error) => {
            return Err(error);
        },
        Ok(Some(found)) => {
            return Ok(found);
        },
        Ok(None) => {},
    }
    match do_while_statement(context) {
        Err(error) => {
            return Err(error);
        },
        Ok(Some(found)) => {
            return Ok(found);
        },
        Ok(None) => {},
    }
    match for_statement(context) {
        Err(error) => {
            return Err(error);
        },
        Ok(Some(found)) => {
            return Ok(found);
        },
        Ok(None) => {},
    }
    match compound_statement(context) {
        Err(error) => {
            return Err(error);
        },
        Ok(Some(found)) => {
            return Ok(found);
        },
        Ok(None) => {},
    }
    match return_statement(context) {
        Err(error) => {
            return Err(error);
        },
        Ok(Some(found)) => {
            return Ok(found);
        },
        Ok(None) => {},
    }
    match break_statement(context) {
        Err(error) => {
            return Err(error);
        },
        Ok(Some(found)) => {
            return Ok(found);
        },
        Ok(None) => {},
    }
    match continue_statement(context) {
        Err(error) => {
            return Err(error);
        },
        Ok(Some(found)) => {
            return Ok(found);
        },
        Ok(None) => {},
    }
    match goto_statement(context) {
        Err(error) => {
            return Err(error);
        },
        Ok(Some(found)) => {
            return Ok(found);
        },
        Ok(None) => {},
    }
    match expression_statement(context) {
        Err(error) => {
            return Err(error);
        },
        Ok(Some(found)) => {
            return Ok(found);
        },
        Ok(None) => {},
    }
    Err(ParseError::ExpectedStatement)
}

/// Parses `;`, if it is there.
pub fn null_statement<'a, 'b>(context: &'a mut ParseContext<'b>) -> (result: Result<
    Option<StatementNode<'b>>,
    ParseError,
>)
    ensures
        agrees(
            result,
            old(context)@,
            final(context)@,
            spec_null_statement(old(context)@.tokens, old(context)@.position as int),
        ),
        moves_when_present(result, old(context)@, final(context)@),
{
    reveal(spec_null_statement);
    if consume_punctuator(context, PunctuatorKind::Semicolon) {
        Ok(Some(StatementNode::NullStatement))
    } else {
        Ok(None)
    }
}

/// Parses an expression and the `;` after it, if a token is there that can
/// start an expression.
pub fn expression_statement<'a, 'b>(context: &'a mut ParseContext<'b>) -> (result: Result<
    Option<StatementNode<'b>>,
    ParseError,
>)
    ensures
        agrees(
            result,
            old(context)@,
            final(context)@,
            spec_expression_statement(old(context)@.tokens, old(context)@.position as int),
        ),
        moves_when_present(result, old(context)@, final(context)@),
{
    reveal(spec_expression_statement);
    if !can_start_expression(context.peek(0)) {
        return Ok(None);
    }
    let value = match expression(context) {
        Ok(node) => node,
        Err(error) => {
            return Err(error);
        },
    };
    match expect_punctuator(context, PunctuatorKind::Semicolon) {
        Ok(_) => Ok(Some(StatementNode::ExpressionStatement(value))),
        Err(error) => Err(error),
    }
}

/// Parses an `if` statement, if `if` is there.
#[verifier::spinoff_prover]
pub fn if_statement<'a, 'b>(context: &'a mut ParseContext<'b>) -> (result: Result<
    Option<StatementNode<'b>>,
    ParseError,
>)
    ensures
        agrees(
            result,
            old(context)@,
            final(context)@,
            spec_if_statement(old(context)@.tokens, old(context)@.position as int),
        ),
        moves_when_present(result, old(context)@, final(context)@),
    decreases tokens_left(old(context)@.tokens, old(context)@.position as int), 10nat,
{
    reveal(spec_if_statement);
    reveal(spec_governed);
    if !consume_keyword(context, KeywordKind::If) {
        return Ok(None);
    }
    match governed(context) {
        Ok((cond, body)) => Ok(
            Some(
                StatementNode::IfStatement { condition: Box::new(cond), statement: Box::new(body) },
            ),
        ),
        Err(error) => Err(error),
    }
}

/// Parses a `switch` statement, if `switch` is there.
#[verifier::spinoff_prover]
pub fn switch_statement<'a, 'b>(context: &'a mut ParseContext<'b>) -> (result: Result<
    Option<StatementNode<'b>>,
    ParseError,
>)
    ensures
        agrees(
            result,
            old(context)@,
            final(context)@,
            spec_switch_statement(old(context)@.tokens, old(context)@.position as int),
        ),
        moves_when_present(result, old(context)@, final(context)@),
    decreases tokens_left(old(context)@.tokens, old(context)@.position as int), 10nat,
{
    reveal(spec_switch_statement);
    reveal(spec_governed);
    if !consume_keyword(context, KeywordKind::Switch) {
        return Ok(None);
    }
    match governed(context) {
        Ok((cond, body)) => Ok(
            Some(
                StatementNode::SwitchStatement {
                    condition: Box::new(cond),
                    statement: Box::new(body),
                },
            ),
        ),
        Err(error) => Err(error),
    }
}

/// Parses a label, if an identifier with a colon after it is there.
pub fn labeled_statement<'a, 'b>(context: &'a mut ParseContext<'b>) -> (result: Result<
    Option<StatementNode<'b>>,
    ParseError,
>)
    ensures
        agrees(
            result,
            old(context)@,
            final(context)@,
            spec_labeled_statement(old(context)@.tokens, old(context)@.position as int),
        ),
        moves_when_present(result, old(context)@, final(context)@),
{
    reveal(spec_labeled_statement);
    if let Token::Identifier(name) = context.peek(0) {
        if let Token::Punctuator(PunctuatorKind::Colon) = context.peek(1) {
            consume_token(context);
            consume_token(context);
            return Ok(Some(StatementNode::LabeledStatement(name)));
        }
    }
    Ok(None)
}

/// Parses a `while` statement, if `while` is there.
#[verifier::spinoff_prover]
pub fn while_statement<'a, 'b>(context: &'a mut ParseContext<'b>) -> (result: Result<
    Option<StatementNode<'b>>,
    ParseError,
>)
    ensures
        agrees(
            result,
            old(context)@,
            final(context)@,
            spec_while_statement(old(context)@.tokens, old(context)@.position as int),
        ),
        moves_when_present(result, old(context)@, final(context)@),
    decreases tokens_left(old(context)@.tokens, old(context)@.position as int), 10nat,
{
    reveal(spec_while_statement);
    reveal(spec_governed);
    if !consume_keyword(context, KeywordKind::While) {
        return Ok(None);
    }
    match governed(context) {
        Ok((cond, body)) => Ok(
            Some(
                StatementNode::WhileStatement {
                    condition: Box::new(cond),
                    statement: Box::new(body),
                },
            ),
        ),
        Err(error) => Err(error),
    }
}

/// Parses a `do` statement, if `do` is there.
#[verifier::spinoff_prover]
pub fn do_while_statement<'a, 'b>(context: &'a mut ParseContext<'b>) -> (result: Result<
    Option<StatementNode<'b>>,
    ParseError,
>)
    ensures
        agrees(
            result,
            old(context)@,
            final(context)@,
            spec_do_while_statement(old(context)@.tokens, old(context)@.position as int),
        ),
        moves_when_present(result, old(context)@, final(context)@),
    decreases tokens_left(old(context)@.tokens, old(context)@.position as int), 10nat,
{
    reveal(spec_do_while_statement);
    reveal(spec_statement);
    if !consume_keyword(context, KeywordKind::Do) {
        return Ok(None);
    }
    let body = match statement(context) {
        Ok(node) => node,
        Err(error) => {
            return Err(error);
        },
    };
    match expect_keyword(context, KeywordKind::While) {
        Ok(_) => {},
        Err(error) => {
            return Err(error);
        },
    }
    match condition(context) {
        Ok(cond) => Ok(
            Some(
                StatementNode::DoWhileStatement {
                    condition: Box::new(cond),
                    statement: Box::new(body),
                },
            ),
        ),
        Err(error) => Err(error),
    }
}

/// Parses the three expressions of `for`, with their brackets and
/// semicolons.
pub fn for_clauses<'a, 'b>(context: &'a mut ParseContext<'b>) -> (result: Result<
    (ExpressionNode<'b>, ExpressionNode<'b>, ExpressionNode<'b>),
    ParseError,
>)
    ensures
        agrees(
            result,
            old(context)@,
            final(context)@,
            spec_for_clauses(old(context)@.tokens, old(context)@.position as int),
        ),
{
    reveal(spec_for_clauses);
    match expect_punctuator(context, PunctuatorKind::LeftRoundBracket) {
        Ok(_) => {},
        Err(error) => {
            return Err(error);
        },
    }
    let init = match expression(context) {
        Ok(node) => node,
        Err(error) => {
            return Err(error);
        },
    };
    match expect_punctuator(context, PunctuatorKind::Semicolon) {
        Ok(_) => {},
        Err(error) => {
            return Err(error);
        },
    }
    let cond = match expression(context) {
        Ok(node) => node,
        Err(error) => {
            return Err(error);
        },
    };
    match expect_punctuator(context, PunctuatorKind::Semicolon) {
        Ok(_) => {},
        Err(error) => {
            return Err(error);
        },
    }
    let after = match expression(context) {
        Ok(node) => node,
        Err(error) => {
            return Err(error);
        },
    };
    match expect_punctuator(context, PunctuatorKind::RightRoundBracket) {
        Ok(_) => Ok((init, cond, after)),
        Err(error) => Err(error),
    }
}

/// Parses a `for` statement, if `for` is there.
#[verifier::spinoff_prover]
pub fn for_statement<'a, 'b>(context: &'a mut ParseContext<'b>) -> (result: Result<
    Option<StatementNode<'b>>,
    ParseError,
>)
    ensures
        agrees(
            result,
            old(context)@,
            final(context)@,
            spec_for_statement(old(context)@.tokens, old(context)@.position as int),
        ),
        moves_when_present(result, old(context)@, final(context)@),
    decreases tokens_left(old(context)@.tokens, old(context)@.position as int), 10nat,
{
    reveal(spec_for_statement);
    reveal(spec_statement);
    if !consume_keyword(context, KeywordKind::For) {
        return Ok(None);
    }
    let (init, cond, after) = match for_clauses(context) {
        Ok(clauses) => clauses,
        Err(error) => {
            return Err(error);
        },
    };
    let body = match statement(context) {
        Ok(node) => node,
        Err(error) => {
            return Err(error);
        },
    };
    Ok(
        Some(
            StatementNode::ForStatement {
                initialization: Box::new(init),
                condition: Box::new(cond),
                afterthought: Box::new(after),
                statement: Box::new(body),
            },
        ),
    )
}

/// Parses a compound statement, if `{` is there.
#[verifier::spinoff_prover]
pub fn compound_statement<'a, 'b>(context: &'a mut ParseContext<'b>) -> (result: Result<
    Option<StatementNode<'b>>,
    ParseError,
>)
    ensures
        agrees(
            result,
            old(context)@,
            final(context)@,
            spec_compound_statement(old(context)@.tokens, old(context)@.position as int),
        ),
        moves_when_present(result, old(context)@, final(context)@),
    decreases tokens_left(old(context)@.tokens, old(context)@.position as int), 10nat,
{
    reveal(spec_compound_statement);
    reveal(spec_statement_list);
    if !consume_punctuator(context, PunctuatorKind::LeftCurlyBracket) {
        return Ok(None);
    }
    match statement_list(context) {
        Ok(statements) => {
            proof {
                lemma_compound_model(statements);
            }
            Ok(Some(StatementNode::CompoundStatement(statements)))
        },
        Err(error) => Err(error),
    }
}

/// Parses the statements of a compound statement, after its opening bracket,
/// up to and with its closing bracket.
#[verifier::spinoff_prover]
pub fn statement_list<'a, 'b>(context: &'a mut ParseContext<'b>) -> (result: Result<
    Vec<StatementNode<'b>>,
    ParseError,
>)
    ensures
        agrees_list(
            result,
            old(context)@,
            final(context)@,
            spec_statement_list(old(context)@.tokens, old(context)@.position as int),
        ),
    decreases tokens_left(old(context)@.tokens, old(context)@.position as int), 30nat,
{
    reveal(spec_statement_list);
    reveal(spec_statement);
    let ghost tokens = context@.tokens;
    let ghost start = context@.position as int;
    let ghost goal = spec_statement_list(tokens, start);
    let mut statements: Vec<StatementNode<'b>> = Vec::new();
    proof {
        lemma_models_empty(statements@);
        lemma_prefixed_start(spec_statement_list(tokens, start));
    }
    loop
        invariant
            context@.tokens == tokens,
            context@.position >= start,
            tokens == old(context)@.tokens,
            start == old(context)@.position,
            goal == spec_statement_list(tokens, start),
            goal == prefixed(
                models(statements@),
                (context@.position - start) as nat,
                spec_statement_list(tokens, context@.position as int),
            ),
        decreases tokens_left(tokens, context@.position as int),
    {
        reveal(spec_statement_list);
        reveal(spec_statement);
        let ghost position = context@.position as int;
        let ghost before = models(statements@);
        if consume_punctuator(context, PunctuatorKind::RightCurlyBracket) {
            proof {
                assert(before + Seq::<StatementView>::empty() =~= before);
            }
            return Ok(statements);
        }
        if let Token::End = context.peek(0) {
            return Err(
                ParseError::ExpectedToken(TokenKind::Punctuator(PunctuatorKind::RightCurlyBracket)),
            );
        }
        let next = match statement(context) {
            Ok(node) => node,
            Err(error) => {
                return Err(error);
            },
        };
        proof {
            lemma_models_push(statements@, next);
            lemma_prefixed_step(
                before,
                (position - start) as nat,
                next@,
                (context@.position - position) as nat,
                spec_statement_list(tokens, context@.position as int),
            );
        }
        statements.push(next);
    }
}

/// Parses `return` and the expression after it, if `return` is there.
pub fn return_statement<'a, 'b>(context: &'a mut ParseContext<'b>) -> (result: Result<
    Option<StatementNode<'b>>,
    ParseError,
>)
    ensures
        agrees(
            result,
            old(context)@,
            final(context)@,
            spec_return_statement(old(context)@.tokens, old(context)@.position as int),
        ),
        moves_when_present(result, old(context)@, final(context)@),
{
    reveal(spec_return_statement);
    if !consume_keyword(context, KeywordKind::Return) {
        return Ok(None);
    }
    match expression(context) {
        Ok(content) => Ok(Some(StatementNode::ReturnStatement(Box::new(content)))),
        Err(error) => Err(error),
    }
}

/// Parses `break` and the `;` after it, if `break` is there.
pub fn break_statement<'a, 'b>(context: &'a mut ParseContext<'b>) -> (result: Result<
    Option<StatementNode<'b>>,
    ParseError,
>)
    ensures
        agrees(
            result,
            old(context)@,
            final(context)@,
            spec_break_statement(old(context)@.tokens, old(context)@.position as int),
        ),
        moves_when_present(result, old(context)@, final(context)@),
{
    reveal(spec_break_statement);
    if !consume_keyword(context, KeywordKind::Break) {
        return Ok(None);
    }
    match expect_punctuator(context, PunctuatorKind::Semicolon) {
        Ok(_) => Ok(Some(StatementNode::BreakStatement)),
        Err(error) => Err(error),
    }
}

/// Parses `continue` and the `;` after it, if `continue` is there.
pub fn continue_statement<'a, 'b>(context: &'a mut ParseContext<'b>) -> (result: Result<
    Option<StatementNode<'b>>,
    ParseError,
>)
    ensures
        agrees(
            result,
            old(context)@,
            final(context)@,
            spec_continue_statement(old(context)@.tokens, old(context)@.position as int),
        ),
        moves_when_present(result, old(context)@, final(context)@),
{
    reveal(spec_continue_statement);
    if !consume_keyword(context, KeywordKind::Continue) {
        return Ok(None);
    }
    match expect_punctuator(context, PunctuatorKind::Semicolon) {
        Ok(_) => Ok(Some(StatementNode::ContinueStatement)),
        Err(error) => Err(error),
    }
}

/// Parses `goto` and the label after it, if `goto` is there.
pub fn goto_statement<'a, 'b>(context: &'a mut ParseContext<'b>) -> (result: Result<
    Option<StatementNode<'b>>,
    ParseError,
>)
    ensures
        agrees(
            result,
            old(context)@,
            final(context)@,
            spec_goto_statement(old(context)@.tokens, old(context)@.position as int),
        ),
        moves_when_present(result, old(context)@, final(context)@),
{
    reveal(spec_goto_statement);
    if !consume_keyword(context, KeywordKind::Goto) {
        return Ok(None);
    }
    match expect_identifier(context) {
        Ok(label) => Ok(Some(StatementNode::GotoStatement(label))),
        Err(error) => Err(error),
    }
}

} // verus!
