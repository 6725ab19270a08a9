//! Writing syntax trees as tokens, in their canonical forms.

use crate::parser::canonical::{
    binary_punctuator, canonical, canonical_arguments, prefix_punctuator, printable,
    printable_from, punctuator,
};
use crate::parser::canonical_statement::{
    canonical_statement, canonical_statements, renderable, renderable_from,
};
use crate::parser::expression::{
    lemma_call_model, BinaryOperatorKind, ExpressionNode, ExpressionView, Immediate,
    UnaryOperatorKind,
};
use crate::parser::statement::{lemma_compound_model, StatementNode};
use crate::parser::util::{lemma_models, models};
use crate::tokenizer::{token_views, KeywordKind, Literal, PunctuatorKind, Token, TokenView};
use vstd::prelude::*;

verus! {

/// The models of tokens after a push are the models before it with the model
/// of the new token at their end.
pub proof fn lemma_token_views_push(tokens: Seq<Token<'_>>, token: Token<'_>)
    ensures
        token_views(tokens.push(token)) == token_views(tokens) + seq![token@],
{
    assert(token_views(tokens.push(token)) =~= token_views(tokens) + seq![token@]);
}

/// Appends one token.
pub fn put<'a>(output: &mut Vec<Token<'a>>, token: Token<'a>)
    ensures
        token_views(final(output)@) == token_views(old(output)@) + seq![token@],
{
    proof {
        lemma_token_views_push(output@, token);
    }
    output.push(token);
}

/// The punctuator that the canonical form writes for a binary operator, if
/// it has one.
pub fn punctuator_of(kind: BinaryOperatorKind) -> (result: Option<PunctuatorKind>)
    ensures
        result == binary_punctuator(kind),
{
    match kind {
        BinaryOperatorKind::Add => Some(PunctuatorKind::Plus),
        BinaryOperatorKind::Sub => Some(PunctuatorKind::Minus),
        BinaryOperatorKind::Mul => Some(PunctuatorKind::Star),
        BinaryOperatorKind::Div => Some(PunctuatorKind::Slash),
        BinaryOperatorKind::Mod => Some(PunctuatorKind::Percent),
        BinaryOperatorKind::Dot => None,
        BinaryOperatorKind::LeftShift => Some(PunctuatorKind::DoubleLessThans),
        BinaryOperatorKind::RightShift => Some(PunctuatorKind::DoubleGreaterThans),
        BinaryOperatorKind::Equal => Some(PunctuatorKind::DoubleEquals),
        BinaryOperatorKind::NotEqual => Some(PunctuatorKind::ExclamationEqual),
        BinaryOperatorKind::LessThan => Some(PunctuatorKind::LessThan),
        BinaryOperatorKind::LessThanEqual => Some(PunctuatorKind::LessThanEqual),
        BinaryOperatorKind::LogicalAnd => Some(PunctuatorKind::DoubleAmpersands),
        BinaryOperatorKind::LogicalOr => Some(PunctuatorKind::DoublePipelines),
        BinaryOperatorKind::BitwiseAnd => Some(PunctuatorKind::Ampersand),
        BinaryOperatorKind::BitwiseXor => Some(PunctuatorKind::Hat),
        BinaryOperatorKind::BitwiseOr => Some(PunctuatorKind::Pipeline),
        BinaryOperatorKind::Assign => Some(PunctuatorKind::Equal),
        BinaryOperatorKind::Comma => Some(PunctuatorKind::Commma),
    }
}

impl<'a> ExpressionNode<'a> {
    /// Appends the canonical form of the expression to `output` and returns
    /// `true`; or returns `false`, with `output` in any state, where the
    /// expression is not printable.
    pub fn write_canonical(&self, output: &mut Vec<Token<'a>>) -> (written: bool)
        ensures
            written == printable(self@),
            written ==> token_views(final(output)@) == token_views(old(output)@) + canonical(self@),
        decreases self, 1nat,
    {
        reveal(printable);
        reveal(canonical);
        match self {
            ExpressionNode::TernaryOperator { .. } => self.write_ternary(output),
            ExpressionNode::BinaryOperator { .. } => self.write_binary(output),
            ExpressionNode::UnaryOperator { kind, .. } => match kind {
                UnaryOperatorKind::FunctionCall(_) => self.write_call(output),
                UnaryOperatorKind::Cast(_) => {
                    assert(kind@ is Cast);
                    assert(self@ matches ExpressionView::UnaryOperator { kind: found, .. }
                        && found == kind@);
                    assert(!printable(self@));
                    false
                },
                _ => self.write_prefix(output),
            },
            ExpressionNode::Immediate(value) => {
                let literal = match value {
                    Immediate::String(text) => Literal::String(text),
                    Immediate::Char(c) => Literal::Char(*c),
                    Immediate::Number(n) => Literal::Number(*n),
                };
                put(output, Token::Literal(literal));
                true
            },
            ExpressionNode::Identifier(name) => {
                put(output, Token::Identifier(name));
                true
            },
        }
    }

    /// [`ExpressionNode::write_canonical`] for a conditional expression.
    #[verifier::spinoff_prover]
    fn write_ternary(&self, output: &mut Vec<Token<'a>>) -> (written: bool)
        requires
            *self is TernaryOperator,
        ensures
            written == printable(self@),
            written ==> token_views(final(output)@) == token_views(old(output)@) + canonical(self@),
        decreases self, 0nat,
    {
        reveal(printable);
        reveal(canonical);
        let ghost before = token_views(output@);
        match self {
            ExpressionNode::TernaryOperator { kind, first, second, third } => {
                put(output, Token::Punctuator(PunctuatorKind::LeftRoundBracket));
                if !first.write_canonical(output) {
                    return false;
                }
                put(output, Token::Punctuator(PunctuatorKind::Question));
                if !second.write_canonical(output) {
                    return false;
                }
                put(output, Token::Punctuator(PunctuatorKind::Colon));
                if !third.write_canonical(output) {
                    return false;
                }
                put(output, Token::Punctuator(PunctuatorKind::RightRoundBracket));
                assert(token_views(output@) =~= before + canonical(self@));
                true
            },
            _ => false,
        }
    }

    /// [`ExpressionNode::write_canonical`] for a binary operator.
    #[verifier::spinoff_prover]
    fn write_binary(&self, output: &mut Vec<Token<'a>>) -> (written: bool)
        requires
            *self is BinaryOperator,
        ensures
            written == printable(self@),
            written ==> token_views(final(output)@) == token_views(old(output)@) + canonical(self@),
        decreases self, 0nat,
    {
        reveal(printable);
        reveal(canonical);
        let ghost before = token_views(output@);
        match self {
            ExpressionNode::BinaryOperator { kind, lhs, rhs } => {
                let operator = match punctuator_of(*kind) {
                    Some(operator) => operator,
                    None => {
                        return false;
                    },
                };
                put(output, Token::Punctuator(PunctuatorKind::LeftRoundBracket));
                if !lhs.write_canonical(output) {
                    return false;
                }
                put(output, Token::Punctuator(operator));
                if !rhs.write_canonical(output) {
                    return false;
                }
                put(output, Token::Punctuator(PunctuatorKind::RightRoundBracket));
                assert(token_views(output@) =~= before + canonical(self@));
                true
            },
            _ => false,
        }
    }

    /// [`ExpressionNode::write_canonical`] for a prefix operator.
    #[verifier::spinoff_prover]
    fn write_prefix(&self, output: &mut Vec<Token<'a>>) -> (written: bool)
        requires
            *self matches ExpressionNode::UnaryOperator { kind, .. } && !(kind is FunctionCall)
                && !(kind is Cast),
        ensures
            written == printable(self@),
            written ==> token_views(final(output)@) == token_views(old(output)@) + canonical(self@),
        decreases self, 0nat,
    {
        reveal(printable);
        reveal(canonical);
        let ghost before = token_views(output@);
        match self {
            ExpressionNode::UnaryOperator { kind, operand } => {
                let operator = match kind {
                    UnaryOperatorKind::LogicalNot => PunctuatorKind::Exclamation,
                    UnaryOperatorKind::BitwiseNot => PunctuatorKind::Tilde,
                    UnaryOperatorKind::Reference => PunctuatorKind::Ampersand,
                    _ => PunctuatorKind::Star,
                };
                assert(prefix_punctuator(kind@) == Some(operator));
                put(output, Token::Punctuator(PunctuatorKind::LeftRoundBracket));
                put(output, Token::Punctuator(operator));
                if !operand.write_canonical(output) {
                    return false;
                }
                put(output, Token::Punctuator(PunctuatorKind::RightRoundBracket));
                assert(token_views(output@) =~= before + canonical(self@));
                true
            },
            _ => false,
        }
    }

    /// [`ExpressionNode::write_canonical`] for a call.
    #[verifier::spinoff_prover]
    fn write_call(&self, output: &mut Vec<Token<'a>>) -> (written: bool)
        requires
            *self matches ExpressionNode::UnaryOperator { kind, .. } && kind is FunctionCall,
        ensures
            written == printable(self@),
            written ==> token_views(final(output)@) == token_views(old(output)@) + canonical(self@),
        decreases self, 0nat,
    {
        reveal(printable);
        reveal(canonical);
        reveal(printable_from);
        reveal(canonical_arguments);
        let ghost before = token_views(output@);
        match self {
            ExpressionNode::UnaryOperator { kind, operand } => match kind {
                UnaryOperatorKind::FunctionCall(arguments) => {
                    proof {
                        lemma_call_model(*arguments);
                    }
                    put(output, Token::Punctuator(PunctuatorKind::LeftRoundBracket));
                    if !operand.write_canonical(output) {
                        return false;
                    }
                    put(output, Token::Punctuator(PunctuatorKind::LeftRoundBracket));
                    if !Self::write_canonical_arguments(arguments, output) {
                        return false;
                    }
                    put(output, Token::Punctuator(PunctuatorKind::RightRoundBracket));
                    assert(token_views(output@) =~= before + canonical(self@));
                    true
                },
                _ => false,
            },
            _ => false,
        }
    }

    /// Appends the canonical form of the arguments of a call, up to and with
    /// the closing bracket of the call, to `output` and returns `true`; or
    /// returns `false`, with `output` in any state, where an argument is not
    /// printable.
    #[verifier::spinoff_prover]
    pub fn write_canonical_arguments(
        arguments: &Vec<ExpressionNode<'a>>,
        output: &mut Vec<Token<'a>>,
    ) -> (written: bool)
        ensures
            written == printable_from(models(arguments@), 0),
            written ==> token_views(final(output)@) == token_views(old(output)@)
                + canonical_arguments(models(arguments@), 0),
        decreases arguments, 0nat,
    {
        reveal(printable_from);
        reveal(canonical_arguments);
        reveal(printable);
        let ghost views = models(arguments@);
        let ghost start = token_views(output@);
        proof {
            lemma_models(arguments@);
        }
        if arguments.len() == 0 {
            put(output, Token::Punctuator(PunctuatorKind::RightRoundBracket));
            return true;
        }
        let mut index: usize = 0;
        while index < arguments.len()
            invariant
                index <= arguments.len(),
                arguments.len() > 0,
                views == models(arguments@),
                views.len() == arguments@.len(),
                forall|at: int|
                    0 <= at < arguments@.len() ==> #[trigger] views[at] == arguments@[at]@,
                printable_from(views, 0) == printable_from(views, index as int),
                token_views(output@) + canonical_arguments(views, index as int) == start
                    + canonical_arguments(views, 0),
                start == token_views(old(output)@),
            decreases arguments.len() - index,
        {
            reveal(printable_from);
            reveal(canonical_arguments);
            reveal(printable);
            let ghost earlier = token_views(output@);
            proof {
                assert(decreases_to!(arguments => arguments@));
                assert(decreases_to!(arguments@ => arguments@[index as int]));
                assert(views[index as int] == arguments@[index as int]@);
            }
            if !arguments[index].write_canonical(output) {
                return false;
            }
            let separator = if index + 1 < arguments.len() {
                PunctuatorKind::Commma
            } else {
                PunctuatorKind::RightRoundBracket
            };
            put(output, Token::Punctuator(separator));
            proof {
                let rest = canonical_arguments(views, index + 1);
                assert(earlier + (canonical(views[index as int]) + (seq![punctuator(separator)]
                    + rest)) =~= ((earlier + canonical(views[index as int])) + seq![
                    punctuator(separator),
                ]) + rest);
            }
            index = index + 1;
        }
        proof {
            assert(token_views(output@) + Seq::<TokenView>::empty() =~= token_views(output@));
        }
        true
    }

    /// The canonical form of the expression, if the expression is printable.
    pub fn canonical_tokens(&self) -> (result: Option<Vec<Token<'a>>>)
        ensures
            result is Some == printable(self@),
            result matches Some(tokens) ==> token_views(tokens@) == canonical(self@),
    {
        let mut output: Vec<Token<'a>> = Vec::new();
        assert(token_views(output@) =~= Seq::<TokenView>::empty());
        if self.write_canonical(&mut output) {
            assert(Seq::<TokenView>::empty() + canonical(self@) =~= canonical(self@));
            Some(output)
        } else {
            None
        }
    }
}

impl<'a> StatementNode<'a> {
    /// Appends the canonical form of the statement to `output` and returns
    /// `true`; or returns `false`, with `output` in any state, where an
    /// expression of the statement is not printable.
    pub fn write_canonical(&self, output: &mut Vec<Token<'a>>) -> (written: bool)
        ensures
            written == renderable(self@),
            written ==> token_views(final(output)@) == token_views(old(output)@)
                + canonical_statement(self@),
        decreases self, 1nat,
    {
        match self {
            StatementNode::ExpressionStatement(_) => self.write_with_expression(output),
            StatementNode::ReturnStatement(_) => self.write_with_expression(output),
            StatementNode::IfStatement { .. } => self.write_governed(output),
            StatementNode::SwitchStatement { .. } => self.write_governed(output),
            StatementNode::WhileStatement { .. } => self.write_governed(output),
            StatementNode::DoWhileStatement { .. } => self.write_do(output),
            StatementNode::ForStatement { .. } => self.write_for(output),
            StatementNode::CompoundStatement(_) => self.write_compound(output),
            _ => self.write_simple(output),
        }
    }

    /// [`StatementNode::write_canonical`] for the statements without
    /// expressions and bodies.
    #[verifier::spinoff_prover]
    fn write_simple(&self, output: &mut Vec<Token<'a>>) -> (written: bool)
        requires
            *self is NullStatement || *self is LabeledStatement || *self is BreakStatement
                || *self is ContinueStatement || *self is GotoStatement,
        ensures
            written == renderable(self@),
            written ==> token_views(final(output)@) == token_views(old(output)@)
                + canonical_statement(self@),
    {
        reveal(renderable);
        reveal(canonical_statement);
        let ghost before = token_views(output@);
        let semicolon = Token::Punctuator(PunctuatorKind::Semicolon);
        match self {
            StatementNode::LabeledStatement(name) => {
                put(output, Token::Identifier(name));
                put(output, Token::Punctuator(PunctuatorKind::Colon));
            },
            StatementNode::BreakStatement => {
                put(output, Token::Keyword(KeywordKind::Break));
                put(output, semicolon);
            },
            StatementNode::ContinueStatement => {
                put(output, Token::Keyword(KeywordKind::Continue));
                put(output, semicolon);
            },
            StatementNode::GotoStatement(label) => {
                put(output, Token::Keyword(KeywordKind::Goto));
                put(output, Token::Identifier(label));
            },
            _ => {
                put(output, semicolon);
            },
        }
        assert(token_views(output@) =~= before + canonical_statement(self@));
        true
    }

    /// [`StatementNode::write_canonical`] for an expression statement and
    /// for `return`.
    #[verifier::spinoff_prover]
    fn write_with_expression(&self, output: &mut Vec<Token<'a>>) -> (written: bool)
        requires
            *self is ExpressionStatement || *self is ReturnStatement,
        ensures
            written == renderable(self@),
            written ==> token_views(final(output)@) == token_views(old(output)@)
                + canonical_statement(self@),
    {
        reveal(renderable);
        reveal(canonical_statement);
        let ghost before = token_views(output@);
        match self {
            StatementNode::ExpressionStatement(expression) => {
                if !expression.write_canonical(output) {
                    return false;
                }
                put(output, Token::Punctuator(PunctuatorKind::Semicolon));
            },
            StatementNode::ReturnStatement(value) => {
                put(output, Token::Keyword(KeywordKind::Return));
                if !value.write_canonical(output) {
                    return false;
                }
            },
            _ => {},
        }
        assert(token_views(output@) =~= before + canonical_statement(self@));
        true
    }

    /// [`StatementNode::write_canonical`] for `if`, `switch` and `while`.
    #[verifier::spinoff_prover]
    fn write_governed(&self, output: &mut Vec<Token<'a>>) -> (written: bool)
        requires
            *self is IfStatement || *self is SwitchStatement || *self is WhileStatement,
        ensures
            written == renderable(self@),
            written ==> token_views(final(output)@) == token_views(old(output)@)
                + canonical_statement(self@),
        decreases self, 0nat,
    {
        reveal(renderable);
        reveal(canonical_statement);
        let ghost before = token_views(output@);
        let (word, condition, body) = match self {
            StatementNode::IfStatement { condition, statement } => (
                KeywordKind::If,
                condition,
                statement,
            ),
            StatementNode::SwitchStatement { condition, statement } => (
                KeywordKind::Switch,
                condition,
                statement,
            ),
            StatementNode::WhileStatement { condition, statement } => (
                KeywordKind::While,
                condition,
                statement,
            ),
            _ => {
                return false;
            },
        };
        put(output, Token::Keyword(word));
        put(output, Token::Punctuator(PunctuatorKind::LeftRoundBracket));
        if !condition.write_canonical(output) {
            return false;
        }
        put(output, Token::Punctuator(PunctuatorKind::RightRoundBracket));
        if !body.write_canonical(output) {
            return false;
        }
        assert(token_views(output@) =~= before + canonical_statement(self@));
        true
    }

    /// [`StatementNode::write_canonical`] for `do`.
    #[verifier::spinoff_prover]
    fn write_do(&self, output: &mut Vec<Token<'a>>) -> (written: bool)
        requires
            *self is DoWhileStatement,
        ensures
            written == renderable(self@),
            written ==> token_views(final(output)@) == token_views(old(output)@)
                + canonical_statement(self@),
        decreases self, 0nat,
    {
        reveal(renderable);
        reveal(canonical_statement);
        let ghost before = token_views(output@);
        match self {
            StatementNode::DoWhileStatement { condition, statement } => {
                put(output, Token::Keyword(KeywordKind::Do));
                if !statement.write_canonical(output) {
                    return false;
                }
                put(output, Token::Keyword(KeywordKind::While));
                put(output, Token::Punctuator(PunctuatorKind::LeftRoundBracket));
                if !condition.write_canonical(output) {
                    return false;
                }
                put(output, Token::Punctuator(PunctuatorKind::RightRoundBracket));
                assert(token_views(output@) =~= before + canonical_statement(self@));
                true
            },
            _ => false,
        }
    }

    /// [`StatementNode::write_canonical`] for `for`.
    #[verifier::spinoff_prover]
    fn write_for(&self, output: &mut Vec<Token<'a>>) -> (written: bool)
        requires
            *self is ForStatement,
        ensures
            written == renderable(self@),
            written ==> token_views(final(output)@) == token_views(old(output)@)
                + canonical_statement(self@),
        decreases self, 0nat,
    {
        reveal(renderable);
        reveal(canonical_statement);
        let ghost before = token_views(output@);
        match self {
            StatementNode::ForStatement { initialization, condition, afterthought, statement } => {
                put(output, Token::Keyword(KeywordKind::For));
                put(output, Token::Punctuator(PunctuatorKind::LeftRoundBracket));
                if !initialization.write_canonical(output) {
                    return false;
                }
                put(output, Token::Punctuator(PunctuatorKind::Semicolon));
                if !condition.write_canonical(output) {
                    return false;
                }
                put(output, Token::Punctuator(PunctuatorKind::Semicolon));
                if !afterthought.write_canonical(output) {
                    return false;
                }
                put(output, Token::Punctuator(PunctuatorKind::RightRoundBracket));
                if !statement.write_canonical(output) {
                    return false;
                }
                assert(token_views(output@) =~= before + canonical_statement(self@));
                true
            },
            _ => false,
        }
    }

    /// [`StatementNode::write_canonical`] for a compound statement.
    #[verifier::spinoff_prover]
    fn write_compound(&self, output: &mut Vec<Token<'a>>) -> (written: bool)
        requires
            *self is CompoundStatement,
        ensures
            written == renderable(self@),
            written ==> token_views(final(output)@) == token_views(old(output)@)
                + canonical_statement(self@),
        decreases self, 0nat,
    {
        reveal(renderable);
        reveal(canonical_statement);
        reveal(renderable_from);
        reveal(canonical_statements);
        let ghost before = token_views(output@);
        match self {
            StatementNode::CompoundStatement(statements) => {
                proof {
                    lemma_compound_model(*statements);
                }
                put(output, Token::Punctuator(PunctuatorKind::LeftCurlyBracket));
                if !Self::write_canonical_list(statements, output) {
                    return false;
                }
                assert(token_views(output@) =~= before + canonical_statement(self@));
                true
            },
            _ => false,
        }
    }

    /// Appends the canonical form of the statements of a compound
    /// statement, up to and with its closing bracket, to `output` and
    /// returns `true`; or returns `false`, with `output` in any state, where
    /// an expression of a statement is not printable.
    #[verifier::spinoff_prover]
    pub fn write_canonical_list(
        statements: &Vec<StatementNode<'a>>,
        output: &mut Vec<Token<'a>>,
    ) -> (written: bool)
        ensures
            written == renderable_from(models(statements@), 0),
            written ==> token_views(final(output)@) == token_views(old(output)@)
                + canonical_statements(models(statements@), 0),
        decreases statements, 0nat,
    {
        reveal(renderable_from);
        reveal(canonical_statements);
        reveal(renderable);
        let ghost views = models(statements@);
        let ghost start = token_views(output@);
        proof {
            lemma_models(statements@);
        }
        let mut index: usize = 0;
        while index < statements.len()
            invariant
                index <= statements.len(),
                views == models(statements@),
                views.len() == statements@.len(),
                forall|at: int|
                    0 <= at < statements@.len() ==> #[trigger] views[at] == statements@[at]@,
                renderable_from(views, 0) == renderable_from(views, index as int),
                token_views(output@) + canonical_statements(views, index as int) == start
                    + canonical_statements(views, 0),
                start == token_views(old(output)@),
            decreases statements.len() - index,
        {
            reveal(renderable_from);
            reveal(canonical_statements);
            reveal(renderable);
            let ghost earlier = token_views(output@);
            proof {
                assert(decreases_to!(statements => statements@));
                assert(decreases_to!(statements@ => statements@[index as int]));
                assert(views[index as int] == statements@[index as int]@);
            }
            if !statements[index].write_canonical(output) {
                return false;
            }
            proof {
                let rest = canonical_statements(views, index + 1);
                assert(earlier + (canonical_statement(views[index as int]) + rest) =~= (earlier
                    + canonical_statement(views[index as int])) + rest);
            }
            index = index + 1;
        }
        let ghost earlier = token_views(output@);
        put(output, Token::Punctuator(PunctuatorKind::RightCurlyBracket));
        true
    }

    /// The canonical form of the statement, if its expressions are
    /// printable.
    pub fn canonical_tokens(&self) -> (result: Option<Vec<Token<'a>>>)
        ensures
            result is Some == renderable(self@),
            result matches Some(tokens) ==> token_views(tokens@) == canonical_statement(self@),
    {
        let mut output: Vec<Token<'a>> = Vec::new();
        assert(token_views(output@) =~= Seq::<TokenView>::empty());
        if self.write_canonical(&mut output) {
            assert(Seq::<TokenView>::empty() + canonical_statement(self@) =~= canonical_statement(
                self@,
            ));
            Some(output)
        } else {
            None
        }
    }
}

} // verus!
