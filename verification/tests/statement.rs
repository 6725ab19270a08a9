use c_frontend::parser::expression::{BinaryOperatorKind, ExpressionNode, Immediate};
use c_frontend::parser::statement::{
    break_statement, can_start_expression, compound_statement, condition, continue_statement,
    do_while_statement, expression_statement, for_clauses, for_statement, goto_statement,
    governed, if_statement, labeled_statement, null_statement, return_statement, statement,
    statement_list, switch_statement, while_statement, StatementNode,
};
use c_frontend::parser::util::{ParseContext, ParseError, TokenKind};
use c_frontend::parser::parse;
use c_frontend::tokenizer::{tokenize, KeywordKind, Literal, PunctuatorKind, Token};

type Expression = ExpressionNode<'static>;
type Statement = StatementNode<'static>;

fn tokens_of(source: &'static str) -> &'static [Token<'static>] {
    Box::leak(tokenize(source).unwrap().into_boxed_slice())
}

/// The statement that `source` is, all of it.
fn whole(source: &'static str) -> Statement {
    let tokens = tokens_of(source);
    let mut context = ParseContext::new(tokens);
    let node = statement(&mut context).unwrap();
    assert_eq!(context.position(), tokens.len() - 1);
    node
}

fn failure(source: &'static str) -> (ParseError, usize) {
    let mut context = ParseContext::new(tokens_of(source));
    let error = statement(&mut context).unwrap_err();
    (error, context.position())
}

fn number(value: i32) -> Expression {
    ExpressionNode::Immediate(Immediate::Number(value))
}

fn name(text: &'static str) -> Expression {
    ExpressionNode::Identifier(text)
}

fn binary(kind: BinaryOperatorKind, lhs: Expression, rhs: Expression) -> Expression {
    ExpressionNode::BinaryOperator { kind, lhs: Box::new(lhs), rhs: Box::new(rhs) }
}

fn missing(kind: PunctuatorKind) -> ParseError {
    ParseError::ExpectedToken(TokenKind::Punctuator(kind))
}

fn one_less_than_two() -> Expression {
    binary(BinaryOperatorKind::LessThan, number(1), number(2))
}

#[test]
fn a_semicolon_is_the_null_statement() {
    assert_eq!(whole(";"), StatementNode::NullStatement);
}

#[test]
fn an_expression_with_a_semicolon_is_a_statement() {
    assert_eq!(
        whole("x = 1;"),
        StatementNode::ExpressionStatement(binary(BinaryOperatorKind::Assign, name("x"), number(1)))
    );
    assert_eq!(whole("(1);"), StatementNode::ExpressionStatement(number(1)));
    assert_eq!(whole("x;"), StatementNode::ExpressionStatement(name("x")));
}

#[test]
fn if_holds_a_condition_and_a_statement() {
    assert_eq!(
        whole("if (1 < 2) ;"),
        StatementNode::IfStatement {
            condition: Box::new(one_less_than_two()),
            statement: Box::new(StatementNode::NullStatement),
        }
    );
}

#[test]
fn switch_holds_a_condition_and_a_statement() {
    assert_eq!(
        whole("switch (x) { }"),
        StatementNode::SwitchStatement {
            condition: Box::new(name("x")),
            statement: Box::new(StatementNode::CompoundStatement(vec![])),
        }
    );
}

#[test]
fn while_holds_a_condition_and_a_statement() {
    assert_eq!(
        whole("while (1 < 2) x;"),
        StatementNode::WhileStatement {
            condition: Box::new(one_less_than_two()),
            statement: Box::new(StatementNode::ExpressionStatement(name("x"))),
        }
    );
}

#[test]
fn do_holds_a_statement_and_a_condition() {
    assert_eq!(
        whole("do x; while (1 < 2)"),
        StatementNode::DoWhileStatement {
            condition: Box::new(one_less_than_two()),
            statement: Box::new(StatementNode::ExpressionStatement(name("x"))),
        }
    );
}

#[test]
fn for_holds_three_expressions_and_a_statement() {
    assert_eq!(
        whole("for (i = 0; i < 2; i++) ;"),
        StatementNode::ForStatement {
            initialization: Box::new(binary(BinaryOperatorKind::Assign, name("i"), number(0))),
            condition: Box::new(binary(BinaryOperatorKind::LessThan, name("i"), number(2))),
            afterthought: Box::new(binary(
                BinaryOperatorKind::Assign,
                name("i"),
                binary(BinaryOperatorKind::Add, name("i"), number(1))
            )),
            statement: Box::new(StatementNode::NullStatement),
        }
    );
}

#[test]
fn for_needs_all_three_expressions() {
    assert_eq!(failure("for (;;) ;"), (ParseError::ExpectedExpression, 2));
    assert_eq!(failure("for (1;;) ;"), (ParseError::ExpectedExpression, 4));
    assert_eq!(failure("for (1;2;) ;"), (ParseError::ExpectedExpression, 6));
}

#[test]
fn a_compound_statement_holds_its_statements_in_order() {
    assert_eq!(whole("{ }"), StatementNode::CompoundStatement(vec![]));
    assert_eq!(
        whole("{ ; x; { break; } }"),
        StatementNode::CompoundStatement(vec![
            StatementNode::NullStatement,
            StatementNode::ExpressionStatement(name("x")),
            StatementNode::CompoundStatement(vec![StatementNode::BreakStatement]),
        ])
    );
}

#[test]
fn return_takes_an_expression_and_no_semicolon() {
    let tokens = tokens_of("return 0;");
    let mut context = ParseContext::new(tokens);
    assert_eq!(
        statement(&mut context),
        Ok(StatementNode::ReturnStatement(Box::new(number(0))))
    );
    assert_eq!(context.position(), 2);
    assert_eq!(
        whole("{ return 0; }"),
        StatementNode::CompoundStatement(vec![
            StatementNode::ReturnStatement(Box::new(number(0))),
            StatementNode::NullStatement,
        ])
    );
}

#[test]
fn return_without_an_expression_is_an_error() {
    assert_eq!(failure("return;"), (ParseError::ExpectedExpression, 1));
}

#[test]
fn break_and_continue_need_their_semicolon() {
    assert_eq!(whole("break;"), StatementNode::BreakStatement);
    assert_eq!(whole("continue;"), StatementNode::ContinueStatement);
    assert_eq!(failure("break"), (missing(PunctuatorKind::Semicolon), 1));
    assert_eq!(failure("continue }"), (missing(PunctuatorKind::Semicolon), 1));
}

#[test]
fn goto_takes_a_label_and_no_semicolon() {
    let tokens = tokens_of("goto out;");
    let mut context = ParseContext::new(tokens);
    assert_eq!(statement(&mut context), Ok(StatementNode::GotoStatement("out")));
    assert_eq!(context.position(), 2);
    assert_eq!(failure("goto 1"), (ParseError::ExpectedIdentifier, 1));
    assert_eq!(failure("goto"), (ParseError::ExpectedIdentifier, 1));
}

#[test]
fn an_identifier_with_a_colon_is_a_label() {
    assert_eq!(whole("out:"), StatementNode::LabeledStatement("out"));
    assert_eq!(
        whole("{ out: x; }"),
        StatementNode::CompoundStatement(vec![
            StatementNode::LabeledStatement("out"),
            StatementNode::ExpressionStatement(name("x")),
        ])
    );
}

#[test]
fn an_identifier_without_a_colon_starts_an_expression() {
    assert_eq!(
        whole("out + 1;"),
        StatementNode::ExpressionStatement(binary(BinaryOperatorKind::Add, name("out"), number(1)))
    );
    assert_eq!(
        whole("x ? y : z;"),
        StatementNode::ExpressionStatement(ExpressionNode::TernaryOperator {
            kind: c_frontend::parser::expression::TernaryOperatorKind::Conditional,
            first: Box::new(name("x")),
            second: Box::new(name("y")),
            third: Box::new(name("z")),
        })
    );
}

#[test]
fn statements_nest() {
    assert_eq!(
        whole("if (x) while (y) { do ; while (z) }"),
        StatementNode::IfStatement {
            condition: Box::new(name("x")),
            statement: Box::new(StatementNode::WhileStatement {
                condition: Box::new(name("y")),
                statement: Box::new(StatementNode::CompoundStatement(vec![
                    StatementNode::DoWhileStatement {
                        condition: Box::new(name("z")),
                        statement: Box::new(StatementNode::NullStatement),
                    }
                ])),
            }),
        }
    );
}

#[test]
fn the_sample_program_parses() {
    let product = binary(
        BinaryOperatorKind::Mul,
        binary(
            BinaryOperatorKind::Sub,
            binary(
                BinaryOperatorKind::Add,
                binary(BinaryOperatorKind::Add, number(1), number(2)),
                number(3),
            ),
            number(1),
        ),
        number(2),
    );
    assert_eq!(
        whole("if (1 > 0) { (1 + 2 + 3 - 1) * 2; }"),
        StatementNode::IfStatement {
            condition: Box::new(binary(BinaryOperatorKind::LessThan, number(0), number(1))),
            statement: Box::new(StatementNode::CompoundStatement(vec![
                StatementNode::ExpressionStatement(product)
            ])),
        }
    );
}

#[test]
fn a_missing_closing_bracket_of_a_condition_is_reported() {
    assert_eq!(failure("if (1 > 0 { }"), (missing(PunctuatorKind::RightRoundBracket), 5));
    let tokens = tokenize("if (1 > 0 { }").unwrap();
    assert_eq!(parse(&tokens), Err(missing(PunctuatorKind::RightRoundBracket)));
}

#[test]
fn a_missing_opening_bracket_of_a_condition_is_reported() {
    assert_eq!(failure("if x"), (missing(PunctuatorKind::LeftRoundBracket), 1));
    assert_eq!(failure("while 1"), (missing(PunctuatorKind::LeftRoundBracket), 1));
    assert_eq!(failure("switch"), (missing(PunctuatorKind::LeftRoundBracket), 1));
    assert_eq!(failure("for x"), (missing(PunctuatorKind::LeftRoundBracket), 1));
    assert_eq!(failure("do ; while x"), (missing(PunctuatorKind::LeftRoundBracket), 3));
}

#[test]
fn do_needs_while() {
    assert_eq!(
        failure("do ; until (x)"),
        (ParseError::ExpectedToken(TokenKind::Keyword(KeywordKind::While)), 2)
    );
}

#[test]
fn a_missing_semicolon_after_an_expression_is_reported() {
    assert_eq!(failure("x = 1"), (missing(PunctuatorKind::Semicolon), 3));
    assert_eq!(failure("x y"), (missing(PunctuatorKind::Semicolon), 1));
    assert_eq!(failure("for (1 2"), (missing(PunctuatorKind::Semicolon), 3));
}

#[test]
fn a_compound_statement_without_its_closing_bracket_is_reported() {
    assert_eq!(failure("{"), (missing(PunctuatorKind::RightCurlyBracket), 1));
    assert_eq!(failure("{ x; "), (missing(PunctuatorKind::RightCurlyBracket), 3));
    assert_eq!(failure("{ { } "), (missing(PunctuatorKind::RightCurlyBracket), 3));
}

#[test]
fn what_starts_no_statement_is_a_missing_statement() {
    assert_eq!(failure(""), (ParseError::ExpectedStatement, 0));
    assert_eq!(failure(")"), (ParseError::ExpectedStatement, 0));
    assert_eq!(failure("}"), (ParseError::ExpectedStatement, 0));
    assert_eq!(failure("else"), (ParseError::ExpectedStatement, 0));
    assert_eq!(failure("int x;"), (ParseError::ExpectedStatement, 0));
    assert_eq!(failure("+ 1;"), (ParseError::ExpectedStatement, 0));
    assert_eq!(failure("if (x)"), (ParseError::ExpectedStatement, 4));
    assert_eq!(failure("{ ) }"), (ParseError::ExpectedStatement, 1));
}

#[test]
fn statement_the_first_error_is_the_one_reported() {
    assert_eq!(failure("{ x = ; } )"), (ParseError::ExpectedExpression, 3));
    assert_eq!(failure("if (1 +) break"), (ParseError::ExpectedExpression, 4));
}

#[test]
fn parse_reads_one_statement() {
    let tokens = tokenize("x; y;").unwrap();
    let tree = parse(&tokens).unwrap();
    assert_eq!(*tree.root(), StatementNode::ExpressionStatement(name("x")));
    let tokens = tokenize("").unwrap();
    assert_eq!(parse(&tokens), Err(ParseError::ExpectedStatement));
    assert_eq!(parse(&[]), Err(ParseError::ExpectedStatement));
}

#[test]
fn a_statement_form_that_is_absent_reads_nothing() {
    type Form = fn(&mut ParseContext<'static>) -> Result<Option<Statement>, ParseError>;
    let forms: [(Form, &'static str); 13] = [
        (null_statement, ";"),
        (if_statement, "if (x) ;"),
        (switch_statement, "switch (x) ;"),
        (labeled_statement, "l :"),
        (while_statement, "while (x) ;"),
        (do_while_statement, "do ; while (x)"),
        (for_statement, "for (x; y; z) ;"),
        (compound_statement, "{ }"),
        (return_statement, "return x"),
        (break_statement, "break ;"),
        (continue_statement, "continue ;"),
        (goto_statement, "goto l"),
        (expression_statement, "x ;"),
    ];
    for (index, (form, source)) in forms.iter().enumerate() {
        let tokens = tokens_of(source);
        let mut context = ParseContext::new(tokens);
        let found = form(&mut context).unwrap();
        assert_eq!(found, Some(whole(source)));
        assert_eq!(context.position(), tokens.len() - 1);
        for (other, (_, other_source)) in forms.iter().enumerate() {
            if index == other || (*source == "x ;" && *other_source == "l :") {
                continue;
            }
            let mut context = ParseContext::new(tokens_of(other_source));
            assert_eq!(form(&mut context), Ok(None));
            assert_eq!(context.position(), 0);
        }
        let mut context = ParseContext::new(tokens_of(""));
        assert_eq!(form(&mut context), Ok(None));
    }
}

#[test]
fn condition_reads_an_expression_in_brackets() {
    let mut context = ParseContext::new(tokens_of("(1 < 2) x"));
    assert_eq!(condition(&mut context), Ok(one_less_than_two()));
    assert_eq!(context.position(), 5);
}

#[test]
fn governed_reads_a_condition_and_a_statement() {
    let mut context = ParseContext::new(tokens_of("(x) ; y"));
    assert_eq!(governed(&mut context), Ok((name("x"), StatementNode::NullStatement)));
    assert_eq!(context.position(), 4);
}

#[test]
fn for_clauses_reads_three_expressions() {
    let mut context = ParseContext::new(tokens_of("(1; x; 2) ;"));
    assert_eq!(for_clauses(&mut context), Ok((number(1), name("x"), number(2))));
    assert_eq!(context.position(), 7);
}

#[test]
fn statement_list_reads_up_to_the_closing_bracket() {
    let mut context = ParseContext::new(tokens_of("; x; } y"));
    assert_eq!(
        statement_list(&mut context),
        Ok(vec![StatementNode::NullStatement, StatementNode::ExpressionStatement(name("x"))])
    );
    assert_eq!(context.position(), 4);
}

#[test]
fn tokens_that_can_start_an_expression() {
    assert!(can_start_expression(Token::Identifier("x")));
    assert!(can_start_expression(Token::Literal(Literal::Number(1))));
    assert!(can_start_expression(Token::Punctuator(PunctuatorKind::LeftRoundBracket)));
    assert!(can_start_expression(Token::Punctuator(PunctuatorKind::Exclamation)));
    assert!(can_start_expression(Token::Punctuator(PunctuatorKind::Tilde)));
    assert!(can_start_expression(Token::Punctuator(PunctuatorKind::Ampersand)));
    assert!(can_start_expression(Token::Punctuator(PunctuatorKind::Star)));
    assert!(!can_start_expression(Token::Punctuator(PunctuatorKind::Plus)));
    assert!(!can_start_expression(Token::Punctuator(PunctuatorKind::Semicolon)));
    assert!(!can_start_expression(Token::Keyword(KeywordKind::If)));
    assert!(!can_start_expression(Token::End));
}
