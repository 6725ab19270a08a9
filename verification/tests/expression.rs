use c_frontend::parser::expression::{
    add, arguments, assign, binary, binary_operator, bitwise_and, bitwise_exclusive_or,
    bitwise_inclusive_or, conditional, equality, expression, literal, logical_and, logical_or,
    multiply, operator_row, postfix, prefix_operator, primary, relational, shift, unary,
    BinaryOperatorKind, ExpressionNode, Immediate, TernaryOperatorKind, UnaryOperatorKind,
    BINARY_LEVELS,
};
use c_frontend::parser::util::{ParseContext, ParseError, TokenKind};
use c_frontend::tokenizer::{tokenize, PunctuatorKind, Token};

type Node = ExpressionNode<'static>;

fn tokens_of(source: &'static str) -> &'static [Token<'static>] {
    Box::leak(tokenize(source).unwrap().into_boxed_slice())
}

/// The expression that `source` starts with and the number of tokens it takes.
fn parse(source: &'static str) -> Result<(Node, usize), ParseError> {
    let mut context = ParseContext::new(tokens_of(source));
    let node = expression(&mut context)?;
    Ok((node, context.position()))
}

/// The expression that `source` is, all of it.
fn whole(source: &'static str) -> Node {
    let tokens = tokens_of(source);
    let mut context = ParseContext::new(tokens);
    let node = expression(&mut context).unwrap();
    assert_eq!(context.position(), tokens.len() - 1);
    node
}

fn failure(source: &'static str) -> (ParseError, usize) {
    let mut context = ParseContext::new(tokens_of(source));
    let error = expression(&mut context).unwrap_err();
    (error, context.position())
}

fn number(value: i32) -> Node {
    ExpressionNode::Immediate(Immediate::Number(value))
}

fn name(text: &'static str) -> Node {
    ExpressionNode::Identifier(text)
}

fn binary_node(kind: BinaryOperatorKind, lhs: Node, rhs: Node) -> Node {
    ExpressionNode::BinaryOperator { kind, lhs: Box::new(lhs), rhs: Box::new(rhs) }
}

fn unary_node(kind: UnaryOperatorKind<'static>, operand: Node) -> Node {
    ExpressionNode::UnaryOperator { kind, operand: Box::new(operand) }
}

fn ternary(first: Node, second: Node, third: Node) -> Node {
    ExpressionNode::TernaryOperator {
        kind: TernaryOperatorKind::Conditional,
        first: Box::new(first),
        second: Box::new(second),
        third: Box::new(third),
    }
}

fn call(operand: Node, arguments: Vec<Node>) -> Node {
    unary_node(UnaryOperatorKind::FunctionCall(arguments), operand)
}

fn missing(kind: PunctuatorKind) -> ParseError {
    ParseError::ExpectedToken(TokenKind::Punctuator(kind))
}

use BinaryOperatorKind::{
    Add, Assign, BitwiseAnd, BitwiseOr, BitwiseXor, Comma, Div, Equal, LeftShift, LessThan,
    LessThanEqual, LogicalAnd, LogicalOr, Mod, Mul, NotEqual, RightShift, Sub,
};

#[test]
fn literals_are_immediates() {
    assert_eq!(whole("42"), number(42));
    assert_eq!(whole("'c'"), ExpressionNode::Immediate(Immediate::Char('c')));
    assert_eq!(whole("\"text\""), ExpressionNode::Immediate(Immediate::String("text")));
}

#[test]
fn an_identifier_is_an_expression() {
    assert_eq!(whole("counter"), name("counter"));
}

#[test]
fn sums_group_to_the_left() {
    assert_eq!(
        whole("1 + 2 + 3 - 1"),
        binary_node(
            Sub,
            binary_node(Add, binary_node(Add, number(1), number(2)), number(3)),
            number(1)
        )
    );
}

#[test]
fn products_bind_tighter_than_sums() {
    assert_eq!(
        whole("1 + 2 * 3"),
        binary_node(Add, number(1), binary_node(Mul, number(2), number(3)))
    );
    assert_eq!(
        whole("1 * 2 + 3"),
        binary_node(Add, binary_node(Mul, number(1), number(2)), number(3))
    );
}

#[test]
fn round_brackets_group() {
    assert_eq!(
        whole("(1 + 2) * 3"),
        binary_node(Mul, binary_node(Add, number(1), number(2)), number(3))
    );
    assert_eq!(whole("((x))"), name("x"));
}

#[test]
fn greater_than_is_less_than_with_operands_exchanged() {
    assert_eq!(whole("a > b"), whole("b < a"));
    assert_eq!(whole("a > b"), binary_node(LessThan, name("b"), name("a")));
    assert_eq!(whole("a >= b"), whole("b <= a"));
    assert_eq!(whole("a >= b"), binary_node(LessThanEqual, name("b"), name("a")));
    assert_eq!(whole("a < b"), binary_node(LessThan, name("a"), name("b")));
    assert_eq!(whole("a <= b"), binary_node(LessThanEqual, name("a"), name("b")));
}

#[test]
fn a_chain_of_comparisons_folds_from_the_left() {
    assert_eq!(
        whole("a < b > c"),
        binary_node(LessThan, name("c"), binary_node(LessThan, name("a"), name("b")))
    );
}

#[test]
fn conditional_nests_to_the_right() {
    assert_eq!(
        whole("x ? 1 : y ? 2 : 3"),
        ternary(name("x"), number(1), ternary(name("y"), number(2), number(3)))
    );
}

#[test]
fn the_middle_of_a_conditional_is_a_full_expression() {
    assert_eq!(
        whole("x ? 1 , 2 : 3"),
        ternary(name("x"), binary_node(Comma, number(1), number(2)), number(3))
    );
}

#[test]
fn assignment_groups_to_the_right() {
    assert_eq!(
        whole("a = b = c"),
        binary_node(Assign, name("a"), binary_node(Assign, name("b"), name("c")))
    );
}

#[test]
fn comma_groups_to_the_left_and_binds_loosest() {
    assert_eq!(
        whole("a = 1, b, c"),
        binary_node(
            Comma,
            binary_node(Comma, binary_node(Assign, name("a"), number(1)), name("b")),
            name("c")
        )
    );
}

#[test]
fn every_binary_level_in_its_place() {
    assert_eq!(
        whole("a || b && c | d ^ e & f == g < h << i + j * k"),
        binary_node(
            LogicalOr,
            name("a"),
            binary_node(
                LogicalAnd,
                name("b"),
                binary_node(
                    BitwiseOr,
                    name("c"),
                    binary_node(
                        BitwiseXor,
                        name("d"),
                        binary_node(
                            BitwiseAnd,
                            name("e"),
                            binary_node(
                                Equal,
                                name("f"),
                                binary_node(
                                    LessThan,
                                    name("g"),
                                    binary_node(
                                        LeftShift,
                                        name("h"),
                                        binary_node(
                                            Add,
                                            name("i"),
                                            binary_node(Mul, name("j"), name("k"))
                                        )
                                    )
                                )
                            )
                        )
                    )
                )
            )
        )
    );
}

#[test]
fn operators_of_one_level_group_to_the_left() {
    assert_eq!(
        whole("a / b % c * d"),
        binary_node(
            Mul,
            binary_node(Mod, binary_node(Div, name("a"), name("b")), name("c")),
            name("d")
        )
    );
    assert_eq!(
        whole("a >> b << c"),
        binary_node(LeftShift, binary_node(RightShift, name("a"), name("b")), name("c"))
    );
    assert_eq!(
        whole("a != b == c"),
        binary_node(Equal, binary_node(NotEqual, name("a"), name("b")), name("c"))
    );
}

#[test]
fn prefix_operators_apply_innermost_last() {
    assert_eq!(
        whole("!~&*x"),
        unary_node(
            UnaryOperatorKind::LogicalNot,
            unary_node(
                UnaryOperatorKind::BitwiseNot,
                unary_node(
                    UnaryOperatorKind::Reference,
                    unary_node(UnaryOperatorKind::Dereference, name("x"))
                )
            )
        )
    );
}

#[test]
fn prefix_operators_bind_tighter_than_binary_ones() {
    assert_eq!(
        whole("!a * *b"),
        binary_node(
            Mul,
            unary_node(UnaryOperatorKind::LogicalNot, name("a")),
            unary_node(UnaryOperatorKind::Dereference, name("b"))
        )
    );
}

#[test]
fn postfix_binds_tighter_than_prefix() {
    assert_eq!(
        whole("*f(1)"),
        unary_node(UnaryOperatorKind::Dereference, call(name("f"), vec![number(1)]))
    );
}

#[test]
fn a_call_holds_its_arguments() {
    assert_eq!(whole("f()"), call(name("f"), vec![]));
    assert_eq!(whole("f(1)"), call(name("f"), vec![number(1)]));
    assert_eq!(
        whole("f(1, x + 2, g(3))"),
        call(
            name("f"),
            vec![number(1), binary_node(Add, name("x"), number(2)), call(name("g"), vec![number(3)])]
        )
    );
}

#[test]
fn an_argument_is_an_assignment() {
    assert_eq!(
        whole("f(a = 1, (b, c))"),
        call(
            name("f"),
            vec![binary_node(Assign, name("a"), number(1)), binary_node(Comma, name("b"), name("c"))]
        )
    );
}

#[test]
fn calls_chain_from_the_left() {
    assert_eq!(whole("f(1)(2)"), call(call(name("f"), vec![number(1)]), vec![number(2)]));
}

#[test]
fn a_subscript_is_a_sum() {
    assert_eq!(whole("a[i]"), binary_node(Add, name("a"), name("i")));
    assert_eq!(
        whole("a[i][j + 1]"),
        binary_node(
            Add,
            binary_node(Add, name("a"), name("i")),
            binary_node(Add, name("j"), number(1))
        )
    );
}

#[test]
fn increment_assigns_the_sum_with_one() {
    assert_eq!(
        whole("x++"),
        binary_node(Assign, name("x"), binary_node(Add, name("x"), number(1)))
    );
}

#[test]
fn decrement_assigns_the_difference_with_one() {
    assert_eq!(
        whole("x--"),
        binary_node(Assign, name("x"), binary_node(Sub, name("x"), number(1)))
    );
}

#[test]
fn increment_of_a_subscript_holds_the_operand_twice() {
    let element = || binary_node(Add, name("a"), name("i"));
    assert_eq!(
        whole("a[i]++"),
        binary_node(Assign, element(), binary_node(Add, element(), number(1)))
    );
    let arguments = || call(name("f"), vec![number(1), name("y")]);
    assert_eq!(
        whole("f(1, y)--"),
        binary_node(Assign, arguments(), binary_node(Sub, arguments(), number(1)))
    );
}

#[test]
fn what_follows_an_expression_is_not_read() {
    assert_eq!(parse("1 + 2 ; 3"), Ok((binary_node(Add, number(1), number(2)), 3)));
    assert_eq!(parse("x y"), Ok((name("x"), 1)));
    assert_eq!(parse("x )"), Ok((name("x"), 1)));
}

#[test]
fn a_missing_operand_is_a_missing_expression() {
    assert_eq!(failure(""), (ParseError::ExpectedExpression, 0));
    assert_eq!(failure("1 +"), (ParseError::ExpectedExpression, 2));
    assert_eq!(failure("1 + ;"), (ParseError::ExpectedExpression, 2));
    assert_eq!(failure("!"), (ParseError::ExpectedExpression, 1));
    assert_eq!(failure("( )"), (ParseError::ExpectedExpression, 1));
    assert_eq!(failure("+ 1"), (ParseError::ExpectedExpression, 0));
    assert_eq!(failure("x = "), (ParseError::ExpectedExpression, 2));
    assert_eq!(failure("x , "), (ParseError::ExpectedExpression, 2));
    assert_eq!(failure("if"), (ParseError::ExpectedExpression, 0));
}

#[test]
fn a_missing_closing_bracket_is_reported() {
    assert_eq!(failure("(1 + 2"), (missing(PunctuatorKind::RightRoundBracket), 4));
    assert_eq!(failure("(1 + 2 ;"), (missing(PunctuatorKind::RightRoundBracket), 4));
    assert_eq!(failure("a[1"), (missing(PunctuatorKind::RightSquareBracket), 3));
    assert_eq!(failure("f(1, 2"), (missing(PunctuatorKind::RightRoundBracket), 5));
    assert_eq!(failure("f(1 2)"), (missing(PunctuatorKind::RightRoundBracket), 3));
}

#[test]
fn a_missing_colon_is_reported() {
    assert_eq!(failure("x ? 1"), (missing(PunctuatorKind::Colon), 3));
    assert_eq!(failure("x ? 1 ; 2"), (missing(PunctuatorKind::Colon), 3));
}

#[test]
fn the_first_error_is_the_one_reported() {
    assert_eq!(failure("(1 + ) * ("), (ParseError::ExpectedExpression, 3));
    assert_eq!(failure("f(1, ) ]"), (ParseError::ExpectedExpression, 4));
}

#[test]
fn literal_reads_a_literal_only() {
    let tokens = tokens_of("7 x");
    let mut context = ParseContext::new(tokens);
    assert_eq!(literal(&mut context), Ok(number(7)));
    assert_eq!(context.position(), 1);
    assert_eq!(literal(&mut context), Err(ParseError::ExpectedLiteral));
    assert_eq!(context.position(), 1);
}

#[test]
fn primary_reads_no_operator() {
    let mut context = ParseContext::new(tokens_of("1 + 2"));
    assert_eq!(primary(&mut context), Ok(number(1)));
    assert_eq!(context.position(), 1);
    let mut context = ParseContext::new(tokens_of("(1 + 2) * 3"));
    assert_eq!(primary(&mut context), Ok(binary_node(Add, number(1), number(2))));
    assert_eq!(context.position(), 5);
}

#[test]
fn each_level_reads_its_operators_and_tighter_ones() {
    let source = "a * b + c << d < e == f & g ^ h | i && j || k ? l : m = n , o";
    let read = |level: fn(&mut ParseContext<'static>) -> Result<Node, ParseError>| {
        let mut context = ParseContext::new(tokens_of(source));
        level(&mut context).unwrap();
        context.position()
    };
    assert_eq!(read(primary), 1);
    assert_eq!(read(postfix), 1);
    assert_eq!(read(unary), 1);
    assert_eq!(read(multiply), 3);
    assert_eq!(read(add), 5);
    assert_eq!(read(shift), 7);
    assert_eq!(read(relational), 9);
    assert_eq!(read(equality), 11);
    assert_eq!(read(bitwise_and), 13);
    assert_eq!(read(bitwise_exclusive_or), 15);
    assert_eq!(read(bitwise_inclusive_or), 17);
    assert_eq!(read(logical_and), 19);
    assert_eq!(read(logical_or), 21);
    assert_eq!(read(conditional), 25);
    assert_eq!(read(assign), 27);
    assert_eq!(read(expression), 29);
}

#[test]
fn binary_with_a_level_is_the_named_level() {
    let source = "a * b + c << d";
    for (level, expected) in [(9u8, 3usize), (8, 5), (7, 7), (0, 7), (BINARY_LEVELS, 1)] {
        let mut context = ParseContext::new(tokens_of(source));
        binary(&mut context, level).unwrap();
        assert_eq!(context.position(), expected);
    }
}

#[test]
fn arguments_reads_up_to_the_closing_bracket() {
    let mut context = ParseContext::new(tokens_of("1, 2) + 3"));
    assert_eq!(arguments(&mut context), Ok(vec![number(1), number(2)]));
    assert_eq!(context.position(), 4);
    let mut context = ParseContext::new(tokens_of(") + 3"));
    assert_eq!(arguments(&mut context), Ok(vec![]));
    assert_eq!(context.position(), 1);
}

#[test]
fn the_operator_table() {
    assert_eq!(operator_row(PunctuatorKind::DoublePipelines), Some((0, LogicalOr, false)));
    assert_eq!(operator_row(PunctuatorKind::DoubleAmpersands), Some((1, LogicalAnd, false)));
    assert_eq!(operator_row(PunctuatorKind::Pipeline), Some((2, BitwiseOr, false)));
    assert_eq!(operator_row(PunctuatorKind::Hat), Some((3, BitwiseXor, false)));
    assert_eq!(operator_row(PunctuatorKind::Ampersand), Some((4, BitwiseAnd, false)));
    assert_eq!(operator_row(PunctuatorKind::DoubleEquals), Some((5, Equal, false)));
    assert_eq!(operator_row(PunctuatorKind::ExclamationEqual), Some((5, NotEqual, false)));
    assert_eq!(operator_row(PunctuatorKind::LessThan), Some((6, LessThan, false)));
    assert_eq!(operator_row(PunctuatorKind::GreaterThan), Some((6, LessThan, true)));
    assert_eq!(operator_row(PunctuatorKind::LessThanEqual), Some((6, LessThanEqual, false)));
    assert_eq!(operator_row(PunctuatorKind::GreaterThanEqual), Some((6, LessThanEqual, true)));
    assert_eq!(operator_row(PunctuatorKind::DoubleLessThans), Some((7, LeftShift, false)));
    assert_eq!(operator_row(PunctuatorKind::DoubleGreaterThans), Some((7, RightShift, false)));
    assert_eq!(operator_row(PunctuatorKind::Plus), Some((8, Add, false)));
    assert_eq!(operator_row(PunctuatorKind::Minus), Some((8, Sub, false)));
    assert_eq!(operator_row(PunctuatorKind::Star), Some((9, Mul, false)));
    assert_eq!(operator_row(PunctuatorKind::Slash), Some((9, Div, false)));
    assert_eq!(operator_row(PunctuatorKind::Percent), Some((9, Mod, false)));
    assert_eq!(operator_row(PunctuatorKind::Equal), None);
    assert_eq!(operator_row(PunctuatorKind::Commma), None);
    assert_eq!(operator_row(PunctuatorKind::Question), None);
    let rows = (0..54u8).filter(|rank| operator_row(PunctuatorKind::by_priority(*rank)).is_some());
    assert_eq!(rows.count(), 18);
}

#[test]
fn binary_operator_looks_at_one_level() {
    let plus = Token::Punctuator(PunctuatorKind::Plus);
    assert_eq!(binary_operator(8, plus), Some((Add, false)));
    assert_eq!(binary_operator(9, plus), None);
    assert_eq!(binary_operator(7, plus), None);
    assert_eq!(binary_operator(8, Token::Identifier("x")), None);
    assert_eq!(binary_operator(8, Token::End), None);
}

#[test]
fn prefix_operator_knows_four_operators() {
    let of = |kind| prefix_operator(Token::Punctuator(kind));
    assert_eq!(of(PunctuatorKind::Exclamation), Some(UnaryOperatorKind::LogicalNot));
    assert_eq!(of(PunctuatorKind::Tilde), Some(UnaryOperatorKind::BitwiseNot));
    assert_eq!(of(PunctuatorKind::Ampersand), Some(UnaryOperatorKind::Reference));
    assert_eq!(of(PunctuatorKind::Star), Some(UnaryOperatorKind::Dereference));
    assert_eq!(of(PunctuatorKind::Minus), None);
    assert_eq!(of(PunctuatorKind::Plus), None);
    assert_eq!(prefix_operator(Token::End), None);
}

#[test]
fn duplicate_gives_an_equal_tree() {
    for source in ["1", "x", "a + b * c", "f(1, g(x), y ? 1 : 2)", "!*p", "a[i]++"] {
        let node = whole(source);
        assert_eq!(node.duplicate(), node);
    }
    let nodes = vec![whole("1 + 2"), whole("f(x)")];
    assert_eq!(ExpressionNode::duplicate_all(&nodes), nodes);
}
