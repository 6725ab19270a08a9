use c_frontend::parser::declaration::{
    declaration, AbstractDeclarator, Declaration, DeclarationSpecifier, Declarator,
    DirectAbstarctDeclarator, DirectDeclarator, InitDeclarator, ParameterDeclaration,
    ParameterTypeList, TypeSpecifier,
};
use c_frontend::parser::expression::{
    expression, BinaryOperatorKind, ExpressionNode, Immediate, Type, UnaryOperatorKind,
};
use c_frontend::parser::render::punctuator_of;
use c_frontend::parser::statement::{statement, StatementNode};
use c_frontend::parser::util::ParseContext;
use c_frontend::text::source_text;
use c_frontend::tokenizer::{tokenize, Literal, PunctuatorKind, Token};
use c_frontend::util::{vec_to_optional_non_empty_vec, Either};

fn leak(tokens: Vec<Token<'static>>) -> &'static [Token<'static>] {
    Box::leak(tokens.into_boxed_slice())
}

fn parse_expression(tokens: &'static [Token<'static>]) -> ExpressionNode<'static> {
    let mut context = ParseContext::new(tokens);
    let node = expression(&mut context).unwrap();
    assert_eq!(context.position(), tokens.len() - 1);
    node
}

fn parse_statement(tokens: &'static [Token<'static>]) -> StatementNode<'static> {
    let mut context = ParseContext::new(tokens);
    let node = statement(&mut context).unwrap();
    assert_eq!(context.position(), tokens.len() - 1);
    node
}

fn closed(mut tokens: Vec<Token<'static>>) -> &'static [Token<'static>] {
    tokens.push(Token::End);
    leak(tokens)
}

const EXPRESSIONS: [&str; 24] = [
    "1",
    "x",
    "\"text\"",
    "'c'",
    "1 + 2 + 3 - 1",
    "1 + 2 * 3",
    "(1 + 2) * 3",
    "a > b",
    "a >= b < c <= d",
    "x ? 1 : y ? 2 : 3",
    "x ? a, b : c",
    "a = b = c",
    "a, b = 1, c",
    "a || b && c | d ^ e & f == g != h << i >> j + k - l * m / n % o",
    "!~&*x",
    "!a * *b & &c",
    "f()",
    "f(1, x + 2, g(3))(4)",
    "f(a = 1, (b, c))",
    "a[i][j + 1]",
    "x++",
    "a[i]--",
    "*p++ = f(x)[2]",
    "((((x))))",
];

const STATEMENTS: [&str; 22] = [
    ";",
    "x;",
    "x = 1;",
    "(1 + 2 + 3 - 1) * 2;",
    "if (1 > 0) { (1 + 2 + 3 - 1) * 2; }",
    "if (x) if (y) ; ",
    "switch (x) { out: break; }",
    "while (i < 10) i++;",
    "do { x--; } while (x)",
    "do ; while (f(x, y))",
    "for (i = 0; i < n; i++) { continue; }",
    "{ }",
    "{ ; ; }",
    "{ { } { { } } }",
    "return 0",
    "{ return 0; }",
    "{ return x + 1; }",
    "{ if (x) return 1; }",
    "break;",
    "continue;",
    "goto out",
    "{ goto out; out: x; }",
];

#[test]
fn the_canonical_form_of_a_parsed_expression_parses_to_the_same_expression() {
    for source in EXPRESSIONS {
        let first = parse_expression(leak(tokenize(source).unwrap()));
        let form = first.canonical_tokens().expect(source);
        let second = parse_expression(closed(form));
        assert_eq!(first, second, "{}", source);
    }
}

#[test]
fn the_canonical_form_of_a_parsed_statement_parses_to_the_same_statement() {
    for source in STATEMENTS {
        let first = parse_statement(leak(tokenize(source).unwrap()));
        let form = first.canonical_tokens().expect(source);
        let second = parse_statement(closed(form));
        assert_eq!(first, second, "{}", source);
    }
}

#[test]
fn the_canonical_form_is_a_fixed_point() {
    for source in EXPRESSIONS {
        let first = parse_expression(leak(tokenize(source).unwrap()));
        let form = first.canonical_tokens().unwrap();
        let again = parse_expression(closed(form.clone())).canonical_tokens().unwrap();
        assert_eq!(form, again, "{}", source);
    }
    for source in STATEMENTS {
        let first = parse_statement(leak(tokenize(source).unwrap()));
        let form = first.canonical_tokens().unwrap();
        let again = parse_statement(closed(form.clone())).canonical_tokens().unwrap();
        assert_eq!(form, again, "{}", source);
    }
}

#[test]
fn the_canonical_form_survives_being_written_as_text() {
    for source in STATEMENTS {
        let first = parse_statement(leak(tokenize(source).unwrap()));
        let form = first.canonical_tokens().unwrap();
        let text: &'static str = Box::leak(source_text(&form).into_boxed_str());
        let second = parse_statement(leak(tokenize(text).unwrap()));
        assert_eq!(first, second, "{}", source);
    }
}

#[test]
fn the_canonical_form_puts_operators_in_round_brackets() {
    let open = Token::Punctuator(PunctuatorKind::LeftRoundBracket);
    let close = Token::Punctuator(PunctuatorKind::RightRoundBracket);
    let one = Token::Literal(Literal::Number(1));
    let two = Token::Literal(Literal::Number(2));
    let node = parse_expression(leak(tokenize("1 + 2").unwrap()));
    assert_eq!(
        node.canonical_tokens(),
        Some(vec![open, one, Token::Punctuator(PunctuatorKind::Plus), two, close])
    );
    let node = parse_expression(leak(tokenize("2 > 1").unwrap()));
    assert_eq!(
        node.canonical_tokens(),
        Some(vec![open, one, Token::Punctuator(PunctuatorKind::LessThan), two, close])
    );
    let node = parse_expression(leak(tokenize("x").unwrap()));
    assert_eq!(node.canonical_tokens(), Some(vec![Token::Identifier("x")]));
    let node = parse_expression(leak(tokenize("f()").unwrap()));
    assert_eq!(
        node.canonical_tokens(),
        Some(vec![open, Token::Identifier("f"), open, close, close])
    );
    let node = parse_expression(leak(tokenize("!x").unwrap()));
    assert_eq!(
        node.canonical_tokens(),
        Some(vec![
            open,
            Token::Punctuator(PunctuatorKind::Exclamation),
            Token::Identifier("x"),
            close
        ])
    );
}

#[test]
fn the_canonical_form_of_a_statement() {
    let node = parse_statement(leak(tokenize("if (x) { return 1; }").unwrap()));
    let text = source_text(&node.canonical_tokens().unwrap());
    assert_eq!(text, "if ( x ) { return 1 ; }");
    let node = parse_statement(leak(tokenize("for(i=0;i<2;i++)x[i]=f(i,1);").unwrap()));
    let text = source_text(&node.canonical_tokens().unwrap());
    assert_eq!(
        text,
        "for ( ( i = 0 ) ; ( i < 2 ) ; ( i = ( i + 1 ) ) ) ( ( x + i ) = ( f ( i , 1 ) ) ) ;"
    );
}

#[test]
fn an_expression_that_the_grammar_cannot_give_has_no_canonical_form() {
    let dot = ExpressionNode::BinaryOperator {
        kind: BinaryOperatorKind::Dot,
        lhs: Box::new(ExpressionNode::Identifier("a")),
        rhs: Box::new(ExpressionNode::Identifier("b")),
    };
    assert_eq!(dot.canonical_tokens(), None);
    let cast = ExpressionNode::UnaryOperator {
        kind: UnaryOperatorKind::Cast(Type {}),
        operand: Box::new(ExpressionNode::Immediate(Immediate::Number(1))),
    };
    assert_eq!(cast.canonical_tokens(), None);
    let call = ExpressionNode::UnaryOperator {
        kind: UnaryOperatorKind::FunctionCall(vec![ExpressionNode::Identifier("x"), cast]),
        operand: Box::new(ExpressionNode::Identifier("f")),
    };
    assert_eq!(call.canonical_tokens(), None);
    assert_eq!(StatementNode::ReturnStatement(Box::new(dot)).canonical_tokens(), None);
    assert_eq!(punctuator_of(BinaryOperatorKind::Dot), None);
    assert_eq!(punctuator_of(BinaryOperatorKind::Comma), Some(PunctuatorKind::Commma));
}

#[test]
fn a_return_before_an_expression_in_brackets_does_not_survive() {
    let first = parse_statement(leak(tokenize("{ return 1 2 + 3 ; }").unwrap()));
    let form = first.canonical_tokens().unwrap();
    assert_eq!(source_text(&form), "{ return 1 ( 2 + 3 ) ; }");
    let second = parse_statement(closed(form));
    assert_ne!(first, second);
}

#[test]
fn source_text_of_tokens_tokenizes_to_the_tokens() {
    for source in [
        "",
        "int main() { return 0; }",
        "a+++b",
        "x = \"text\" + 'c' - 2147483647;",
        "%:%: ... <<= >>= -> ## <: :> <% %>",
        "while(do_ + _Bool)double_;",
    ] {
        let tokens = tokenize(source).unwrap();
        let text = source_text(&tokens);
        assert_eq!(tokenize(&text).unwrap(), tokens, "{}", source);
    }
    assert_eq!(source_text(&tokenize("a+++b").unwrap()), "a ++ + b ");
    assert_eq!(source_text(&[]), "");
}

fn parse_declaration(tokens: &'static [Token<'static>]) -> Declaration<'static> {
    let mut context = ParseContext::new(tokens);
    let node = declaration(&mut context).unwrap().unwrap();
    assert_eq!(context.position(), tokens.len() - 1);
    node
}

const DECLARATIONS: [&str; 20] = [
    "int x;",
    "static const unsigned long int inline x;",
    "extern _Noreturn void f(void);",
    "int x = 1, y, z = 2 + 3;",
    "int * const * volatile restrict * p;",
    "int a[2][3];",
    "int a[];",
    "int a[const volatile n];",
    "int (*fp)(void);",
    "int *f(void);",
    "int (*a)[3];",
    "int main();",
    "int f(a, b, c);",
    "int f(int a, const char *, double, ...);",
    "void g(int (*)(void), int (*h)(void), int [3], int (void), int *[], int (*)[2]);",
    "_Alignas(8) char c;",
    "_Alignas(x ? 1 : 2) int y = f(1, 2);",
    "int (*(*fpp)(int))(char);",
    "int f(int (*)(int, ...), int ((*g)), int (**)(void));",
    "char *names[] = x, (*y)[2] = z;",
];

#[test]
fn the_canonical_form_of_a_parsed_declaration_parses_to_the_same_declaration() {
    for source in DECLARATIONS {
        let first = parse_declaration(leak(tokenize(source).unwrap()));
        let form = first.canonical_tokens().expect(source);
        let second = parse_declaration(closed(form.clone()));
        assert_eq!(first, second, "{}", source);
        assert_eq!(second.canonical_tokens(), Some(form), "{}", source);
    }
}

#[test]
fn the_canonical_form_of_a_declaration_survives_being_written_as_text() {
    for source in DECLARATIONS {
        let first = parse_declaration(leak(tokenize(source).unwrap()));
        let form = first.canonical_tokens().unwrap();
        let text: &'static str = Box::leak(source_text(&form).into_boxed_str());
        let second = parse_declaration(leak(tokenize(text).unwrap()));
        assert_eq!(first, second, "{}", source);
    }
}

#[test]
fn the_canonical_form_of_a_declaration() {
    let text = |source| {
        source_text(&parse_declaration(leak(tokenize(source).unwrap())).canonical_tokens().unwrap())
    };
    assert_eq!(text("int (*fp)(void);"), "int ( * fp ) ( void ) ;");
    assert_eq!(text("int *f(void);"), "int * f ( void ) ;");
    assert_eq!(text("int x=1+2,y[n];"), "int x = ( 1 + 2 ) , y [ n ] ;");
    assert_eq!(
        text("int f(int a, const char *, ...);"),
        "int f ( int a , const char * , ... ) ;"
    );
    assert_eq!(text("_Alignas(4) int f(a,b);"), "_Alignas ( 4 ) int f ( a , b ) ;");
}

#[test]
fn a_declaration_that_the_grammar_cannot_give_has_no_canonical_form() {
    let named = |specifier| Declaration {
        specifiers: vec_to_optional_non_empty_vec(vec![specifier]).unwrap(),
        declarators: vec![InitDeclarator {
            declarator: Declarator { pointer: vec![], identifier: DirectDeclarator::Identifier("x") },
            initializer: None,
        }],
    };
    assert!(named(DeclarationSpecifier::TypeSpecifier(TypeSpecifier::Int))
        .canonical_tokens()
        .is_some());
    assert_eq!(
        named(DeclarationSpecifier::TypeSpecifier(TypeSpecifier::TypedefName("t")))
            .canonical_tokens(),
        None
    );
    assert_eq!(
        named(DeclarationSpecifier::TypeSpecifier(TypeSpecifier::AtomicTypeSpecifier))
            .canonical_tokens(),
        None
    );
    assert_eq!(
        named(DeclarationSpecifier::AlignmentSpecifier(Either::Left(Type {}))).canonical_tokens(),
        None
    );
    let mut without_declarators = named(DeclarationSpecifier::TypeSpecifier(TypeSpecifier::Int));
    without_declarators.declarators.clear();
    assert_eq!(without_declarators.canonical_tokens(), None);
    let empty = AbstractDeclarator { pointer: vec![], declarator: None };
    let mut output = Vec::new();
    assert!(!DirectAbstarctDeclarator::Declarator(Box::new(empty)).write_canonical(&mut output));
    let parameter = ParameterDeclaration {
        specifiers: vec_to_optional_non_empty_vec(vec![DeclarationSpecifier::TypeSpecifier(
            TypeSpecifier::Int,
        )])
        .unwrap(),
        declarator: Some(Box::new(Either::Right(AbstractDeclarator {
            pointer: vec![],
            declarator: None,
        }))),
    };
    let mut output = Vec::new();
    assert!(!parameter.write_canonical(&mut output));
    let list = ParameterTypeList {
        parameter_list: vec_to_optional_non_empty_vec(vec![parameter]).unwrap(),
        variable_parameter: false,
    };
    let mut output = Vec::new();
    assert!(!list.write_canonical(&mut output));
}
