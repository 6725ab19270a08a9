use c_frontend::parser::declaration::{
    abstract_suffixes, alignment_specifier, array_suffix, can_start_nested_declarator,
    declaration, declaration_specifier, declarator, declarator_suffixes, direct_declarator,
    function_specifier, identifier_list, init_declarator, init_declarator_list, one_specifier,
    parameter_declaration, parameter_declarator, parameter_type_list, parameters, pointer,
    qualifier_list, specifiers, storage_class_specifier, type_qualifier, type_specifier,
    AbstractDeclarator, Declaration, DeclarationSpecifier, Declarator, DirectAbstarctDeclarator,
    DirectDeclarator, FunctionSpecifier, InitDeclarator, ParameterDeclaration,
    ParameterTypeList, StorageClassSpecifier, TypeQualifier, TypeSpecifier,
};
use c_frontend::parser::expression::{BinaryOperatorKind, ExpressionNode, Immediate};
use c_frontend::parser::util::{ParseContext, ParseError, TokenKind};
use c_frontend::tokenizer::{tokenize, PunctuatorKind, Token};
use c_frontend::util::{vec_to_optional_non_empty_vec, Either, NonEmptyVec};

type Expression = ExpressionNode<'static>;

fn tokens_of(source: &'static str) -> &'static [Token<'static>] {
    Box::leak(tokenize(source).unwrap().into_boxed_slice())
}

/// The declaration that `source` is, all of it.
fn whole(source: &'static str) -> Declaration<'static> {
    let tokens = tokens_of(source);
    let mut context = ParseContext::new(tokens);
    let found = declaration(&mut context).unwrap().unwrap();
    assert_eq!(context.position(), tokens.len() - 1);
    found
}

fn failure(source: &'static str) -> (ParseError, usize) {
    let mut context = ParseContext::new(tokens_of(source));
    let error = declaration(&mut context).unwrap_err();
    (error, context.position())
}

/// The declarator of the only thing that `source` declares.
fn only_declarator(source: &'static str) -> Declarator<'static> {
    let mut found = whole(source);
    assert_eq!(found.declarators.len(), 1);
    let only = found.declarators.pop().unwrap();
    assert_eq!(only.initializer, None);
    only.declarator
}

fn number(value: i32) -> Expression {
    ExpressionNode::Immediate(Immediate::Number(value))
}

fn list<T>(elements: Vec<T>) -> NonEmptyVec<T> {
    vec_to_optional_non_empty_vec(elements).unwrap()
}

fn of_type(specifier: TypeSpecifier<'static>) -> DeclarationSpecifier<'static> {
    DeclarationSpecifier::TypeSpecifier(specifier)
}

fn int_specifier() -> NonEmptyVec<DeclarationSpecifier<'static>> {
    list(vec![of_type(TypeSpecifier::Int)])
}

fn plain(name: &'static str) -> Declarator<'static> {
    Declarator { pointer: vec![], identifier: DirectDeclarator::Identifier(name) }
}

fn void_parameters() -> ParameterTypeList<'static> {
    ParameterTypeList {
        parameter_list: list(vec![ParameterDeclaration {
            specifiers: list(vec![of_type(TypeSpecifier::Void)]),
            declarator: None,
        }]),
        variable_parameter: false,
    }
}

fn missing(kind: PunctuatorKind) -> ParseError {
    ParseError::ExpectedToken(TokenKind::Punctuator(kind))
}

#[test]
fn a_simple_declaration() {
    assert_eq!(
        whole("int x;"),
        Declaration {
            specifiers: int_specifier(),
            declarators: vec![InitDeclarator { declarator: plain("x"), initializer: None }],
        }
    );
}

#[test]
fn what_starts_with_no_specifier_is_no_declaration() {
    let tokens = tokens_of("x = 1;");
    let mut context = ParseContext::new(tokens);
    assert_eq!(declaration(&mut context), Ok(None));
    assert_eq!(context.position(), 0);
    for source in ["", ";", "* p;", "(x);", "1", "if (x) ;"] {
        let mut context = ParseContext::new(tokens_of(source));
        assert_eq!(declaration(&mut context), Ok(None));
        assert_eq!(context.position(), 0);
    }
}

#[test]
fn specifiers_keep_their_order() {
    let found = whole("static const unsigned long int inline x;");
    assert_eq!(
        found.specifiers,
        list(vec![
            DeclarationSpecifier::StorageSpecifier(StorageClassSpecifier::Static),
            DeclarationSpecifier::TypeQualifier(TypeQualifier::Const),
            of_type(TypeSpecifier::Unsigned),
            of_type(TypeSpecifier::Long),
            of_type(TypeSpecifier::Int),
            DeclarationSpecifier::FunctionSpecifier(FunctionSpecifier::Inline),
        ])
    );
}

#[test]
fn every_specifier_keyword() {
    let storage = [
        ("typedef", StorageClassSpecifier::Typedef),
        ("extern", StorageClassSpecifier::Extern),
        ("static", StorageClassSpecifier::Static),
        ("_Thread_local", StorageClassSpecifier::ThreadLocal),
        ("auto", StorageClassSpecifier::Auto),
        ("register", StorageClassSpecifier::Register),
    ];
    for (source, expected) in storage {
        let mut context = ParseContext::new(tokens_of(source));
        assert_eq!(storage_class_specifier(&mut context), Ok(Some(expected)));
        assert_eq!(context.position(), 1);
    }
    let types = [
        ("void", TypeSpecifier::Void),
        ("char", TypeSpecifier::Char),
        ("short", TypeSpecifier::Short),
        ("int", TypeSpecifier::Int),
        ("long", TypeSpecifier::Long),
        ("float", TypeSpecifier::Float),
        ("double", TypeSpecifier::Double),
        ("signed", TypeSpecifier::Singned),
        ("unsigned", TypeSpecifier::Unsigned),
        ("_Bool", TypeSpecifier::Bool),
        ("_Complex", TypeSpecifier::Complex),
    ];
    for (source, expected) in types {
        let mut context = ParseContext::new(tokens_of(source));
        assert_eq!(type_specifier(&mut context), Ok(Some(expected)));
        assert_eq!(context.position(), 1);
    }
    let qualifiers = [
        ("const", TypeQualifier::Const),
        ("restrict", TypeQualifier::Restrict),
        ("volatile", TypeQualifier::Volatile),
        ("_Atomic", TypeQualifier::Atomic),
    ];
    for (source, expected) in qualifiers {
        let mut context = ParseContext::new(tokens_of(source));
        assert_eq!(type_qualifier(&mut context), Ok(Some(expected)));
        assert_eq!(context.position(), 1);
    }
    let functions = [("inline", FunctionSpecifier::Inline), ("_Noreturn", FunctionSpecifier::Noreturn)];
    for (source, expected) in functions {
        let mut context = ParseContext::new(tokens_of(source));
        assert_eq!(
            function_specifier(&mut context),
            Ok(Some(DeclarationSpecifier::FunctionSpecifier(expected)))
        );
        assert_eq!(context.position(), 1);
    }
}

#[test]
fn a_specifier_that_is_absent_reads_nothing() {
    let mut context = ParseContext::new(tokens_of("x"));
    assert_eq!(storage_class_specifier(&mut context), Ok(None));
    assert_eq!(type_specifier(&mut context), Ok(None));
    assert_eq!(type_qualifier(&mut context), Ok(None));
    assert_eq!(function_specifier(&mut context), Ok(None));
    assert_eq!(alignment_specifier(&mut context), Ok(None));
    assert_eq!(one_specifier(&mut context), Ok(None));
    assert_eq!(specifiers(&mut context), Ok(vec![]));
    assert_eq!(declaration_specifier(&mut context), Ok(None));
    assert_eq!(context.position(), 0);
    let mut context = ParseContext::new(tokens_of("int"));
    assert_eq!(storage_class_specifier(&mut context), Ok(None));
    assert_eq!(type_qualifier(&mut context), Ok(None));
    assert_eq!(context.position(), 0);
}

#[test]
fn alignment_holds_a_constant_expression() {
    let mut context = ParseContext::new(tokens_of("_Alignas(4 + 4) int"));
    assert_eq!(
        alignment_specifier(&mut context),
        Ok(Some(DeclarationSpecifier::AlignmentSpecifier(Either::Right(
            ExpressionNode::BinaryOperator {
                kind: BinaryOperatorKind::Add,
                lhs: Box::new(number(4)),
                rhs: Box::new(number(4)),
            }
        ))))
    );
    assert_eq!(context.position(), 6);
    let found = whole("_Alignas(8) char c;");
    assert_eq!(
        found.specifiers,
        list(vec![
            DeclarationSpecifier::AlignmentSpecifier(Either::Right(number(8))),
            of_type(TypeSpecifier::Char),
        ])
    );
}

#[test]
fn alignment_needs_its_brackets() {
    assert_eq!(failure("_Alignas 8 int x;"), (missing(PunctuatorKind::LeftRoundBracket), 1));
    assert_eq!(failure("_Alignas(8 int x;"), (missing(PunctuatorKind::RightRoundBracket), 3));
    assert_eq!(failure("_Alignas() int x;"), (ParseError::ExpectedExpression, 2));
}

#[test]
fn several_declarators_with_values() {
    assert_eq!(
        whole("int x = 1, y, z = 2 + 3;"),
        Declaration {
            specifiers: int_specifier(),
            declarators: vec![
                InitDeclarator { declarator: plain("x"), initializer: Some(number(1)) },
                InitDeclarator { declarator: plain("y"), initializer: None },
                InitDeclarator {
                    declarator: plain("z"),
                    initializer: Some(ExpressionNode::BinaryOperator {
                        kind: BinaryOperatorKind::Add,
                        lhs: Box::new(number(2)),
                        rhs: Box::new(number(3)),
                    }),
                },
            ],
        }
    );
}

#[test]
fn pointer_layers_hold_their_qualifiers() {
    assert_eq!(
        only_declarator("int * const * volatile restrict * p;"),
        Declarator {
            pointer: vec![
                vec![TypeQualifier::Const],
                vec![TypeQualifier::Volatile, TypeQualifier::Restrict],
                vec![],
            ],
            identifier: DirectDeclarator::Identifier("p"),
        }
    );
}

#[test]
fn an_array_suffix_wraps_what_stands_before_it() {
    assert_eq!(
        only_declarator("int a[2][3];"),
        Declarator {
            pointer: vec![],
            identifier: DirectDeclarator::Array(
                Box::new(DirectDeclarator::Array(
                    Box::new(DirectDeclarator::Identifier("a")),
                    vec![],
                    Some(number(2)),
                )),
                vec![],
                Some(number(3)),
            ),
        }
    );
}

#[test]
fn an_array_suffix_may_hold_qualifiers_and_no_size() {
    assert_eq!(
        only_declarator("int a[];"),
        Declarator {
            pointer: vec![],
            identifier: DirectDeclarator::Array(
                Box::new(DirectDeclarator::Identifier("a")),
                vec![],
                None,
            ),
        }
    );
    assert_eq!(
        only_declarator("int a[const volatile n];"),
        Declarator {
            pointer: vec![],
            identifier: DirectDeclarator::Array(
                Box::new(DirectDeclarator::Identifier("a")),
                vec![TypeQualifier::Const, TypeQualifier::Volatile],
                Some(ExpressionNode::Identifier("n")),
            ),
        }
    );
}

#[test]
fn pointer_to_function_and_function_returning_pointer_differ() {
    let pointer_to_function = only_declarator("int (*fp)(void);");
    let function_returning_pointer = only_declarator("int *f(void);");
    assert_eq!(
        pointer_to_function,
        Declarator {
            pointer: vec![],
            identifier: DirectDeclarator::Function(
                Box::new(DirectDeclarator::Declarator(Box::new(Declarator {
                    pointer: vec![vec![]],
                    identifier: DirectDeclarator::Identifier("fp"),
                }))),
                Either::Left(void_parameters()),
            ),
        }
    );
    assert_eq!(
        function_returning_pointer,
        Declarator {
            pointer: vec![vec![]],
            identifier: DirectDeclarator::Function(
                Box::new(DirectDeclarator::Identifier("f")),
                Either::Left(void_parameters()),
            ),
        }
    );
    assert!(pointer_to_function.pointer.is_empty());
    assert!(!function_returning_pointer.pointer.is_empty());
    assert_ne!(
        ParameterTypeList { variable_parameter: true, ..void_parameters() },
        void_parameters()
    );
}

#[test]
fn array_of_pointers_and_pointer_to_array_differ() {
    assert_eq!(
        only_declarator("int *a[3];"),
        Declarator {
            pointer: vec![vec![]],
            identifier: DirectDeclarator::Array(
                Box::new(DirectDeclarator::Identifier("a")),
                vec![],
                Some(number(3)),
            ),
        }
    );
    assert_eq!(
        only_declarator("int (*a)[3];"),
        Declarator {
            pointer: vec![],
            identifier: DirectDeclarator::Array(
                Box::new(DirectDeclarator::Declarator(Box::new(Declarator {
                    pointer: vec![vec![]],
                    identifier: DirectDeclarator::Identifier("a"),
                }))),
                vec![],
                Some(number(3)),
            ),
        }
    );
}

#[test]
fn a_function_without_parameters_has_an_empty_identifier_list() {
    assert_eq!(
        only_declarator("int main();"),
        Declarator {
            pointer: vec![],
            identifier: DirectDeclarator::Function(
                Box::new(DirectDeclarator::Identifier("main")),
                Either::Right(vec![]),
            ),
        }
    );
}

#[test]
fn a_function_may_name_its_parameters_without_types() {
    assert_eq!(
        only_declarator("int f(a, b, c);"),
        Declarator {
            pointer: vec![],
            identifier: DirectDeclarator::Function(
                Box::new(DirectDeclarator::Identifier("f")),
                Either::Right(vec!["a", "b", "c"]),
            ),
        }
    );
}

#[test]
fn parameters_with_names_and_without() {
    let expected = ParameterTypeList {
        parameter_list: list(vec![
            ParameterDeclaration {
                specifiers: int_specifier(),
                declarator: Some(Box::new(Either::Left(plain("a")))),
            },
            ParameterDeclaration {
                specifiers: list(vec![
                    DeclarationSpecifier::TypeQualifier(TypeQualifier::Const),
                    of_type(TypeSpecifier::Char),
                ]),
                declarator: Some(Box::new(Either::Right(AbstractDeclarator {
                    pointer: vec![vec![]],
                    declarator: None,
                }))),
            },
            ParameterDeclaration { specifiers: list(vec![of_type(TypeSpecifier::Double)]), declarator: None },
        ]),
        variable_parameter: true,
    };
    assert_eq!(
        only_declarator("int f(int a, const char *, double, ...);"),
        Declarator {
            pointer: vec![],
            identifier: DirectDeclarator::Function(
                Box::new(DirectDeclarator::Identifier("f")),
                Either::Left(expected),
            ),
        }
    );
}

#[test]
fn a_parameter_may_be_a_pointer_to_a_function() {
    let mut context = ParseContext::new(tokens_of("int (*)(void), int (*g)(void))"));
    let found = parameter_type_list(&mut context).unwrap();
    assert_eq!(context.position(), 17);
    let without_name = AbstractDeclarator {
        pointer: vec![],
        declarator: Some(DirectAbstarctDeclarator::Function(
            Some(Box::new(DirectAbstarctDeclarator::Declarator(Box::new(AbstractDeclarator {
                pointer: vec![vec![]],
                declarator: None,
            })))),
            void_parameters(),
        )),
    };
    let with_name = Declarator {
        pointer: vec![],
        identifier: DirectDeclarator::Function(
            Box::new(DirectDeclarator::Declarator(Box::new(Declarator {
                pointer: vec![vec![]],
                identifier: DirectDeclarator::Identifier("g"),
            }))),
            Either::Left(void_parameters()),
        ),
    };
    assert_eq!(
        found,
        ParameterTypeList {
            parameter_list: list(vec![
                ParameterDeclaration {
                    specifiers: int_specifier(),
                    declarator: Some(Box::new(Either::Right(without_name))),
                },
                ParameterDeclaration {
                    specifiers: int_specifier(),
                    declarator: Some(Box::new(Either::Left(with_name))),
                },
            ]),
            variable_parameter: false,
        }
    );
}

#[test]
fn a_parameter_without_a_name_may_have_suffixes() {
    let mut context = ParseContext::new(tokens_of("[3] ,"));
    assert_eq!(
        parameter_declarator(&mut context),
        Ok(Some(Either::Right(AbstractDeclarator {
            pointer: vec![],
            declarator: Some(DirectAbstarctDeclarator::Array(None, vec![], Some(number(3)))),
        })))
    );
    assert_eq!(context.position(), 3);
    let mut context = ParseContext::new(tokens_of("(void) ,"));
    assert_eq!(
        parameter_declarator(&mut context),
        Ok(Some(Either::Right(AbstractDeclarator {
            pointer: vec![],
            declarator: Some(DirectAbstarctDeclarator::Function(None, void_parameters())),
        })))
    );
    assert_eq!(context.position(), 3);
    let mut context = ParseContext::new(tokens_of(", int"));
    assert_eq!(parameter_declarator(&mut context), Ok(None));
    assert_eq!(context.position(), 0);
}

#[test]
fn a_declaration_needs_a_declarator() {
    assert_eq!(failure("int ;"), (ParseError::ExpectedDeclaration, 1));
    assert_eq!(failure("int"), (ParseError::ExpectedDeclaration, 1));
    assert_eq!(failure("int x, ;"), (ParseError::ExpectedDeclaration, 3));
    assert_eq!(failure("int = 1;"), (ParseError::ExpectedDeclaration, 1));
}

#[test]
fn a_pointer_needs_a_name() {
    assert_eq!(failure("int * ;"), (ParseError::ExpectedIdentifier, 2));
    assert_eq!(failure("int ( ) ;"), (ParseError::ExpectedIdentifier, 2));
    assert_eq!(failure("int (*) ;"), (ParseError::ExpectedIdentifier, 3));
}

#[test]
fn a_declaration_needs_its_semicolon() {
    assert_eq!(failure("int x"), (missing(PunctuatorKind::Semicolon), 2));
    assert_eq!(failure("int x = 1 }"), (missing(PunctuatorKind::Semicolon), 4));
    assert_eq!(failure("int x y;"), (missing(PunctuatorKind::Semicolon), 2));
}

#[test]
fn brackets_of_a_declarator_must_close() {
    assert_eq!(failure("int a[3;"), (missing(PunctuatorKind::RightSquareBracket), 4));
    assert_eq!(failure("int (x;"), (missing(PunctuatorKind::RightRoundBracket), 3));
    assert_eq!(failure("int f(int a;"), (missing(PunctuatorKind::RightRoundBracket), 5));
    assert_eq!(failure("int f(a b);"), (missing(PunctuatorKind::RightRoundBracket), 4));
    assert_eq!(failure("int f(int, ... x);"), (missing(PunctuatorKind::RightRoundBracket), 6));
}

#[test]
fn a_parameter_needs_a_specifier() {
    assert_eq!(failure("int f(int a, b);"), (ParseError::ExpectedDeclaration, 6));
    assert_eq!(failure("int f(a, int b);"), (ParseError::ExpectedIdentifier, 5));
    assert_eq!(failure("int f(*p);"), (ParseError::ExpectedDeclaration, 3));
}

#[test]
fn an_initializer_is_an_assignment() {
    assert_eq!(failure("int x = ;"), (ParseError::ExpectedExpression, 3));
    let found = whole("int x = y = 1, z;");
    assert_eq!(found.declarators.len(), 2);
}

#[test]
fn qualifier_list_and_pointer_read_what_is_there() {
    let mut context = ParseContext::new(tokens_of("const volatile x"));
    assert_eq!(qualifier_list(&mut context), vec![TypeQualifier::Const, TypeQualifier::Volatile]);
    assert_eq!(context.position(), 2);
    assert_eq!(qualifier_list(&mut context), vec![]);
    assert_eq!(context.position(), 2);
    let mut context = ParseContext::new(tokens_of("* * const x"));
    assert_eq!(pointer(&mut context), vec![vec![], vec![TypeQualifier::Const]]);
    assert_eq!(context.position(), 3);
    assert_eq!(pointer(&mut context), Vec::<Vec<TypeQualifier>>::new());
    assert_eq!(context.position(), 3);
}

#[test]
fn the_parts_of_a_declarator() {
    let mut context = ParseContext::new(tokens_of("3 ] x"));
    assert_eq!(array_suffix(&mut context), Ok((vec![], Some(number(3)))));
    assert_eq!(context.position(), 2);
    let mut context = ParseContext::new(tokens_of("a , b ) x"));
    assert_eq!(identifier_list(&mut context), Ok(vec!["a", "b"]));
    assert_eq!(context.position(), 4);
    let mut context = ParseContext::new(tokens_of(") x"));
    assert_eq!(parameters(&mut context), Ok(Either::Right(vec![])));
    assert_eq!(context.position(), 1);
    let mut context = ParseContext::new(tokens_of("void ) x"));
    assert_eq!(parameters(&mut context), Ok(Either::Left(void_parameters())));
    assert_eq!(context.position(), 2);
    let mut context = ParseContext::new(tokens_of("int a , x"));
    assert_eq!(
        parameter_declaration(&mut context),
        Ok(ParameterDeclaration {
            specifiers: int_specifier(),
            declarator: Some(Box::new(Either::Left(plain("a")))),
        })
    );
    assert_eq!(context.position(), 2);
    let mut context = ParseContext::new(tokens_of("[ ] ;"));
    assert_eq!(
        declarator_suffixes(&mut context, DirectDeclarator::Identifier("a")),
        Ok(DirectDeclarator::Array(Box::new(DirectDeclarator::Identifier("a")), vec![], None))
    );
    assert_eq!(context.position(), 2);
    let mut context = ParseContext::new(tokens_of("[ ] ;"));
    assert_eq!(
        abstract_suffixes(&mut context, None),
        Ok(Some(DirectAbstarctDeclarator::Array(None, vec![], None)))
    );
    assert_eq!(context.position(), 2);
    let mut context = ParseContext::new(tokens_of("x [ 1 ] ;"));
    assert_eq!(
        direct_declarator(&mut context),
        Ok(Some(DirectDeclarator::Array(
            Box::new(DirectDeclarator::Identifier("x")),
            vec![],
            Some(number(1))
        )))
    );
    assert_eq!(context.position(), 4);
    let mut context = ParseContext::new(tokens_of("; x"));
    assert_eq!(direct_declarator(&mut context), Ok(None));
    assert_eq!(declarator(&mut context), Ok(None));
    assert_eq!(init_declarator(&mut context), Ok(None));
    assert_eq!(init_declarator_list(&mut context), Err(ParseError::ExpectedDeclaration));
    assert_eq!(context.position(), 0);
    let mut context = ParseContext::new(tokens_of("x = 1 , y ;"));
    assert_eq!(
        init_declarator_list(&mut context),
        Ok(vec![
            InitDeclarator { declarator: plain("x"), initializer: Some(number(1)) },
            InitDeclarator { declarator: plain("y"), initializer: None },
        ])
    );
    assert_eq!(context.position(), 5);
}

#[test]
fn what_can_open_a_declarator_in_brackets() {
    assert!(can_start_nested_declarator(Token::Identifier("x")));
    assert!(can_start_nested_declarator(Token::Punctuator(PunctuatorKind::Star)));
    assert!(can_start_nested_declarator(Token::Punctuator(PunctuatorKind::LeftRoundBracket)));
    assert!(can_start_nested_declarator(Token::Punctuator(PunctuatorKind::LeftSquareBracket)));
    assert!(!can_start_nested_declarator(Token::Punctuator(PunctuatorKind::RightRoundBracket)));
    assert!(!can_start_nested_declarator(Token::End));
    assert!(!can_start_nested_declarator(tokens_of("int")[0]));
}
