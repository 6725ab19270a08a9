//! Writing declarations as tokens, in their canonical forms.

use crate::parser::canonical::{canonical, printable, punctuator};
use crate::parser::canonical_declaration::{
    canonical_abstract, canonical_array, canonical_declaration, canonical_declarator,
    canonical_direct, canonical_direct_abstract, canonical_identifiers, canonical_init,
    canonical_init_list, canonical_parameter, canonical_parameter_list, canonical_parameters,
    canonical_pointer, canonical_qualifiers, canonical_specifier, canonical_specifiers,
    function_keyword, has_tokens, printable_abstract, printable_declaration, printable_declarator,
    printable_direct, printable_direct_abstract, printable_init, printable_init_list,
    printable_parameter, printable_parameter_list, printable_parameters, printable_size,
    printable_specifier, printable_specifiers, qualifier_keyword, storage_keyword, type_keyword,
};
use crate::parser::canonical_statement::keyword;
use crate::parser::declaration::{
    lemma_stars, stars, AbstractDeclarator, Declaration, DeclarationSpecifier, Declarator,
    DirectAbstarctDeclarator, DirectDeclarator, FunctionSpecifier, DirectAbstarctDeclaratorView,
    DirectDeclaratorView, InitDeclarator, ParameterDeclaration, ParameterDeclarationView,
    ParameterTypeList, StorageClassSpecifier, TypeQualifier, TypeSpecifier,
};
use crate::parser::expression::ExpressionNode;
use crate::parser::render::put;
use crate::parser::util::{lemma_models, models};
use crate::tokenizer::{token_views, KeywordKind, PunctuatorKind, Token, TokenView};
use crate::util::{Either, NonEmptyVec};
use vstd::prelude::*;

verus! {

/// The keyword of a storage class.
pub fn storage_word(specifier: StorageClassSpecifier) -> (result: KeywordKind)
    ensures
        result == storage_keyword(specifier),
{
    match specifier {
        StorageClassSpecifier::Typedef => KeywordKind::Typedef,
        StorageClassSpecifier::Extern => KeywordKind::Extern,
        StorageClassSpecifier::Static => KeywordKind::Static,
        StorageClassSpecifier::ThreadLocal => KeywordKind::ThreadLocal,
        StorageClassSpecifier::Auto => KeywordKind::Auto,
        StorageClassSpecifier::Register => KeywordKind::Register,
    }
}

/// The keyword of a type, for the types that one keyword names.
pub fn type_word(specifier: &TypeSpecifier) -> (result: Option<KeywordKind>)
    ensures
        result == type_keyword(specifier@),
{
    match specifier {
        TypeSpecifier::Void => Some(KeywordKind::Void),
        TypeSpecifier::Char => Some(KeywordKind::Char),
        TypeSpecifier::Short => Some(KeywordKind::Short),
        TypeSpecifier::Int => Some(KeywordKind::Int),
        TypeSpecifier::Long => Some(KeywordKind::Long),
        TypeSpecifier::Float => Some(KeywordKind::Float),
        TypeSpecifier::Double => Some(KeywordKind::Double),
        TypeSpecifier::Singned => Some(KeywordKind::Signed),
        TypeSpecifier::Unsigned => Some(KeywordKind::Unsigned),
        TypeSpecifier::Bool => Some(KeywordKind::Bool),
        TypeSpecifier::Complex => Some(KeywordKind::Complex),
        _ => None,
    }
}

/// The keyword of a type qualifier.
pub fn qualifier_word(qualifier: TypeQualifier) -> (result: KeywordKind)
    ensures
        result == qualifier_keyword(qualifier),
{
    match qualifier {
        TypeQualifier::Const => KeywordKind::Const,
        TypeQualifier::Restrict => KeywordKind::Restrict,
        TypeQualifier::Volatile => KeywordKind::Volatile,
        TypeQualifier::Atomic => KeywordKind::Atomic,
    }
}

/// The keyword of a function specifier.
pub fn function_word(specifier: FunctionSpecifier) -> (result: KeywordKind)
    ensures
        result == function_keyword(specifier),
{
    match specifier {
        FunctionSpecifier::Inline => KeywordKind::Inline,
        FunctionSpecifier::Noreturn => KeywordKind::Noreturn,
    }
}

impl<'a> DeclarationSpecifier<'a> {
    /// Appends the canonical form of the specifier to `output` and returns
    /// `true`; or returns `false`, with `output` in any state, where the
    /// specifier is not printable.
    #[verifier::spinoff_prover]
    pub fn write_canonical(&self, output: &mut Vec<Token<'a>>) -> (written: bool)
        ensures
            written == printable_specifier(self@),
            written ==> token_views(final(output)@) == token_views(old(output)@)
                + canonical_specifier(self@),
    {
        let ghost before = token_views(output@);
        match self {
            DeclarationSpecifier::StorageSpecifier(specifier) => {
                put(output, Token::Keyword(storage_word(*specifier)));
                true
            },
            DeclarationSpecifier::TypeSpecifier(specifier) => match type_word(specifier) {
                Some(word) => {
                    put(output, Token::Keyword(word));
                    true
                },
                None => false,
            },
            DeclarationSpecifier::TypeQualifier(qualifier) => {
                put(output, Token::Keyword(qualifier_word(*qualifier)));
                true
            },
            DeclarationSpecifier::FunctionSpecifier(specifier) => {
                put(output, Token::Keyword(function_word(*specifier)));
                true
            },
            DeclarationSpecifier::AlignmentSpecifier(alignment) => match alignment {
                Either::Left(_) => false,
                Either::Right(value) => {
                    put(output, Token::Keyword(KeywordKind::Alignas));
                    put(output, Token::Punctuator(PunctuatorKind::LeftRoundBracket));
                    if !value.write_canonical(output) {
                        return false;
                    }
                    put(output, Token::Punctuator(PunctuatorKind::RightRoundBracket));
                    assert(token_views(output@) =~= before + canonical_specifier(self@));
                    true
                },
            },
        }
    }
}

/// Appends the canonical forms of the specifiers to `output` and returns
/// `true`; or returns `false`, with `output` in any state, where a specifier
/// is not printable.
#[verifier::spinoff_prover]
pub fn write_canonical_specifiers<'a>(
    specifiers: &NonEmptyVec<DeclarationSpecifier<'a>>,
    output: &mut Vec<Token<'a>>,
) -> (written: bool)
    ensures
        written == printable_specifiers(models(specifiers@), 0),
        written ==> token_views(final(output)@) == token_views(old(output)@)
            + canonical_specifiers(models(specifiers@), 0),
{
    reveal(printable_specifiers);
    reveal(canonical_specifiers);
    let ghost views = models(specifiers@);
    let ghost start = token_views(output@);
    proof {
        lemma_models(specifiers@);
        assert(specifiers@[0] == specifiers.first);
    }
    if !specifiers.first.write_canonical(output) {
        return false;
    }
    let mut index: usize = 0;
    while index < specifiers.rest.len()
        invariant
            index <= specifiers.rest.len(),
            views == models(specifiers@),
            views.len() == specifiers.rest.len() + 1,
            forall|at: int|
                0 <= at < specifiers.rest.len() ==> #[trigger] views[at + 1]
                    == specifiers.rest@[at]@,
            printable_specifiers(views, 0) == printable_specifiers(views, index + 1),
            token_views(output@) + canonical_specifiers(views, index + 1) == start
                + canonical_specifiers(views, 0),
            start == token_views(old(output)@),
        decreases specifiers.rest.len() - index,
    {
        reveal(printable_specifiers);
        reveal(canonical_specifiers);
        let ghost earlier = token_views(output@);
        proof {
            assert(views[index + 1] == specifiers.rest@[index as int]@);
        }
        if !specifiers.rest[index].write_canonical(output) {
            return false;
        }
        proof {
            let rest = canonical_specifiers(views, index + 2);
            assert(earlier + (canonical_specifier(views[index + 1]) + rest) =~= (earlier
                + canonical_specifier(views[index + 1])) + rest);
        }
        index = index + 1;
    }
    proof {
        assert(token_views(output@) + Seq::<TokenView>::empty() =~= token_views(output@));
    }
    true
}

/// Appends the keywords of the qualifiers to `output`.
#[verifier::spinoff_prover]
pub fn write_canonical_qualifiers<'a>(qualifiers: &Vec<TypeQualifier>, output: &mut Vec<Token<'a>>)
    ensures
        token_views(final(output)@) == token_views(old(output)@) + canonical_qualifiers(
            qualifiers@,
            0,
        ),
{
    reveal(canonical_qualifiers);
    let ghost start = token_views(output@);
    let mut index: usize = 0;
    while index < qualifiers.len()
        invariant
            index <= qualifiers.len(),
            token_views(output@) + canonical_qualifiers(qualifiers@, index as int) == start
                + canonical_qualifiers(qualifiers@, 0),
            start == token_views(old(output)@),
        decreases qualifiers.len() - index,
    {
        reveal(canonical_qualifiers);
        let ghost earlier = token_views(output@);
        put(output, Token::Keyword(qualifier_word(qualifiers[index])));
        proof {
            let rest = canonical_qualifiers(qualifiers@, index + 1);
            assert(earlier + (seq![keyword(qualifier_keyword(qualifiers@[index as int]))] + rest)
                =~= (earlier + seq![keyword(qualifier_keyword(qualifiers@[index as int]))])
                + rest);
        }
        index = index + 1;
    }
    proof {
        assert(token_views(output@) + Seq::<TokenView>::empty() =~= token_views(output@));
    }
}

/// Appends the canonical form of the pointer layers to `output`.
#[verifier::spinoff_prover]
pub fn write_canonical_pointer<'a>(pointer: &Vec<Vec<TypeQualifier>>, output: &mut Vec<Token<'a>>)
    ensures
        token_views(final(output)@) == token_views(old(output)@) + canonical_pointer(
            stars(pointer@),
            0,
        ),
{
    reveal(canonical_pointer);
    let ghost views = stars(pointer@);
    let ghost start = token_views(output@);
    proof {
        lemma_stars(pointer@);
    }
    let mut index: usize = 0;
    while index < pointer.len()
        invariant
            index <= pointer.len(),
            views == stars(pointer@),
            views.len() == pointer@.len(),
            forall|at: int| 0 <= at < pointer@.len() ==> #[trigger] views[at] == pointer@[at]@,
            token_views(output@) + canonical_pointer(views, index as int) == start
                + canonical_pointer(views, 0),
            start == token_views(old(output)@),
        decreases pointer.len() - index,
    {
        reveal(canonical_pointer);
        let ghost earlier = token_views(output@);
        put(output, Token::Punctuator(PunctuatorKind::Star));
        write_canonical_qualifiers(&pointer[index], output);
        proof {
            let star = seq![punctuator(PunctuatorKind::Star)];
            let qualifiers = canonical_qualifiers(views[index as int], 0);
            let rest = canonical_pointer(views, index + 1);
            assert(views[index as int] == pointer@[index as int]@);
            assert(earlier + (star + (qualifiers + rest)) =~= ((earlier + star) + qualifiers)
                + rest);
        }
        index = index + 1;
    }
    proof {
        assert(token_views(output@) + Seq::<TokenView>::empty() =~= token_views(output@));
    }
}

/// Appends the canonical form of an array suffix to `output` and returns
/// `true`; or returns `false`, with `output` in any state, where the size is
/// not printable.
#[verifier::spinoff_prover]
pub fn write_canonical_array<'a>(
    qualifiers: &Vec<TypeQualifier>,
    size: &Option<ExpressionNode<'a>>,
    output: &mut Vec<Token<'a>>,
) -> (written: bool)
    ensures
        written == printable_size(size.deep_view()),
        written ==> token_views(final(output)@) == token_views(old(output)@) + canonical_array(
            qualifiers@,
            size.deep_view(),
        ),
{
    let ghost before = token_views(output@);
    put(output, Token::Punctuator(PunctuatorKind::LeftSquareBracket));
    write_canonical_qualifiers(qualifiers, output);
    match size {
        Some(value) => {
            if !value.write_canonical(output) {
                return false;
            }
        },
        None => {},
    }
    put(output, Token::Punctuator(PunctuatorKind::RightSquareBracket));
    assert(token_views(output@) =~= before + canonical_array(qualifiers@, size.deep_view()));
    true
}

/// Appends the canonical form of a list of identifiers, up to and with the
/// closing round bracket, to `output`.
#[verifier::spinoff_prover]
pub fn write_canonical_identifiers<'a>(identifiers: &Vec<&'a str>, output: &mut Vec<Token<'a>>)
    ensures
        token_views(final(output)@) == token_views(old(output)@) + canonical_identifiers(
            models(identifiers@),
            0,
        ),
{
    reveal(canonical_identifiers);
    let ghost views = models(identifiers@);
    let ghost start = token_views(output@);
    proof {
        lemma_models(identifiers@);
    }
    if identifiers.len() == 0 {
        put(output, Token::Punctuator(PunctuatorKind::RightRoundBracket));
        return ;
    }
    let mut index: usize = 0;
    while index < identifiers.len()
        invariant
            index <= identifiers.len(),
            identifiers.len() > 0,
            views == models(identifiers@),
            views.len() == identifiers@.len(),
            forall|at: int|
                0 <= at < identifiers@.len() ==> #[trigger] views[at] == identifiers@[at]@,
            token_views(output@) + canonical_identifiers(views, index as int) == start
                + canonical_identifiers(views, 0),
            start == token_views(old(output)@),
        decreases identifiers.len() - index,
    {
        reveal(canonical_identifiers);
        let ghost earlier = token_views(output@);
        put(output, Token::Identifier(identifiers[index]));
        let separator = if index + 1 < identifiers.len() {
            PunctuatorKind::Commma
        } else {
            PunctuatorKind::RightRoundBracket
        };
        put(output, Token::Punctuator(separator));
        proof {
            let rest = canonical_identifiers(views, index + 1);
            assert(views[index as int] == identifiers@[index as int]@);
            assert(earlier + (seq![TokenView::Identifier(views[index as int])] + (seq![
                punctuator(separator),
            ] + rest)) =~= ((earlier + seq![TokenView::Identifier(views[index as int])]) + seq![
                punctuator(separator),
            ]) + rest);
        }
        index = index + 1;
    }
    proof {
        assert(token_views(output@) + Seq::<TokenView>::empty() =~= token_views(output@));
    }
}

impl<'a> Declarator<'a> {
    /// Appends the canonical form of the declarator to `output` and returns
    /// `true`; or returns `false`, with `output` in any state, where the
    /// declarator is not printable.
    #[verifier::spinoff_prover]
    pub fn write_canonical(&self, output: &mut Vec<Token<'a>>) -> (written: bool)
        ensures
            written == printable_declarator(self@),
            written ==> token_views(final(output)@) == token_views(old(output)@)
                + canonical_declarator(self@),
        decreases self, 1nat,
    {
        reveal(printable_declarator);
        reveal(printable_direct);
        reveal(canonical_declarator);
        reveal(canonical_direct);
        let ghost before = token_views(output@);
        write_canonical_pointer(&self.pointer, output);
        if !self.identifier.write_canonical(output) {
            return false;
        }
        assert(token_views(output@) =~= before + canonical_declarator(self@));
        true
    }
}

impl<'a> DirectDeclarator<'a> {
    /// Appends the canonical form of the direct declarator to `output` and
    /// returns `true`; or returns `false`, with `output` in any state, where
    /// the direct declarator is not printable.
    #[verifier::spinoff_prover]
    pub fn write_canonical(&self, output: &mut Vec<Token<'a>>) -> (written: bool)
        ensures
            written == printable_direct(self@),
            written ==> token_views(final(output)@) == token_views(old(output)@)
                + canonical_direct(self@),
        decreases self, 1nat,
    {
        reveal(printable_direct);
        reveal(printable_declarator);
        reveal(printable_parameters);
        reveal(printable_parameter_list);
        reveal(canonical_direct);
        reveal(canonical_declarator);
        reveal(canonical_parameters);
        reveal(canonical_parameter_list);
        let ghost before = token_views(output@);
        match self {
            DirectDeclarator::Identifier(name) => {
                put(output, Token::Identifier(name));
                true
            },
            DirectDeclarator::Declarator(inner) => {
                put(output, Token::Punctuator(PunctuatorKind::LeftRoundBracket));
                if !inner.write_canonical(output) {
                    return false;
                }
                put(output, Token::Punctuator(PunctuatorKind::RightRoundBracket));
                assert(token_views(output@) =~= before + canonical_direct(self@));
                true
            },
            DirectDeclarator::Array(element, qualifiers, size) => {
                if !element.write_canonical(output) {
                    return false;
                }
                if !write_canonical_array(qualifiers, size, output) {
                    return false;
                }
                assert(token_views(output@) =~= before + canonical_direct(self@));
                true
            },
            DirectDeclarator::Function(result, parameters) => {
                if !result.write_canonical(output) {
                    return false;
                }
                put(output, Token::Punctuator(PunctuatorKind::LeftRoundBracket));
                match parameters {
                    Either::Left(list) => {
                        assert(self@ == DirectDeclaratorView::Function(
                            Box::new(result@),
                            Either::Left(list@),
                        ));
                        assert(printable_parameters(Either::Left(list@))
                            == printable_parameter_list(list@.parameter_list, 0));
                        assert(printable_direct(self@) == (printable_direct(result@)
                            && printable_parameters(Either::Left(list@))));
                        assert(canonical_parameters(Either::Left(list@))
                            == canonical_parameter_list(
                            list@.parameter_list,
                            list@.variable_parameter,
                            0,
                        ));
                        assert(canonical_direct(self@) == canonical_direct(result@) + (seq![
                            punctuator(PunctuatorKind::LeftRoundBracket),
                        ] + canonical_parameters(Either::Left(list@))));
                        if !list.write_canonical(output) {
                            return false;
                        }
                    },
                    Either::Right(identifiers) => {
                        assert(self@ == DirectDeclaratorView::Function(
                            Box::new(result@),
                            Either::Right(models(identifiers@)),
                        ));
                        let ghost names = Either::<
                            crate::parser::declaration::ParameterTypeListView,
                            Seq<Seq<char>>,
                        >::Right(models(identifiers@));
                        assert(printable_parameters(names));
                        assert(printable_direct(self@) == (printable_direct(result@)
                            && printable_parameters(names)));
                        assert(canonical_parameters(names) == canonical_identifiers(
                            models(identifiers@),
                            0,
                        ));
                        assert(canonical_direct(self@) == canonical_direct(result@) + (seq![
                            punctuator(PunctuatorKind::LeftRoundBracket),
                        ] + canonical_parameters(names)));
                        write_canonical_identifiers(identifiers, output);
                    },
                }
                assert(token_views(output@) =~= before + canonical_direct(self@));
                true
            },
        }
    }
}

/// What the canonical form of a parameter list holds after the parameter at
/// `last`: a comma and the parameters after it, or the end of the list.
pub open spec fn after_parameter(
    parameters: Seq<ParameterDeclarationView>,
    variable_parameter: bool,
    last: int,
) -> Seq<TokenView> {
    if last + 1 < parameters.len() {
        seq![punctuator(PunctuatorKind::Commma)] + canonical_parameter_list(
            parameters,
            variable_parameter,
            last + 1,
        )
    } else if variable_parameter {
        seq![
            punctuator(PunctuatorKind::Commma),
            punctuator(PunctuatorKind::TripleDots),
            punctuator(PunctuatorKind::RightRoundBracket),
        ]
    } else {
        seq![punctuator(PunctuatorKind::RightRoundBracket)]
    }
}

impl<'a> ParameterTypeList<'a> {
    /// Appends the canonical form of the parameters, up to and with the
    /// closing round bracket, to `output` and returns `true`; or returns
    /// `false`, with `output` in any state, where a parameter is not
    /// printable.
    #[verifier::spinoff_prover]
    pub fn write_canonical(&self, output: &mut Vec<Token<'a>>) -> (written: bool)
        ensures
            written == printable_parameter_list(self@.parameter_list, 0),
            written ==> token_views(final(output)@) == token_views(old(output)@)
                + canonical_parameter_list(self@.parameter_list, self@.variable_parameter, 0),
            self@.parameter_list.len() > 0,
        decreases self, 1nat,
    {
        reveal(printable_parameter_list);
        reveal(printable_parameter);
        reveal(canonical_parameter_list);
        reveal(canonical_parameter);
        let ghost views = self@.parameter_list;
        let ghost variadic = self@.variable_parameter;
        let ghost start = token_views(output@);
        proof {
            assert(views.len() == self.parameter_list.rest@.len() + 1);
            assert(views[0] == self.parameter_list.first@);
            assert forall|at: int|
                0 <= at < self.parameter_list.rest@.len() implies #[trigger] views[at + 1]
                == self.parameter_list.rest@[at]@ by {}
        }
        if !self.parameter_list.first.write_canonical(output) {
            return false;
        }
        proof {
            assert(start + (canonical_parameter(views[0]) + after_parameter(views, variadic, 0))
                =~= (start + canonical_parameter(views[0])) + after_parameter(views, variadic, 0));
        }
        let mut index: usize = 0;
        while index < self.parameter_list.rest.len()
            invariant
                index <= self.parameter_list.rest.len(),
                views == self@.parameter_list,
                variadic == self@.variable_parameter,
                views.len() == self.parameter_list.rest@.len() + 1,
                forall|at: int|
                    0 <= at < self.parameter_list.rest@.len() ==> #[trigger] views[at + 1]
                        == self.parameter_list.rest@[at]@,
                printable_parameter_list(views, 0) == printable_parameter_list(views, index + 1),
                token_views(output@) + after_parameter(views, variadic, index as int) == start
                    + canonical_parameter_list(views, variadic, 0),
                start == token_views(old(output)@),
            decreases self.parameter_list.rest.len() - index,
        {
            reveal(printable_parameter_list);
            reveal(printable_parameter);
            reveal(canonical_parameter_list);
            reveal(canonical_parameter);
            let ghost earlier = token_views(output@);
            put(output, Token::Punctuator(PunctuatorKind::Commma));
            proof {
                assert(decreases_to!(self => self.parameter_list));
                assert(decreases_to!(self.parameter_list => self.parameter_list.rest));
                assert(decreases_to!(self.parameter_list.rest => self.parameter_list.rest@));
                assert(decreases_to!(self.parameter_list.rest@ => self.parameter_list.rest@[index as int]));
                assert(views[index + 1] == self.parameter_list.rest@[index as int]@);
            }
            if !self.parameter_list.rest[index].write_canonical(output) {
                return false;
            }
            proof {
                let one = seq![punctuator(PunctuatorKind::Commma)];
                let form = canonical_parameter(views[index + 1]);
                let rest = after_parameter(views, variadic, index + 1);
                assert(earlier + (one + (form + rest)) =~= ((earlier + one) + form) + rest);
            }
            index = index + 1;
        }
        let ghost earlier = token_views(output@);
        if self.variable_parameter {
            put(output, Token::Punctuator(PunctuatorKind::Commma));
            put(output, Token::Punctuator(PunctuatorKind::TripleDots));
        }
        put(output, Token::Punctuator(PunctuatorKind::RightRoundBracket));
        assert(token_views(output@) =~= earlier + after_parameter(
            views,
            variadic,
            index as int,
        ));
        true
    }
}

impl<'a> ParameterDeclaration<'a> {
    /// Appends the canonical form of the parameter to `output` and returns
    /// `true`; or returns `false`, with `output` in any state, where the
    /// parameter is not printable.
    #[verifier::spinoff_prover]
    pub fn write_canonical(&self, output: &mut Vec<Token<'a>>) -> (written: bool)
        ensures
            written == printable_parameter(self@),
            written ==> token_views(final(output)@) == token_views(old(output)@)
                + canonical_parameter(self@),
        decreases self, 1nat,
    {
        reveal(printable_parameter);
        reveal(printable_declarator);
        reveal(printable_abstract);
        reveal(canonical_parameter);
        reveal(canonical_declarator);
        reveal(canonical_abstract);
        let ghost before = token_views(output@);
        proof {
            self.specifiers.lemma_has_first();
            lemma_models(self.specifiers@);
        }
        if !write_canonical_specifiers(&self.specifiers, output) {
            return false;
        }
        match &self.declarator {
            Some(declarator) => match &**declarator {
                Either::Left(with_name) => {
                    if !with_name.write_canonical(output) {
                        return false;
                    }
                },
                Either::Right(without_name) => {
                    proof {
                        lemma_stars(without_name.pointer@);
                        assert(has_tokens(without_name@) == (without_name.pointer@.len() > 0
                            || without_name.declarator is Some));
                    }
                    if without_name.pointer.len() == 0 && without_name.declarator.is_none() {
                        return false;
                    }
                    if !without_name.write_canonical(output) {
                        return false;
                    }
                },
            },
            None => {},
        }
        assert(token_views(output@) =~= before + canonical_parameter(self@));
        true
    }
}

impl<'a> AbstractDeclarator<'a> {
    /// Appends the canonical form of the declarator without a name to
    /// `output` and returns `true`; or returns `false`, with `output` in any
    /// state, where the declarator is not printable.
    #[verifier::spinoff_prover]
    pub fn write_canonical(&self, output: &mut Vec<Token<'a>>) -> (written: bool)
        ensures
            written == printable_abstract(self@),
            written ==> token_views(final(output)@) == token_views(old(output)@)
                + canonical_abstract(self@),
        decreases self, 1nat,
    {
        reveal(printable_abstract);
        reveal(printable_direct_abstract);
        reveal(canonical_abstract);
        reveal(canonical_direct_abstract);
        let ghost before = token_views(output@);
        write_canonical_pointer(&self.pointer, output);
        match &self.declarator {
            Some(direct) => {
                if !direct.write_canonical(output) {
                    return false;
                }
            },
            None => {},
        }
        assert(token_views(output@) =~= before + canonical_abstract(self@));
        true
    }
}

impl<'a> DirectAbstarctDeclarator<'a> {
    /// Appends the canonical form of the direct declarator without a name
    /// to `output` and returns `true`; or returns `false`, with `output` in
    /// any state, where the direct declarator is not printable.
    #[verifier::spinoff_prover]
    pub fn write_canonical(&self, output: &mut Vec<Token<'a>>) -> (written: bool)
        ensures
            written == printable_direct_abstract(self@),
            written ==> token_views(final(output)@) == token_views(old(output)@)
                + canonical_direct_abstract(self@),
        decreases self, 1nat,
    {
        reveal(printable_direct_abstract);
        reveal(printable_abstract);
        reveal(canonical_direct_abstract);
        reveal(canonical_abstract);
        let ghost before = token_views(output@);
        match self {
            DirectAbstarctDeclarator::Declarator(inner) => {
                proof {
                    lemma_stars(inner.pointer@);
                    assert(self@ == DirectAbstarctDeclaratorView::Declarator(Box::new(inner@)));
                    assert(has_tokens(inner@) == (inner.pointer@.len() > 0
                        || inner.declarator is Some));
                }
                if inner.pointer.len() == 0 && inner.declarator.is_none() {
                    return false;
                }
                put(output, Token::Punctuator(PunctuatorKind::LeftRoundBracket));
                if !inner.write_canonical(output) {
                    return false;
                }
                put(output, Token::Punctuator(PunctuatorKind::RightRoundBracket));
                assert(token_views(output@) =~= before + canonical_direct_abstract(self@));
                true
            },
            DirectAbstarctDeclarator::Array(element, qualifiers, size) => {
                match element {
                    Some(inner) => {
                        if !inner.write_canonical(output) {
                            return false;
                        }
                    },
                    None => {},
                }
                if !write_canonical_array(qualifiers, size, output) {
                    return false;
                }
                assert(token_views(output@) =~= before + canonical_direct_abstract(self@));
                true
            },
            DirectAbstarctDeclarator::Function(result, parameters) => {
                match result {
                    Some(inner) => {
                        if !inner.write_canonical(output) {
                            return false;
                        }
                    },
                    None => {},
                }
                put(output, Token::Punctuator(PunctuatorKind::LeftRoundBracket));
                if !parameters.write_canonical(output) {
                    return false;
                }
                assert(token_views(output@) =~= before + canonical_direct_abstract(self@));
                true
            },
        }
    }
}

impl<'a> InitDeclarator<'a> {
    /// Appends the canonical form of the declarator with its value to
    /// `output` and returns `true`; or returns `false`, with `output` in any
    /// state, where either is not printable.
    #[verifier::spinoff_prover]
    pub fn write_canonical(&self, output: &mut Vec<Token<'a>>) -> (written: bool)
        ensures
            written == printable_init(self@),
            written ==> token_views(final(output)@) == token_views(old(output)@) + canonical_init(
                self@,
            ),
    {
        let ghost before = token_views(output@);
        if !self.declarator.write_canonical(output) {
            return false;
        }
        match &self.initializer {
            Some(value) => {
                put(output, Token::Punctuator(PunctuatorKind::Equal));
                if !value.write_canonical(output) {
                    return false;
                }
            },
            None => {},
        }
        assert(token_views(output@) =~= before + canonical_init(self@));
        true
    }
}

impl<'a> Declaration<'a> {
    /// Appends the canonical form of the declaration to `output` and returns
    /// `true`; or returns `false`, with `output` in any state, where the
    /// declaration is not printable.
    #[verifier::spinoff_prover]
    pub fn write_canonical(&self, output: &mut Vec<Token<'a>>) -> (written: bool)
        ensures
            written == printable_declaration(self@),
            written ==> token_views(final(output)@) == token_views(old(output)@)
                + canonical_declaration(self@),
    {
        reveal(printable_init_list);
        reveal(canonical_init_list);
        let ghost before = token_views(output@);
        let ghost views = models(self.declarators@);
        proof {
            self.specifiers.lemma_has_first();
            lemma_models(self.specifiers@);
            lemma_models(self.declarators@);
        }
        if !write_canonical_specifiers(&self.specifiers, output) {
            return false;
        }
        if self.declarators.len() == 0 {
            return false;
        }
        let ghost start = token_views(output@);
        let mut index: usize = 0;
        while index < self.declarators.len()
            invariant
                index <= self.declarators.len(),
                self.declarators.len() > 0,
                views == models(self.declarators@),
                views.len() == self.declarators@.len(),
                forall|at: int|
                    0 <= at < self.declarators@.len() ==> #[trigger] views[at]
                        == self.declarators@[at]@,
                printable_init_list(views, 0) == printable_init_list(views, index as int),
                token_views(output@) + (if 0 < index < self.declarators.len() {
                    seq![punctuator(PunctuatorKind::Commma)]
                } else {
                    Seq::<TokenView>::empty()
                }) + canonical_init_list(views, index as int) == start + canonical_init_list(
                    views,
                    0,
                ),
            decreases self.declarators.len() - index,
        {
            reveal(printable_init_list);
            reveal(canonical_init_list);
            let ghost earlier = token_views(output@);
            if index > 0 {
                put(output, Token::Punctuator(PunctuatorKind::Commma));
            }
            let ghost middle = token_views(output@);
            proof {
                assert(views[index as int] == self.declarators@[index as int]@);
            }
            if !self.declarators[index].write_canonical(output) {
                return false;
            }
            proof {
                let one = seq![punctuator(PunctuatorKind::Commma)];
                let none = Seq::<TokenView>::empty();
                let form = canonical_init(views[index as int]);
                let rest = canonical_init_list(views, index + 1);
                if index > 0 {
                    if index + 1 < self.declarators.len() {
                        assert((earlier + one) + (form + (one + rest)) =~= ((middle + form) + one)
                            + rest);
                    } else {
                        assert((earlier + one) + (form + none) =~= ((middle + form) + none) + rest);
                    }
                } else {
                    if index + 1 < self.declarators.len() {
                        assert((earlier + none) + (form + (one + rest)) =~= ((middle + form) + one)
                            + rest);
                    } else {
                        assert((earlier + none) + (form + none) =~= ((middle + form) + none)
                            + rest);
                    }
                }
            }
            index = index + 1;
        }
        put(output, Token::Punctuator(PunctuatorKind::Semicolon));
        assert(token_views(output@) =~= before + canonical_declaration(self@));
        true
    }

    /// The canonical form of the declaration, if the declaration is
    /// printable.
    pub fn canonical_tokens(&self) -> (result: Option<Vec<Token<'a>>>)
        ensures
            result is Some == printable_declaration(self@),
            result matches Some(tokens) ==> token_views(tokens@) == canonical_declaration(self@),
    {
        let mut output: Vec<Token<'a>> = Vec::new();
        assert(token_views(output@) =~= Seq::<TokenView>::empty());
        if self.write_canonical(&mut output) {
            assert(Seq::<TokenView>::empty() + canonical_declaration(self@)
                =~= canonical_declaration(self@));
            Some(output)
        } else {
            None
        }
    }
}

} // verus!
