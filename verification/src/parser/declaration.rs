//! Declarations: the syntax tree, the grammar as a function on token
//! sequences, and the parser that computes it.

use crate::parser::expression::{
    assign, conditional, spec_assign, spec_conditional, ExpressionNode, ExpressionView, Type,
};
use crate::parser::util::{
    absent, agrees, agrees_list, consume_keyword, consume_punctuator, consume_token,
    expect_punctuator, keyword_at, lemma_models, lemma_models_empty, lemma_models_push,
    lemma_prefixed_start, lemma_prefixed_step, lemma_shifted_twice, models, moves_when_present,
    prefixed, present, punctuator_at, shifted, token_at, tokens_left, ParseContext, ParseError,
    Parsed, TokenKind,
};
use crate::tokenizer::{KeywordKind, PunctuatorKind, Token, TokenView};
use crate::util::{vec_to_optional_non_empty_vec, Either, EitherOrBoth, NonEmptyVec};
use vstd::prelude::*;

verus! {

/// A declaration: its specifiers, of which there is at least one, and what
/// it declares.
#[derive(Debug, PartialEq, Eq)]
pub struct Declaration<'a> {
    pub specifiers: NonEmptyVec<DeclarationSpecifier<'a>>,
    pub declarators: Vec<InitDeclarator<'a>>,
}

#[derive(Debug, PartialEq, Eq)]
pub enum DeclarationSpecifier<'a> {
    StorageSpecifier(StorageClassSpecifier),
    TypeSpecifier(TypeSpecifier<'a>),
    TypeQualifier(TypeQualifier),
    FunctionSpecifier(FunctionSpecifier),
    /// `_Alignas` with the type or the constant expression that it names.
    AlignmentSpecifier(Either<Type, ExpressionNode<'a>>),
}

#[derive(Debug, Clone, Copy, PartialEq, Eq, Structural)]
pub enum StorageClassSpecifier {
    Typedef,
    Extern,
    Static,
    ThreadLocal,
    Auto,
    Register,
}

#[derive(Debug, PartialEq, Eq)]
pub enum TypeSpecifier<'a> {
    Void,
    Char,
    Short,
    Int,
    Long,
    Float,
    Double,
    Singned,
    Unsigned,
    Bool,
    Complex,
    AtomicTypeSpecifier,
    StructOrUnionSpecifier(StructOrUnionSpecifier<'a>),
    EnumSpecifier(EnumSpecifier<'a>),
    TypedefName(&'a str),
}

#[derive(Debug, Clone, Copy, PartialEq, Eq, Structural)]
pub enum TypeQualifier {
    Const,
    Restrict,
    Volatile,
    Atomic,
}

#[derive(Debug, Clone, Copy, PartialEq, Eq, Structural)]
pub enum FunctionSpecifier {
    Inline,
    Noreturn,
}

/// A structure or union by its name, by the names of its members, or by
/// both.
#[derive(Debug, PartialEq, Eq)]
pub struct StructOrUnionSpecifier<'a> {
    pub kind: StructOrUnion,
    pub name_or_menbers: EitherOrBoth<&'a str, NonEmptyVec<&'a str>>,
}

#[derive(Debug, Clone, Copy, PartialEq, Eq, Structural)]
pub enum StructOrUnion {
    Struct,
    Union,
}

/// The declaration of members of a structure or union.
#[derive(Debug, PartialEq, Eq)]
pub struct StructDeclaration<'a> {
    pub specifier_qualifier_list: NonEmptyVec<SpecifierOrQualifier<'a>>,
    pub declarators: Vec<StructDeclarator<'a>>,
}

#[derive(Debug, PartialEq, Eq)]
pub enum SpecifierOrQualifier<'a> {
    TypeSpecifier(TypeSpecifier<'a>),
    TypeQualifier(TypeQualifier),
}

/// A member: its declarator, the width of a bit field, or both.
pub type StructDeclarator<'a> = EitherOrBoth<Declarator<'a>, ExpressionNode<'a>>;

/// An enumeration by its name, by the names of its members, or by both.
#[derive(Debug, PartialEq, Eq)]
pub struct EnumSpecifier<'a> {
    pub name_or_menbers: EitherOrBoth<&'a str, NonEmptyVec<&'a str>>,
}

/// A declarator and the value that the declared thing starts with, if the
/// declaration gives one.
#[derive(Debug, PartialEq, Eq)]
pub struct InitDeclarator<'a> {
    pub declarator: Declarator<'a>,
    pub initializer: Option<ExpressionNode<'a>>,
}

/// What is declared: a direct declarator behind any number of pointer
/// layers.
#[derive(Debug, PartialEq, Eq)]
pub struct Declarator<'a> {
    pub pointer: Pointer,
    pub identifier: DirectDeclarator<'a>,
}

/// The pointer layers of a declarator, in the order in which they are
/// written.
pub type Pointer = Vec<Star>;

/// One pointer layer: the qualifiers written after its `*`.
pub type Star = Vec<TypeQualifier>;

/// A name, a declarator in round brackets, or either of them with array and
/// function suffixes. A suffix written later wraps the ones written before
/// it.
#[derive(Debug, PartialEq, Eq)]
pub enum DirectDeclarator<'a> {
    Identifier(&'a str),
    Declarator(Box<Declarator<'a>>),
    Array(Box<DirectDeclarator<'a>>, Vec<TypeQualifier>, Option<ExpressionNode<'a>>),
    Function(Box<DirectDeclarator<'a>>, Either<ParameterTypeList<'a>, IdentifierList<'a>>),
}

/// The parameters of a function, of which there is at least one, and whether
/// `...` follows them.
#[derive(Debug, PartialEq, Eq)]
pub struct ParameterTypeList<'a> {
    pub parameter_list: NonEmptyVec<ParameterDeclaration<'a>>,
    pub variable_parameter: bool,
}

/// A parameter: its specifiers, of which there is at least one, and its
/// declarator, which may lack a name or be missing.
#[derive(Debug, PartialEq, Eq)]
pub struct ParameterDeclaration<'a> {
    pub specifiers: NonEmptyVec<DeclarationSpecifier<'a>>,
    pub declarator: Option<Box<Either<Declarator<'a>, AbstractDeclarator<'a>>>>,
}

/// The names of the parameters of a function that is declared without their
/// types.
pub type IdentifierList<'a> = Vec<&'a str>;

/// The name of a type: specifiers and qualifiers, and a declarator without a
/// name.
#[derive(Debug, PartialEq, Eq)]
pub struct TypeName<'a> {
    pub specifier_qualifier_list: NonEmptyVec<SpecifierOrQualifier<'a>>,
    pub declarator: Option<AbstractDeclarator<'a>>,
}

/// A declarator without a name: pointer layers, then array and function
/// suffixes, possibly around a declarator without a name in round brackets.
#[derive(Debug, PartialEq, Eq)]
pub struct AbstractDeclarator<'a> {
    pub pointer: Pointer,
    pub declarator: Option<DirectAbstarctDeclarator<'a>>,
}

#[derive(Debug, PartialEq, Eq)]
pub enum DirectAbstarctDeclarator<'a> {
    Declarator(Box<AbstractDeclarator<'a>>),
    Array(Option<Box<DirectAbstarctDeclarator<'a>>>, Vec<TypeQualifier>, Option<ExpressionNode<'a>>),
    Function(Option<Box<DirectAbstarctDeclarator<'a>>>, ParameterTypeList<'a>),
}

/// The model of a [`Declaration`].
pub struct DeclarationView {
    pub specifiers: Seq<DeclarationSpecifierView>,
    pub declarators: Seq<InitDeclaratorView>,
}

/// The model of a [`DeclarationSpecifier`].
pub enum DeclarationSpecifierView {
    StorageSpecifier(StorageClassSpecifier),
    TypeSpecifier(TypeSpecifierView),
    TypeQualifier(TypeQualifier),
    FunctionSpecifier(FunctionSpecifier),
    AlignmentSpecifier(Either<Type, ExpressionView>),
}

/// The model of a [`TypeSpecifier`].
pub enum TypeSpecifierView {
    Void,
    Char,
    Short,
    Int,
    Long,
    Float,
    Double,
    Singned,
    Unsigned,
    Bool,
    Complex,
    AtomicTypeSpecifier,
    StructOrUnionSpecifier(StructOrUnionSpecifierView),
    EnumSpecifier(EnumSpecifierView),
    TypedefName(Seq<char>),
}

/// The model of a [`StructOrUnionSpecifier`].
pub struct StructOrUnionSpecifierView {
    pub kind: StructOrUnion,
    pub name_or_menbers: EitherOrBoth<Seq<char>, Seq<Seq<char>>>,
}

/// The model of an [`EnumSpecifier`].
pub struct EnumSpecifierView {
    pub name_or_menbers: EitherOrBoth<Seq<char>, Seq<Seq<char>>>,
}

/// The model of a [`SpecifierOrQualifier`].
pub enum SpecifierOrQualifierView {
    TypeSpecifier(TypeSpecifierView),
    TypeQualifier(TypeQualifier),
}

/// The model of a [`StructDeclaration`].
pub struct StructDeclarationView {
    pub specifier_qualifier_list: Seq<SpecifierOrQualifierView>,
    pub declarators: Seq<EitherOrBoth<DeclaratorView, ExpressionView>>,
}

/// The model of an [`InitDeclarator`].
pub struct InitDeclaratorView {
    pub declarator: DeclaratorView,
    pub initializer: Option<ExpressionView>,
}

/// The model of a [`Declarator`].
pub struct DeclaratorView {
    pub pointer: Seq<Seq<TypeQualifier>>,
    pub identifier: DirectDeclaratorView,
}

/// The model of a [`DirectDeclarator`].
pub enum DirectDeclaratorView {
    Identifier(Seq<char>),
    Declarator(Box<DeclaratorView>),
    Array(Box<DirectDeclaratorView>, Seq<TypeQualifier>, Option<ExpressionView>),
    Function(Box<DirectDeclaratorView>, Either<ParameterTypeListView, Seq<Seq<char>>>),
}

/// The model of a [`ParameterTypeList`].
pub struct ParameterTypeListView {
    pub parameter_list: Seq<ParameterDeclarationView>,
    pub variable_parameter: bool,
}

/// The model of a [`ParameterDeclaration`].
pub struct ParameterDeclarationView {
    pub specifiers: Seq<DeclarationSpecifierView>,
    pub declarator: Option<Either<DeclaratorView, AbstractDeclaratorView>>,
}

/// The model of a [`TypeName`].
pub struct TypeNameView {
    pub specifier_qualifier_list: Seq<SpecifierOrQualifierView>,
    pub declarator: Option<AbstractDeclaratorView>,
}

/// The model of an [`AbstractDeclarator`].
pub struct AbstractDeclaratorView {
    pub pointer: Seq<Seq<TypeQualifier>>,
    pub declarator: Option<DirectAbstarctDeclaratorView>,
}

/// The model of a [`DirectAbstarctDeclarator`].
pub enum DirectAbstarctDeclaratorView {
    Declarator(Box<AbstractDeclaratorView>),
    Array(Option<Box<DirectAbstarctDeclaratorView>>, Seq<TypeQualifier>, Option<ExpressionView>),
    Function(Option<Box<DirectAbstarctDeclaratorView>>, ParameterTypeListView),
}

/// The models of pointer layers: for each layer its qualifiers.
pub closed spec fn stars(pointer: Seq<Vec<TypeQualifier>>) -> Seq<Seq<TypeQualifier>> {
    pointer.map_values(|star: Vec<TypeQualifier>| star@)
}

/// There are as many models as layers, and each is the qualifiers of the
/// layer in its place.
pub proof fn lemma_stars(pointer: Seq<Vec<TypeQualifier>>)
    ensures
        stars(pointer).len() == pointer.len(),
        forall|index: int|
            0 <= index < pointer.len() ==> (#[trigger] stars(pointer)[index]) == pointer[index]@,
{
}

/// No layers have no models.
pub proof fn lemma_stars_empty(pointer: Seq<Vec<TypeQualifier>>)
    requires
        pointer.len() == 0,
    ensures
        stars(pointer) == Seq::<Seq<TypeQualifier>>::empty(),
{
    assert(stars(pointer) =~= Seq::<Seq<TypeQualifier>>::empty());
}

/// The models after a push are the models before it with the qualifiers of
/// the new layer at their end.
pub proof fn lemma_stars_push(pointer: Seq<Vec<TypeQualifier>>, star: Vec<TypeQualifier>)
    ensures
        stars(pointer.push(star)) == stars(pointer).push(star@),
        stars(pointer.push(star)) == stars(pointer) + seq![star@],
{
    assert(stars(pointer.push(star)) =~= stars(pointer).push(star@));
    assert(stars(pointer).push(star@) =~= stars(pointer) + seq![star@]);
}

impl<'a> DeepView for TypeSpecifier<'a> {
    type V = TypeSpecifierView;

    open spec fn deep_view(&self) -> TypeSpecifierView {
        match self {
            TypeSpecifier::Void => TypeSpecifierView::Void,
            TypeSpecifier::Char => TypeSpecifierView::Char,
            TypeSpecifier::Short => TypeSpecifierView::Short,
            TypeSpecifier::Int => TypeSpecifierView::Int,
            TypeSpecifier::Long => TypeSpecifierView::Long,
            TypeSpecifier::Float => TypeSpecifierView::Float,
            TypeSpecifier::Double => TypeSpecifierView::Double,
            TypeSpecifier::Singned => TypeSpecifierView::Singned,
            TypeSpecifier::Unsigned => TypeSpecifierView::Unsigned,
            TypeSpecifier::Bool => TypeSpecifierView::Bool,
            TypeSpecifier::Complex => TypeSpecifierView::Complex,
            TypeSpecifier::AtomicTypeSpecifier => TypeSpecifierView::AtomicTypeSpecifier,
            TypeSpecifier::StructOrUnionSpecifier(specifier) => {
                TypeSpecifierView::StructOrUnionSpecifier(specifier.deep_view())
            },
            TypeSpecifier::EnumSpecifier(specifier) => TypeSpecifierView::EnumSpecifier(
                specifier.deep_view(),
            ),
            TypeSpecifier::TypedefName(name) => TypeSpecifierView::TypedefName(name@),
        }
    }
}

/// The model of a name, of the names of members, or of both.
pub open spec fn names_view(names: EitherOrBoth<&str, NonEmptyVec<&str>>) -> EitherOrBoth<
    Seq<char>,
    Seq<Seq<char>>,
> {
    match names {
        EitherOrBoth::Both(name, members) => EitherOrBoth::Both(name@, models(members@)),
        EitherOrBoth::Left(name) => EitherOrBoth::Left(name@),
        EitherOrBoth::Right(members) => EitherOrBoth::Right(models(members@)),
    }
}

impl<'a> DeepView for StructOrUnionSpecifier<'a> {
    type V = StructOrUnionSpecifierView;

    open spec fn deep_view(&self) -> StructOrUnionSpecifierView {
        StructOrUnionSpecifierView {
            kind: self.kind,
            name_or_menbers: names_view(self.name_or_menbers),
        }
    }
}

impl<'a> DeepView for EnumSpecifier<'a> {
    type V = EnumSpecifierView;

    open spec fn deep_view(&self) -> EnumSpecifierView {
        EnumSpecifierView { name_or_menbers: names_view(self.name_or_menbers) }
    }
}

impl<'a> DeepView for SpecifierOrQualifier<'a> {
    type V = SpecifierOrQualifierView;

    open spec fn deep_view(&self) -> SpecifierOrQualifierView {
        match self {
            SpecifierOrQualifier::TypeSpecifier(specifier) => {
                SpecifierOrQualifierView::TypeSpecifier(specifier.deep_view())
            },
            SpecifierOrQualifier::TypeQualifier(qualifier) => {
                SpecifierOrQualifierView::TypeQualifier(*qualifier)
            },
        }
    }
}

impl<'a> DeepView for DeclarationSpecifier<'a> {
    type V = DeclarationSpecifierView;

    open spec fn deep_view(&self) -> DeclarationSpecifierView {
        match self {
            DeclarationSpecifier::StorageSpecifier(specifier) => {
                DeclarationSpecifierView::StorageSpecifier(*specifier)
            },
            DeclarationSpecifier::TypeSpecifier(specifier) => {
                DeclarationSpecifierView::TypeSpecifier(specifier.deep_view())
            },
            DeclarationSpecifier::TypeQualifier(qualifier) => {
                DeclarationSpecifierView::TypeQualifier(*qualifier)
            },
            DeclarationSpecifier::FunctionSpecifier(specifier) => {
                DeclarationSpecifierView::FunctionSpecifier(*specifier)
            },
            DeclarationSpecifier::AlignmentSpecifier(Either::Left(target)) => {
                DeclarationSpecifierView::AlignmentSpecifier(Either::Left(*target))
            },
            DeclarationSpecifier::AlignmentSpecifier(Either::Right(value)) => {
                DeclarationSpecifierView::AlignmentSpecifier(Either::Right(value@))
            },
        }
    }
}

impl<'a> Declarator<'a> {
    /// The model of the declarator: the same tree over sequences.
    pub open spec fn model(self) -> DeclaratorView
        decreases self,
    {
        DeclaratorView { pointer: stars(self.pointer@), identifier: self.identifier.model() }
    }
}

impl<'a> DirectDeclarator<'a> {
    /// The model of the direct declarator.
    pub open spec fn model(self) -> DirectDeclaratorView
        decreases self,
    {
        match self {
            DirectDeclarator::Identifier(name) => DirectDeclaratorView::Identifier(name@),
            DirectDeclarator::Declarator(inner) => DirectDeclaratorView::Declarator(
                Box::new(inner.model()),
            ),
            DirectDeclarator::Array(element, qualifiers, size) => DirectDeclaratorView::Array(
                Box::new(element.model()),
                qualifiers@,
                size.deep_view(),
            ),
            DirectDeclarator::Function(result, Either::Left(parameters)) => {
                DirectDeclaratorView::Function(
                    Box::new(result.model()),
                    Either::Left(parameters.model()),
                )
            },
            DirectDeclarator::Function(result, Either::Right(identifiers)) => {
                DirectDeclaratorView::Function(
                    Box::new(result.model()),
                    Either::Right(models(identifiers@)),
                )
            },
        }
    }
}

impl<'a> ParameterTypeList<'a> {
    /// The model of the parameters.
    pub open spec fn model(self) -> ParameterTypeListView
        decreases self,
    {
        ParameterTypeListView {
            parameter_list: seq![self.parameter_list.first.model()] + Seq::new(
                self.parameter_list.rest@.len(),
                |index: int|
                    if 0 <= index < self.parameter_list.rest@.len() {
                        self.parameter_list.rest@[index].model()
                    } else {
                        arbitrary()
                    },
            ),
            variable_parameter: self.variable_parameter,
        }
    }
}

impl<'a> ParameterDeclaration<'a> {
    /// The model of the parameter.
    pub open spec fn model(self) -> ParameterDeclarationView
        decreases self,
    {
        ParameterDeclarationView {
            specifiers: models(self.specifiers@),
            declarator: match self.declarator {
                Some(declarator) => match *declarator {
                    Either::Left(named) => Some(Either::Left(named.model())),
                    Either::Right(nameless) => Some(Either::Right(nameless.model())),
                },
                None => None,
            },
        }
    }
}

impl<'a> AbstractDeclarator<'a> {
    /// The model of the declarator without a name.
    pub open spec fn model(self) -> AbstractDeclaratorView
        decreases self,
    {
        AbstractDeclaratorView {
            pointer: stars(self.pointer@),
            declarator: match self.declarator {
                Some(direct) => Some(direct.model()),
                None => None,
            },
        }
    }
}

impl<'a> DirectAbstarctDeclarator<'a> {
    /// The model of the direct declarator without a name.
    pub open spec fn model(self) -> DirectAbstarctDeclaratorView
        decreases self,
    {
        match self {
            DirectAbstarctDeclarator::Declarator(inner) => DirectAbstarctDeclaratorView::Declarator(
                Box::new(inner.model()),
            ),
            DirectAbstarctDeclarator::Array(element, qualifiers, size) => {
                DirectAbstarctDeclaratorView::Array(
                    match element {
                        Some(inner) => Some(Box::new(inner.model())),
                        None => None,
                    },
                    qualifiers@,
                    size.deep_view(),
                )
            },
            DirectAbstarctDeclarator::Function(result, parameters) => {
                DirectAbstarctDeclaratorView::Function(
                    match result {
                        Some(inner) => Some(Box::new(inner.model())),
                        None => None,
                    },
                    parameters.model(),
                )
            },
        }
    }
}

impl<'a> DeepView for Declarator<'a> {
    type V = DeclaratorView;

    open spec fn deep_view(&self) -> DeclaratorView {
        self.model()
    }
}

impl<'a> DeepView for DirectDeclarator<'a> {
    type V = DirectDeclaratorView;

    open spec fn deep_view(&self) -> DirectDeclaratorView {
        self.model()
    }
}

impl<'a> DeepView for ParameterTypeList<'a> {
    type V = ParameterTypeListView;

    open spec fn deep_view(&self) -> ParameterTypeListView {
        self.model()
    }
}

impl<'a> DeepView for ParameterDeclaration<'a> {
    type V = ParameterDeclarationView;

    open spec fn deep_view(&self) -> ParameterDeclarationView {
        self.model()
    }
}

impl<'a> DeepView for AbstractDeclarator<'a> {
    type V = AbstractDeclaratorView;

    open spec fn deep_view(&self) -> AbstractDeclaratorView {
        self.model()
    }
}

impl<'a> DeepView for DirectAbstarctDeclarator<'a> {
    type V = DirectAbstarctDeclaratorView;

    open spec fn deep_view(&self) -> DirectAbstarctDeclaratorView {
        self.model()
    }
}

impl<'a> DeepView for InitDeclarator<'a> {
    type V = InitDeclaratorView;

    open spec fn deep_view(&self) -> InitDeclaratorView {
        InitDeclaratorView {
            declarator: self.declarator.model(),
            initializer: self.initializer.deep_view(),
        }
    }
}

impl<'a> DeepView for Declaration<'a> {
    type V = DeclarationView;

    open spec fn deep_view(&self) -> DeclarationView {
        DeclarationView {
            specifiers: models(self.specifiers@),
            declarators: models(self.declarators@),
        }
    }
}

impl<'a> DeepView for TypeName<'a> {
    type V = TypeNameView;

    open spec fn deep_view(&self) -> TypeNameView {
        TypeNameView {
            specifier_qualifier_list: models(self.specifier_qualifier_list@),
            declarator: self.declarator.deep_view(),
        }
    }
}

/// The model of a member of a structure or union.
pub open spec fn struct_declarator_view(member: StructDeclarator<'_>) -> EitherOrBoth<
    DeclaratorView,
    ExpressionView,
> {
    match member {
        EitherOrBoth::Both(declarator, width) => EitherOrBoth::Both(declarator.model(), width@),
        EitherOrBoth::Left(declarator) => EitherOrBoth::Left(declarator.model()),
        EitherOrBoth::Right(width) => EitherOrBoth::Right(width@),
    }
}

impl<'a> DeepView for StructDeclaration<'a> {
    type V = StructDeclarationView;

    open spec fn deep_view(&self) -> StructDeclarationView {
        StructDeclarationView {
            specifier_qualifier_list: models(self.specifier_qualifier_list@),
            declarators: self.declarators@.map_values(
                |member: StructDeclarator<'a>| struct_declarator_view(member),
            ),
        }
    }
}

impl<'a> View for Declaration<'a> {
    type V = DeclarationView;

    open spec fn view(&self) -> DeclarationView {
        self.deep_view()
    }
}

impl<'a> View for DeclarationSpecifier<'a> {
    type V = DeclarationSpecifierView;

    open spec fn view(&self) -> DeclarationSpecifierView {
        self.deep_view()
    }
}

impl<'a> View for TypeSpecifier<'a> {
    type V = TypeSpecifierView;

    open spec fn view(&self) -> TypeSpecifierView {
        self.deep_view()
    }
}

impl<'a> View for StructOrUnionSpecifier<'a> {
    type V = StructOrUnionSpecifierView;

    open spec fn view(&self) -> StructOrUnionSpecifierView {
        self.deep_view()
    }
}

impl<'a> View for EnumSpecifier<'a> {
    type V = EnumSpecifierView;

    open spec fn view(&self) -> EnumSpecifierView {
        self.deep_view()
    }
}

impl<'a> View for SpecifierOrQualifier<'a> {
    type V = SpecifierOrQualifierView;

    open spec fn view(&self) -> SpecifierOrQualifierView {
        self.deep_view()
    }
}

impl<'a> View for StructDeclaration<'a> {
    type V = StructDeclarationView;

    open spec fn view(&self) -> StructDeclarationView {
        self.deep_view()
    }
}

impl<'a> View for InitDeclarator<'a> {
    type V = InitDeclaratorView;

    open spec fn view(&self) -> InitDeclaratorView {
        self.deep_view()
    }
}

impl<'a> View for Declarator<'a> {
    type V = DeclaratorView;

    open spec fn view(&self) -> DeclaratorView {
        self.deep_view()
    }
}

impl<'a> View for DirectDeclarator<'a> {
    type V = DirectDeclaratorView;

    open spec fn view(&self) -> DirectDeclaratorView {
        self.deep_view()
    }
}

impl<'a> View for ParameterTypeList<'a> {
    type V = ParameterTypeListView;

    open spec fn view(&self) -> ParameterTypeListView {
        self.deep_view()
    }
}

impl<'a> View for ParameterDeclaration<'a> {
    type V = ParameterDeclarationView;

    open spec fn view(&self) -> ParameterDeclarationView {
        self.deep_view()
    }
}

impl<'a> View for TypeName<'a> {
    type V = TypeNameView;

    open spec fn view(&self) -> TypeNameView {
        self.deep_view()
    }
}

impl<'a> View for AbstractDeclarator<'a> {
    type V = AbstractDeclaratorView;

    open spec fn view(&self) -> AbstractDeclaratorView {
        self.deep_view()
    }
}

impl<'a> View for DirectAbstarctDeclarator<'a> {
    type V = DirectAbstarctDeclaratorView;

    open spec fn view(&self) -> DirectAbstarctDeclaratorView {
        self.deep_view()
    }
}

/// The model of a parameter list is the models of its parameters.
pub proof fn lemma_parameter_list_model(parameters: ParameterTypeList<'_>)
    ensures
        parameters.model() == (ParameterTypeListView {
            parameter_list: models(parameters.parameter_list@),
            variable_parameter: parameters.variable_parameter,
        }),
{
    lemma_models(parameters.parameter_list@);
    assert(parameters.model().parameter_list =~= models(parameters.parameter_list@));
}

impl DeepView for StorageClassSpecifier {
    type V = StorageClassSpecifier;

    open spec fn deep_view(&self) -> StorageClassSpecifier {
        *self
    }
}

impl DeepView for TypeQualifier {
    type V = TypeQualifier;

    open spec fn deep_view(&self) -> TypeQualifier {
        *self
    }
}

impl DeepView for FunctionSpecifier {
    type V = FunctionSpecifier;

    open spec fn deep_view(&self) -> FunctionSpecifier {
        *self
    }
}

/// The storage class that `token` names, if it names one.
pub open spec fn storage_class_of(token: TokenView) -> Option<StorageClassSpecifier> {
    match token {
        TokenView::Keyword(keyword) => match keyword {
            KeywordKind::Typedef => Some(StorageClassSpecifier::Typedef),
            KeywordKind::Extern => Some(StorageClassSpecifier::Extern),
            KeywordKind::Static => Some(StorageClassSpecifier::Static),
            KeywordKind::ThreadLocal => Some(StorageClassSpecifier::ThreadLocal),
            KeywordKind::Auto => Some(StorageClassSpecifier::Auto),
            KeywordKind::Register => Some(StorageClassSpecifier::Register),
            _ => None,
        },
        _ => None,
    }
}

/// The type that `token` names, if it names one.
pub open spec fn type_specifier_of(token: TokenView) -> Option<TypeSpecifierView> {
    match token {
        TokenView::Keyword(keyword) => match keyword {
            KeywordKind::Void => Some(TypeSpecifierView::Void),
            KeywordKind::Char => Some(TypeSpecifierView::Char),
            KeywordKind::Short => Some(TypeSpecifierView::Short),
            KeywordKind::Int => Some(TypeSpecifierView::Int),
            KeywordKind::Long => Some(TypeSpecifierView::Long),
            KeywordKind::Float => Some(TypeSpecifierView::Float),
            KeywordKind::Double => Some(TypeSpecifierView::Double),
            KeywordKind::Signed => Some(TypeSpecifierView::Singned),
            KeywordKind::Unsigned => Some(TypeSpecifierView::Unsigned),
            KeywordKind::Bool => Some(TypeSpecifierView::Bool),
            KeywordKind::Complex => Some(TypeSpecifierView::Complex),
            _ => None,
        },
        _ => None,
    }
}

/// The type qualifier that `token` names, if it names one.
pub open spec fn type_qualifier_of(token: TokenView) -> Option<TypeQualifier> {
    match token {
        TokenView::Keyword(keyword) => match keyword {
            KeywordKind::Const => Some(TypeQualifier::Const),
            KeywordKind::Restrict => Some(TypeQualifier::Restrict),
            KeywordKind::Volatile => Some(TypeQualifier::Volatile),
            KeywordKind::Atomic => Some(TypeQualifier::Atomic),
            _ => None,
        },
        _ => None,
    }
}

/// The function specifier that `token` names, if it names one.
pub open spec fn function_specifier_of(token: TokenView) -> Option<FunctionSpecifier> {
    match token {
        TokenView::Keyword(keyword) => match keyword {
            KeywordKind::Inline => Some(FunctionSpecifier::Inline),
            KeywordKind::Noreturn => Some(FunctionSpecifier::Noreturn),
            _ => None,
        },
        _ => None,
    }
}

/// What a rule of one keyword gives: what the keyword names, in one token, or
/// absence.
pub open spec fn named<T>(found: Option<T>) -> Parsed<Option<T>> {
    match found {
        Some(value) => Ok((Some(value), 1)),
        None => absent(),
    }
}

/// `storage-class-specifier`: one of `typedef`, `extern`, `static`,
/// `_Thread_local`, `auto`, `register`.
pub open spec fn spec_storage_class_specifier(tokens: Seq<TokenView>, position: int) -> Parsed<
    Option<StorageClassSpecifier>,
> {
    named(storage_class_of(token_at(tokens, position)))
}

/// `type-specifier`: one of `void`, `char`, `short`, `int`, `long`, `float`,
/// `double`, `signed`, `unsigned`, `_Bool`, `_Complex`.
pub open spec fn spec_type_specifier(tokens: Seq<TokenView>, position: int) -> Parsed<
    Option<TypeSpecifierView>,
> {
    named(type_specifier_of(token_at(tokens, position)))
}

/// `type-qualifier`: one of `const`, `restrict`, `volatile`, `_Atomic`.
pub open spec fn spec_type_qualifier(tokens: Seq<TokenView>, position: int) -> Parsed<
    Option<TypeQualifier>,
> {
    named(type_qualifier_of(token_at(tokens, position)))
}

/// `function-specifier`: `inline` or `_Noreturn`.
pub open spec fn spec_function_specifier(tokens: Seq<TokenView>, position: int) -> Parsed<
    Option<DeclarationSpecifierView>,
> {
    named(
        match function_specifier_of(token_at(tokens, position)) {
            Some(specifier) => Some(DeclarationSpecifierView::FunctionSpecifier(specifier)),
            None => None,
        },
    )
}

/// `alignment-specifier`: `'_Alignas' '(' conditional ')'`.
#[verifier::opaque]
pub open spec fn spec_alignment_specifier(tokens: Seq<TokenView>, position: int) -> Parsed<
    Option<DeclarationSpecifierView>,
> {
    if keyword_at(tokens, position, KeywordKind::Alignas) {
        if punctuator_at(tokens, position + 1, PunctuatorKind::LeftRoundBracket) {
            match spec_conditional(tokens, position + 2) {
                Err((error, count)) => Err((error, 2 + count)),
                Ok((value, count)) => if punctuator_at(
                    tokens,
                    position + 2 + count,
                    PunctuatorKind::RightRoundBracket,
                ) {
                    Ok(
                        (
                            Some(DeclarationSpecifierView::AlignmentSpecifier(Either::Right(value))),
                            2 + count + 1,
                        ),
                    )
                } else {
                    Err(
                        (
                            ParseError::ExpectedToken(
                                TokenKind::Punctuator(PunctuatorKind::RightRoundBracket),
                            ),
                            2 + count,
                        ),
                    )
                },
            }
        } else {
            Err(
                (
                    ParseError::ExpectedToken(
                        TokenKind::Punctuator(PunctuatorKind::LeftRoundBracket),
                    ),
                    1,
                ),
            )
        }
    } else {
        absent()
    }
}

/// One declaration specifier: the first that is present of a storage class,
/// a type, a type qualifier, a function specifier and an alignment.
#[verifier::opaque]
pub open spec fn spec_one_specifier(tokens: Seq<TokenView>, position: int) -> Parsed<
    Option<DeclarationSpecifierView>,
> {
    let token = token_at(tokens, position);
    if storage_class_of(token) is Some {
        Ok((Some(DeclarationSpecifierView::StorageSpecifier(storage_class_of(token)->Some_0)), 1))
    } else if type_specifier_of(token) is Some {
        Ok((Some(DeclarationSpecifierView::TypeSpecifier(type_specifier_of(token)->Some_0)), 1))
    } else if type_qualifier_of(token) is Some {
        Ok((Some(DeclarationSpecifierView::TypeQualifier(type_qualifier_of(token)->Some_0)), 1))
    } else if function_specifier_of(token) is Some {
        spec_function_specifier(tokens, position)
    } else {
        spec_alignment_specifier(tokens, position)
    }
}

/// `declaration-specifier*`: the specifiers that stand at `position`, which
/// may be none.
#[verifier::opaque]
pub open spec fn spec_specifiers(tokens: Seq<TokenView>, position: int) -> Parsed<
    Seq<DeclarationSpecifierView>,
>
    decreases tokens_left(tokens, position),
{
    match spec_one_specifier(tokens, position) {
        Err(error) => Err(error),
        Ok((found, count)) => if found is Some && 0 < count && position < tokens.len() {
            prefixed(seq![found->Some_0], count, spec_specifiers(tokens, position + count))
        } else {
            Ok((Seq::empty(), 0))
        },
    }
}

/// `declaration-specifier+`, or absence where no specifier stands at
/// `position`.
pub open spec fn spec_declaration_specifier(tokens: Seq<TokenView>, position: int) -> Parsed<
    Option<Seq<DeclarationSpecifierView>>,
> {
    match spec_specifiers(tokens, position) {
        Err(error) => Err(error),
        Ok((specifiers, count)) => if specifiers.len() == 0 {
            absent()
        } else {
            Ok((Some(specifiers), count))
        },
    }
}

/// `type-qualifier*`: the qualifiers that stand at `position` and the number
/// of tokens they take.
#[verifier::opaque]
pub open spec fn spec_qualifier_list(tokens: Seq<TokenView>, position: int) -> (
    Seq<TypeQualifier>,
    nat,
)
    decreases tokens_left(tokens, position),
{
    match type_qualifier_of(token_at(tokens, position)) {
        Some(qualifier) => if position < tokens.len() {
            let (rest, count) = spec_qualifier_list(tokens, position + 1);
            (seq![qualifier] + rest, 1 + count)
        } else {
            (Seq::empty(), 0)
        },
        None => (Seq::empty(), 0),
    }
}

/// `('*' type-qualifier*)*`: the pointer layers that stand at `position` and
/// the number of tokens they take.
#[verifier::opaque]
pub open spec fn spec_pointer(tokens: Seq<TokenView>, position: int) -> (
    Seq<Seq<TypeQualifier>>,
    nat,
)
    decreases tokens_left(tokens, position),
{
    if punctuator_at(tokens, position, PunctuatorKind::Star) {
        let (qualifiers, count) = spec_qualifier_list(tokens, position + 1);
        let (rest, more) = spec_pointer(tokens, position + 1 + count);
        (seq![qualifiers] + rest, 1 + count + more)
    } else {
        (Seq::empty(), 0)
    }
}

/// What stands in the square brackets of an array suffix, up to and with the
/// closing bracket: `type-qualifier* assign? ']'`.
#[verifier::opaque]
pub open spec fn spec_array_suffix(tokens: Seq<TokenView>, position: int) -> Parsed<
    (Seq<TypeQualifier>, Option<ExpressionView>),
> {
    let (qualifiers, count) = spec_qualifier_list(tokens, position);
    if punctuator_at(tokens, position + count, PunctuatorKind::RightSquareBracket) {
        Ok(((qualifiers, None), count + 1))
    } else {
        match spec_assign(tokens, position + count) {
            Err((error, more)) => Err((error, count + more)),
            Ok((size, more)) => if punctuator_at(
                tokens,
                position + count + more,
                PunctuatorKind::RightSquareBracket,
            ) {
                Ok(((qualifiers, Some(size)), count + more + 1))
            } else {
                Err(
                    (
                        ParseError::ExpectedToken(
                            TokenKind::Punctuator(PunctuatorKind::RightSquareBracket),
                        ),
                        count + more,
                    ),
                )
            },
        }
    }
}

/// `declarator := pointer direct-declarator`, or absence where neither a
/// pointer layer nor a direct declarator stands at `position`.
#[verifier::opaque]
pub open spec fn spec_declarator(tokens: Seq<TokenView>, position: int) -> Parsed<
    Option<DeclaratorView>,
>
    decreases tokens_left(tokens, position), 4nat,
{
    let (pointer, count) = spec_pointer(tokens, position);
    match spec_direct_declarator(tokens, position + count) {
        Err((error, more)) => Err((error, count + more)),
        Ok((found, more)) => if found is Some {
            Ok((Some(DeclaratorView { pointer, identifier: found->Some_0 }), count + more))
        } else if count == 0 {
            absent()
        } else {
            Err((ParseError::ExpectedIdentifier, count))
        },
    }
}

/// `direct-declarator := (identifier | '(' declarator ')') suffix*`, or
/// absence where neither an identifier nor an opening round bracket stands
/// at `position`.
#[verifier::opaque]
pub open spec fn spec_direct_declarator(tokens: Seq<TokenView>, position: int) -> Parsed<
    Option<DirectDeclaratorView>,
>
    decreases tokens_left(tokens, position), 3nat,
{
    if punctuator_at(tokens, position, PunctuatorKind::LeftRoundBracket) {
        match spec_declarator(tokens, position + 1) {
            Err((error, count)) => Err((error, 1 + count)),
            Ok((inner, count)) => if inner is None {
                Err((ParseError::ExpectedIdentifier, 1 + count))
            } else if punctuator_at(
                tokens,
                position + 1 + count,
                PunctuatorKind::RightRoundBracket,
            ) {
                present(
                    shifted(
                        1 + count + 1,
                        spec_declarator_suffixes(
                            tokens,
                            position + 1 + count + 1,
                            DirectDeclaratorView::Declarator(Box::new(inner->Some_0)),
                        ),
                    ),
                )
            } else {
                Err(
                    (
                        ParseError::ExpectedToken(
                            TokenKind::Punctuator(PunctuatorKind::RightRoundBracket),
                        ),
                        1 + count,
                    ),
                )
            },
        }
    } else {
        match token_at(tokens, position) {
            TokenView::Identifier(name) => present(
                shifted(
                    1,
                    spec_declarator_suffixes(
                        tokens,
                        position + 1,
                        DirectDeclaratorView::Identifier(name),
                    ),
                ),
            ),
            _ => absent(),
        }
    }
}

/// The array and function suffixes after the direct declarator that was read
/// into `current`. Each suffix wraps what stands before it.
#[verifier::opaque]
pub open spec fn spec_declarator_suffixes(
    tokens: Seq<TokenView>,
    position: int,
    current: DirectDeclaratorView,
) -> Parsed<DirectDeclaratorView>
    decreases tokens_left(tokens, position), 2nat,
{
    if punctuator_at(tokens, position, PunctuatorKind::LeftSquareBracket) {
        match spec_array_suffix(tokens, position + 1) {
            Err((error, count)) => Err((error, 1 + count)),
            Ok((suffix, count)) => shifted(
                1 + count,
                spec_declarator_suffixes(
                    tokens,
                    position + 1 + count,
                    DirectDeclaratorView::Array(Box::new(current), suffix.0, suffix.1),
                ),
            ),
        }
    } else if punctuator_at(tokens, position, PunctuatorKind::LeftRoundBracket) {
        match spec_parameters(tokens, position + 1) {
            Err((error, count)) => Err((error, 1 + count)),
            Ok((parameters, count)) => shifted(
                1 + count,
                spec_declarator_suffixes(
                    tokens,
                    position + 1 + count,
                    DirectDeclaratorView::Function(Box::new(current), parameters),
                ),
            ),
        }
    } else {
        Ok((current, 0))
    }
}

/// What stands in the round brackets of a function suffix, up to and with
/// the closing bracket: nothing, a list of identifiers, or a list of
/// parameter declarations. An identifier at `position` starts a list of
/// identifiers.
#[verifier::opaque]
pub open spec fn spec_parameters(tokens: Seq<TokenView>, position: int) -> Parsed<
    Either<ParameterTypeListView, Seq<Seq<char>>>,
>
    decreases tokens_left(tokens, position), 9nat,
{
    if punctuator_at(tokens, position, PunctuatorKind::RightRoundBracket) {
        Ok((Either::Right(Seq::empty()), 1))
    } else if token_at(tokens, position) is Identifier {
        match spec_identifier_list(tokens, position) {
            Err(error) => Err(error),
            Ok((identifiers, count)) => Ok((Either::Right(identifiers), count)),
        }
    } else {
        match spec_parameter_type_list(tokens, position) {
            Err(error) => Err(error),
            Ok((parameters, count)) => Ok((Either::Left(parameters), count)),
        }
    }
}

/// `identifier (',' identifier)* ')'`
#[verifier::opaque]
pub open spec fn spec_identifier_list(tokens: Seq<TokenView>, position: int) -> Parsed<
    Seq<Seq<char>>,
>
    decreases tokens_left(tokens, position),
{
    match token_at(tokens, position) {
        TokenView::Identifier(name) => if punctuator_at(
            tokens,
            position + 1,
            PunctuatorKind::Commma,
        ) {
            prefixed(seq![name], 2, spec_identifier_list(tokens, position + 2))
        } else if punctuator_at(tokens, position + 1, PunctuatorKind::RightRoundBracket) {
            Ok((seq![name], 2))
        } else {
            Err(
                (
                    ParseError::ExpectedToken(
                        TokenKind::Punctuator(PunctuatorKind::RightRoundBracket),
                    ),
                    1,
                ),
            )
        },
        _ => Err((ParseError::ExpectedIdentifier, 0)),
    }
}

/// The outcome of reading a parameter list of which `before` was read in `by`
/// tokens and `outcome` is what the rest of the list gives.
pub open spec fn with_parameters(
    before: Seq<ParameterDeclarationView>,
    by: nat,
    outcome: Parsed<ParameterTypeListView>,
) -> Parsed<ParameterTypeListView> {
    match outcome {
        Ok((rest, count)) => Ok(
            (
                ParameterTypeListView {
                    parameter_list: before + rest.parameter_list,
                    variable_parameter: rest.variable_parameter,
                },
                by + count,
            ),
        ),
        Err((error, count)) => Err((error, by + count)),
    }
}

/// `parameter (',' parameter)* (',' '...')? ')'`
#[verifier::opaque]
pub open spec fn spec_parameter_type_list(tokens: Seq<TokenView>, position: int) -> Parsed<
    ParameterTypeListView,
>
    decreases tokens_left(tokens, position), 8nat,
{
    match spec_parameter_declaration(tokens, position) {
        Err(error) => Err(error),
        Ok((parameter, count)) => if punctuator_at(
            tokens,
            position + count,
            PunctuatorKind::Commma,
        ) {
            if punctuator_at(tokens, position + count + 1, PunctuatorKind::TripleDots) {
                if punctuator_at(tokens, position + count + 2, PunctuatorKind::RightRoundBracket) {
                    Ok(
                        (
                            ParameterTypeListView {
                                parameter_list: seq![parameter],
                                variable_parameter: true,
                            },
                            count + 3,
                        ),
                    )
                } else {
                    Err(
                        (
                            ParseError::ExpectedToken(
                                TokenKind::Punctuator(PunctuatorKind::RightRoundBracket),
                            ),
                            count + 2,
                        ),
                    )
                }
            } else {
                with_parameters(
                    seq![parameter],
                    count + 1,
                    spec_parameter_type_list(tokens, position + count + 1),
                )
            }
        } else if punctuator_at(tokens, position + count, PunctuatorKind::RightRoundBracket) {
            Ok(
                (
                    ParameterTypeListView {
                        parameter_list: seq![parameter],
                        variable_parameter: false,
                    },
                    count + 1,
                ),
            )
        } else {
            Err(
                (
                    ParseError::ExpectedToken(
                        TokenKind::Punctuator(PunctuatorKind::RightRoundBracket),
                    ),
                    count,
                ),
            )
        },
    }
}

/// `parameter := declaration-specifier+ (declarator | abstract-declarator)?`
#[verifier::opaque]
pub open spec fn spec_parameter_declaration(tokens: Seq<TokenView>, position: int) -> Parsed<
    ParameterDeclarationView,
>
    decreases tokens_left(tokens, position), 7nat,
{
    match spec_specifiers(tokens, position) {
        Err(error) => Err(error),
        Ok((specifiers, count)) => if specifiers.len() == 0 {
            Err((ParseError::ExpectedDeclaration, count))
        } else {
            match spec_parameter_declarator(tokens, position + count) {
                Err((error, more)) => Err((error, count + more)),
                Ok((declarator, more)) => Ok(
                    (ParameterDeclarationView { specifiers, declarator }, count + more),
                ),
            }
        },
    }
}

/// Whether `token` after an opening round bracket shows that the bracket
/// opens a declarator in brackets, not the parameters of a function: `*`,
/// `(`, `[` or an identifier.
pub open spec fn starts_nested_declarator(token: TokenView) -> bool {
    match token {
        TokenView::Identifier(_) => true,
        TokenView::Punctuator(punctuator) => {
            ||| punctuator == PunctuatorKind::Star
            ||| punctuator == PunctuatorKind::LeftRoundBracket
            ||| punctuator == PunctuatorKind::LeftSquareBracket
        },
        _ => false,
    }
}

/// The declarator of a parameter, which has a name or has none: pointer
/// layers, then an identifier, a declarator of either kind in round
/// brackets, or nothing, then suffixes. The result has a name exactly if an
/// identifier stands at its core. Absence where it would take no token.
#[verifier::opaque]
pub open spec fn spec_parameter_declarator(tokens: Seq<TokenView>, position: int) -> Parsed<
    Option<Either<DeclaratorView, AbstractDeclaratorView>>,
>
    decreases tokens_left(tokens, position), 6nat,
{
    let (pointer, count) = spec_pointer(tokens, position);
    let at = position + count;
    if token_at(tokens, at) is Identifier {
        match spec_declarator_suffixes(
            tokens,
            at + 1,
            DirectDeclaratorView::Identifier(token_at(tokens, at)->Identifier_0),
        ) {
            Err((error, more)) => Err((error, count + 1 + more)),
            Ok((direct, more)) => Ok(
                (
                    Some(Either::Left(DeclaratorView { pointer, identifier: direct })),
                    count + 1 + more,
                ),
            ),
        }
    } else if punctuator_at(tokens, at, PunctuatorKind::LeftRoundBracket)
        && starts_nested_declarator(token_at(tokens, at + 1)) {
        match spec_parameter_declarator(tokens, at + 1) {
            Err((error, more)) => Err((error, count + 1 + more)),
            Ok((inner, more)) => if inner is None {
                Err((ParseError::ExpectedIdentifier, count + 1 + more))
            } else if !punctuator_at(tokens, at + 1 + more, PunctuatorKind::RightRoundBracket) {
                Err(
                    (
                        ParseError::ExpectedToken(
                            TokenKind::Punctuator(PunctuatorKind::RightRoundBracket),
                        ),
                        count + 1 + more,
                    ),
                )
            } else {
                match inner->Some_0 {
                    Either::Left(with_name) => match spec_declarator_suffixes(
                        tokens,
                        at + 1 + more + 1,
                        DirectDeclaratorView::Declarator(Box::new(with_name)),
                    ) {
                        Err((error, last)) => Err((error, count + 1 + more + 1 + last)),
                        Ok((direct, last)) => Ok(
                            (
                                Some(Either::Left(DeclaratorView { pointer, identifier: direct })),
                                count + 1 + more + 1 + last,
                            ),
                        ),
                    },
                    Either::Right(without_name) => match spec_abstract_suffixes(
                        tokens,
                        at + 1 + more + 1,
                        Some(DirectAbstarctDeclaratorView::Declarator(Box::new(without_name))),
                    ) {
                        Err((error, last)) => Err((error, count + 1 + more + 1 + last)),
                        Ok((direct, last)) => Ok(
                            (
                                Some(
                                    Either::Right(
                                        AbstractDeclaratorView { pointer, declarator: direct },
                                    ),
                                ),
                                count + 1 + more + 1 + last,
                            ),
                        ),
                    },
                }
            },
        }
    } else {
        match spec_abstract_suffixes(tokens, at, None) {
            Err((error, more)) => Err((error, count + more)),
            Ok((direct, more)) => if count + more == 0 {
                absent()
            } else {
                Ok(
                    (
                        Some(Either::Right(AbstractDeclaratorView { pointer, declarator: direct })),
                        count + more,
                    ),
                )
            },
        }
    }
}

/// `current` in a box, if there is one.
pub open spec fn boxed<T>(current: Option<T>) -> Option<Box<T>> {
    match current {
        Some(value) => Some(Box::new(value)),
        None => None,
    }
}

/// The array and function suffixes after the direct declarator without a
/// name that was read into `current`, which may be nothing. A function
/// suffix holds parameter declarations.
#[verifier::opaque]
pub open spec fn spec_abstract_suffixes(
    tokens: Seq<TokenView>,
    position: int,
    current: Option<DirectAbstarctDeclaratorView>,
) -> Parsed<Option<DirectAbstarctDeclaratorView>>
    decreases tokens_left(tokens, position), 5nat,
{
    if punctuator_at(tokens, position, PunctuatorKind::LeftSquareBracket) {
        match spec_array_suffix(tokens, position + 1) {
            Err((error, count)) => Err((error, 1 + count)),
            Ok((suffix, count)) => shifted(
                1 + count,
                spec_abstract_suffixes(
                    tokens,
                    position + 1 + count,
                    Some(DirectAbstarctDeclaratorView::Array(boxed(current), suffix.0, suffix.1)),
                ),
            ),
        }
    } else if punctuator_at(tokens, position, PunctuatorKind::LeftRoundBracket) {
        match spec_parameter_type_list(tokens, position + 1) {
            Err((error, count)) => Err((error, 1 + count)),
            Ok((parameters, count)) => shifted(
                1 + count,
                spec_abstract_suffixes(
                    tokens,
                    position + 1 + count,
                    Some(DirectAbstarctDeclaratorView::Function(boxed(current), parameters)),
                ),
            ),
        }
    } else {
        Ok((current, 0))
    }
}

/// `init-declarator := declarator ('=' assign)?`, or absence where no
/// declarator stands at `position`.
#[verifier::opaque]
pub open spec fn spec_init_declarator(tokens: Seq<TokenView>, position: int) -> Parsed<
    Option<InitDeclaratorView>,
> {
    match spec_declarator(tokens, position) {
        Err(error) => Err(error),
        Ok((found, count)) => if found is None {
            absent()
        } else if punctuator_at(tokens, position + count, PunctuatorKind::Equal) {
            match spec_assign(tokens, position + count + 1) {
                Err((error, more)) => Err((error, count + 1 + more)),
                Ok((value, more)) => Ok(
                    (
                        Some(
                            InitDeclaratorView {
                                declarator: found->Some_0,
                                initializer: Some(value),
                            },
                        ),
                        count + 1 + more,
                    ),
                ),
            }
        } else {
            Ok((Some(InitDeclaratorView { declarator: found->Some_0, initializer: None }), count))
        },
    }
}

/// `init-declarator (',' init-declarator)*`. A declarator that is missing is
/// a declaration that is missing.
#[verifier::opaque]
pub open spec fn spec_init_declarator_list(tokens: Seq<TokenView>, position: int) -> Parsed<
    Seq<InitDeclaratorView>,
>
    decreases tokens_left(tokens, position),
{
    match spec_init_declarator(tokens, position) {
        Err(error) => Err(error),
        Ok((found, count)) => if found is None {
            Err((ParseError::ExpectedDeclaration, count))
        } else if punctuator_at(tokens, position + count, PunctuatorKind::Commma) {
            prefixed(
                seq![found->Some_0],
                count + 1,
                spec_init_declarator_list(tokens, position + count + 1),
            )
        } else {
            Ok((seq![found->Some_0], count))
        },
    }
}

/// `declaration := declaration-specifier+ init-declarator (','
/// init-declarator)* ';'`, or absence where no specifier stands at
/// `position`: what stands there is no declaration.
#[verifier::opaque]
pub open spec fn spec_declaration(tokens: Seq<TokenView>, position: int) -> Parsed<
    Option<DeclarationView>,
> {
    match spec_specifiers(tokens, position) {
        Err(error) => Err(error),
        Ok((specifiers, count)) => if specifiers.len() == 0 {
            absent()
        } else {
            match spec_init_declarator_list(tokens, position + count) {
                Err((error, more)) => Err((error, count + more)),
                Ok((declarators, more)) => if punctuator_at(
                    tokens,
                    position + count + more,
                    PunctuatorKind::Semicolon,
                ) {
                    Ok((Some(DeclarationView { specifiers, declarators }), count + more + 1))
                } else {
                    Err(
                        (
                            ParseError::ExpectedToken(
                                TokenKind::Punctuator(PunctuatorKind::Semicolon),
                            ),
                            count + more,
                        ),
                    )
                },
            }
        },
    }
}

/// Parses a storage class, if one is there.
pub fn storage_class_specifier<'a, 'b>(context: &'a mut ParseContext<'b>) -> (result: Result<
    Option<StorageClassSpecifier>,
    ParseError,
>)
    ensures
        agrees(
            result,
            old(context)@,
            final(context)@,
            spec_storage_class_specifier(old(context)@.tokens, old(context)@.position as int),
        ),
        moves_when_present(result, old(context)@, final(context)@),
{
    let found = if consume_keyword(context, KeywordKind::Typedef) {
        Some(StorageClassSpecifier::Typedef)
    } else if consume_keyword(context, KeywordKind::Extern) {
        Some(StorageClassSpecifier::Extern)
    } else if consume_keyword(context, KeywordKind::Static) {
        Some(StorageClassSpecifier::Static)
    } else if consume_keyword(context, KeywordKind::ThreadLocal) {
        Some(StorageClassSpecifier::ThreadLocal)
    } else if consume_keyword(context, KeywordKind::Auto) {
        Some(StorageClassSpecifier::Auto)
    } else if consume_keyword(context, KeywordKind::Register) {
        Some(StorageClassSpecifier::Register)
    } else {
        None
    };
    Ok(found)
}

/// Parses the name of a type, if one is there.
pub fn type_specifier<'a, 'b>(context: &'a mut ParseContext<'b>) -> (result: Result<
    Option<TypeSpecifier<'b>>,
    ParseError,
>)
    ensures
        agrees(
            result,
            old(context)@,
            final(context)@,
            spec_type_specifier(old(context)@.tokens, old(context)@.position as int),
        ),
        moves_when_present(result, old(context)@, final(context)@),
{
    let found = if consume_keyword(context, KeywordKind::Void) {
        Some(TypeSpecifier::Void)
    } else if consume_keyword(context, KeywordKind::Char) {
        Some(TypeSpecifier::Char)
    } else if consume_keyword(context, KeywordKind::Short) {
        Some(TypeSpecifier::Short)
    } else if consume_keyword(context, KeywordKind::Int) {
        Some(TypeSpecifier::Int)
    } else if consume_keyword(context, KeywordKind::Long) {
        Some(TypeSpecifier::Long)
    } else if consume_keyword(context, KeywordKind::Float) {
        Some(TypeSpecifier::Float)
    } else if consume_keyword(context, KeywordKind::Double) {
        Some(TypeSpecifier::Double)
    } else if consume_keyword(context, KeywordKind::Signed) {
        Some(TypeSpecifier::Singned)
    } else if consume_keyword(context, KeywordKind::Unsigned) {
        Some(TypeSpecifier::Unsigned)
    } else if consume_keyword(context, KeywordKind::Bool) {
        Some(TypeSpecifier::Bool)
    } else if consume_keyword(context, KeywordKind::Complex) {
        Some(TypeSpecifier::Complex)
    } else {
        None
    };
    Ok(found)
}

/// Parses a type qualifier, if one is there.
pub fn type_qualifier<'a, 'b>(context: &'a mut ParseContext<'b>) -> (result: Result<
    Option<TypeQualifier>,
    ParseError,
>)
    ensures
        agrees(
            result,
            old(context)@,
            final(context)@,
            spec_type_qualifier(old(context)@.tokens, old(context)@.position as int),
        ),
        moves_when_present(result, old(context)@, final(context)@),
{
    let found = if consume_keyword(context, KeywordKind::Const) {
        Some(TypeQualifier::Const)
    } else if consume_keyword(context, KeywordKind::Restrict) {
        Some(TypeQualifier::Restrict)
    } else if consume_keyword(context, KeywordKind::Volatile) {
        Some(TypeQualifier::Volatile)
    } else if consume_keyword(context, KeywordKind::Atomic) {
        Some(TypeQualifier::Atomic)
    } else {
        None
    };
    Ok(found)
}

/// Parses a function specifier, if one is there.
pub fn function_specifier<'a, 'b>(context: &'a mut ParseContext<'b>) -> (result: Result<
    Option<DeclarationSpecifier<'b>>,
    ParseError,
>)
    ensures
        agrees(
            result,
            old(context)@,
            final(context)@,
            spec_function_specifier(old(context)@.tokens, old(context)@.position as int),
        ),
        moves_when_present(result, old(context)@, final(context)@),
{
    let found = if consume_keyword(context, KeywordKind::Inline) {
        Some(DeclarationSpecifier::FunctionSpecifier(FunctionSpecifier::Inline))
    } else if consume_keyword(context, KeywordKind::Noreturn) {
        Some(DeclarationSpecifier::FunctionSpecifier(FunctionSpecifier::Noreturn))
    } else {
        None
    };
    Ok(found)
}

/// Parses `_Alignas` and the constant expression in round brackets after it,
/// if `_Alignas` is there.
pub fn alignment_specifier<'a, 'b>(context: &'a mut ParseContext<'b>) -> (result: Result<
    Option<DeclarationSpecifier<'b>>,
    ParseError,
>)
    ensures
        agrees(
            result,
            old(context)@,
            final(context)@,
            spec_alignment_specifier(old(context)@.tokens, old(context)@.position as int),
        ),
        moves_when_present(result, old(context)@, final(context)@),
{
    reveal(spec_alignment_specifier);
    if !consume_keyword(context, KeywordKind::Alignas) {
        return Ok(None);
    }
    match expect_punctuator(context, PunctuatorKind::LeftRoundBracket) {
        Ok(_) => {},
        Err(error) => {
            return Err(error);
        },
    }
    let value = match conditional(context) {
        Ok(node) => node,
        Err(error) => {
            return Err(error);
        },
    };
    match expect_punctuator(context, PunctuatorKind::RightRoundBracket) {
        Ok(_) => Ok(Some(DeclarationSpecifier::AlignmentSpecifier(Either::Right(value)))),
        Err(error) => Err(error),
    }
}

/// Parses one declaration specifier, if one is there.
pub fn one_specifier<'a, 'b>(context: &'a mut ParseContext<'b>) -> (result: Result<
    Option<DeclarationSpecifier<'b>>,
    ParseError,
>)
    ensures
        agrees(
            result,
            old(context)@,
            final(context)@,
            spec_one_specifier(old(context)@.tokens, old(context)@.position as int),
        ),
        moves_when_present(result, old(context)@, final(context)@),
{
    reveal(spec_one_specifier);
    match storage_class_specifier(context) {
        Err(error) => {
            return Err(error);
        },
        Ok(Some(specifier)) => {
            return Ok(Some(DeclarationSpecifier::StorageSpecifier(specifier)));
        },
        Ok(None) => {},
    }
    match type_specifier(context) {
        Err(error) => {
            return Err(error);
        },
        Ok(Some(specifier)) => {
            return Ok(Some(DeclarationSpecifier::TypeSpecifier(specifier)));
        },
        Ok(None) => {},
    }
    match type_qualifier(context) {
        Err(error) => {
            return Err(error);
        },
        Ok(Some(qualifier)) => {
            return Ok(Some(DeclarationSpecifier::TypeQualifier(qualifier)));
        },
        Ok(None) => {},
    }
    match function_specifier(context) {
        Err(error) => {
            return Err(error);
        },
        Ok(Some(specifier)) => {
            return Ok(Some(specifier));
        },
        Ok(None) => {},
    }
    alignment_specifier(context)
}

/// Parses the declaration specifiers that are there, which may be none.
pub fn specifiers<'a, 'b>(context: &'a mut ParseContext<'b>) -> (result: Result<
    Vec<DeclarationSpecifier<'b>>,
    ParseError,
>)
    ensures
        agrees_list(
            result,
            old(context)@,
            final(context)@,
            spec_specifiers(old(context)@.tokens, old(context)@.position as int),
        ),
{
    reveal(spec_specifiers);
    let ghost tokens = context@.tokens;
    let ghost start = context@.position as int;
    let ghost goal = spec_specifiers(tokens, start);
    let mut declaration_specifiers: Vec<DeclarationSpecifier<'b>> = Vec::new();
    proof {
        lemma_models_empty(declaration_specifiers@);
        lemma_prefixed_start(spec_specifiers(tokens, start));
    }
    loop
        invariant
            context@.tokens == tokens,
            context@.position >= start,
            tokens == old(context)@.tokens,
            start == old(context)@.position,
            goal == spec_specifiers(tokens, start),
            goal == prefixed(
                models(declaration_specifiers@),
                (context@.position - start) as nat,
                spec_specifiers(tokens, context@.position as int),
            ),
        decreases tokens_left(tokens, context@.position as int),
    {
        reveal(spec_specifiers);
        reveal(spec_one_specifier);
        reveal(spec_alignment_specifier);
        let ghost position = context@.position as int;
        let ghost before = models(declaration_specifiers@);
        let specifier = match one_specifier(context) {
            Err(error) => {
                return Err(error);
            },
            Ok(None) => {
                proof {
                    assert(before + Seq::<DeclarationSpecifierView>::empty() =~= before);
                }
                return Ok(declaration_specifiers);
            },
            Ok(Some(specifier)) => specifier,
        };
        proof {
            lemma_models_push(declaration_specifiers@, specifier);
            lemma_prefixed_step(
                before,
                (position - start) as nat,
                specifier.deep_view(),
                (context@.position - position) as nat,
                spec_specifiers(tokens, context@.position as int),
            );
        }
        declaration_specifiers.push(specifier);
    }
}

/// Parses the declaration specifiers that are there. Where there is none,
/// nothing is read and the result is `None`.
pub fn declaration_specifier<'a, 'b>(context: &'a mut ParseContext<'b>) -> (result: Result<
    Option<NonEmptyVec<DeclarationSpecifier<'b>>>,
    ParseError,
>)
    ensures
        agrees(
            result,
            old(context)@,
            final(context)@,
            spec_declaration_specifier(old(context)@.tokens, old(context)@.position as int),
        ),
{
    reveal(spec_specifiers);
    match specifiers(context) {
        Ok(declaration_specifiers) => {
            proof {
                lemma_models(declaration_specifiers@);
            }
            Ok(vec_to_optional_non_empty_vec(declaration_specifiers))
        },
        Err(error) => Err(error),
    }
}

/// The outcome of reading a list that cannot fail of which `before` was read
/// in `by` tokens and `rest` is what the rest of the list gives.
pub open spec fn joined<T>(before: Seq<T>, by: nat, rest: (Seq<T>, nat)) -> (Seq<T>, nat) {
    (before + rest.0, by + rest.1)
}

/// Parses the type qualifiers that are there, which may be none.
pub fn qualifier_list<'a, 'b>(context: &'a mut ParseContext<'b>) -> (result: Vec<TypeQualifier>)
    ensures
        result@ == spec_qualifier_list(old(context)@.tokens, old(context)@.position as int).0,
        final(context)@ == old(context)@.advance(
            spec_qualifier_list(old(context)@.tokens, old(context)@.position as int).1,
        ),
{
    reveal(spec_qualifier_list);
    let ghost tokens = context@.tokens;
    let ghost start = context@.position as int;
    let ghost goal = spec_qualifier_list(tokens, start);
    let mut qualifiers: Vec<TypeQualifier> = Vec::new();
    assert(joined(qualifiers@, 0, goal).0 =~= goal.0);
    loop
        invariant
            context@.tokens == tokens,
            context@.position >= start,
            tokens == old(context)@.tokens,
            start == old(context)@.position,
            goal == spec_qualifier_list(tokens, start),
            goal == joined(
                qualifiers@,
                (context@.position - start) as nat,
                spec_qualifier_list(tokens, context@.position as int),
            ),
        decreases tokens_left(tokens, context@.position as int),
    {
        reveal(spec_qualifier_list);
        let ghost before = qualifiers@;
        let ghost position = context@.position as int;
        match type_qualifier(context) {
            Ok(Some(qualifier)) => {
                proof {
                    let rest = spec_qualifier_list(tokens, position + 1);
                    assert(before + (seq![qualifier] + rest.0) =~= before.push(qualifier) + rest.0);
                }
                qualifiers.push(qualifier);
            },
            _ => {
                proof {
                    assert(before + Seq::<TypeQualifier>::empty() =~= before);
                }
                return qualifiers;
            },
        }
    }
}

/// Parses the pointer layers that are there, which may be none.
pub fn pointer<'a, 'b>(context: &'a mut ParseContext<'b>) -> (result: Pointer)
    ensures
        stars(result@) == spec_pointer(old(context)@.tokens, old(context)@.position as int).0,
        final(context)@ == old(context)@.advance(
            spec_pointer(old(context)@.tokens, old(context)@.position as int).1,
        ),
{
    reveal(spec_pointer);
    let ghost tokens = context@.tokens;
    let ghost start = context@.position as int;
    let ghost goal = spec_pointer(tokens, start);
    let mut layers: Vec<Vec<TypeQualifier>> = Vec::new();
    proof {
        lemma_stars_empty(layers@);
        assert(joined(stars(layers@), 0, goal).0 =~= goal.0);
    }
    loop
        invariant
            context@.tokens == tokens,
            context@.position >= start,
            tokens == old(context)@.tokens,
            start == old(context)@.position,
            goal == spec_pointer(tokens, start),
            goal == joined(
                stars(layers@),
                (context@.position - start) as nat,
                spec_pointer(tokens, context@.position as int),
            ),
        decreases tokens_left(tokens, context@.position as int),
    {
        reveal(spec_pointer);
        let ghost before = stars(layers@);
        let ghost position = context@.position as int;
        if !consume_punctuator(context, PunctuatorKind::Star) {
            proof {
                assert(before + Seq::<Seq<TypeQualifier>>::empty() =~= before);
            }
            return layers;
        }
        let qualifiers = qualifier_list(context);
        proof {
            lemma_stars_push(layers@, qualifiers);
            let rest = spec_pointer(tokens, context@.position as int);
            assert(before + (seq![qualifiers@] + rest.0) =~= before.push(qualifiers@) + rest.0);
        }
        layers.push(qualifiers);
    }
}

/// Parses what stands in the square brackets of an array suffix, after the
/// opening bracket, up to and with the closing bracket.
pub fn array_suffix<'a, 'b>(context: &'a mut ParseContext<'b>) -> (result: Result<
    (Vec<TypeQualifier>, Option<ExpressionNode<'b>>),
    ParseError,
>)
    ensures
        match spec_array_suffix(old(context)@.tokens, old(context)@.position as int) {
            Ok((suffix, count)) => {
                &&& result matches Ok(found)
                &&& found.0@ == suffix.0
                &&& found.1.deep_view() == suffix.1
                &&& final(context)@ == old(context)@.advance(count)
            },
            Err((error, count)) => {
                &&& result matches Err(found)
                &&& found == error
                &&& final(context)@ == old(context)@.advance(count)
            },
        },
{
    reveal(spec_array_suffix);
    let qualifiers = qualifier_list(context);
    if consume_punctuator(context, PunctuatorKind::RightSquareBracket) {
        return Ok((qualifiers, None));
    }
    let size = match assign(context) {
        Ok(node) => node,
        Err(error) => {
            return Err(error);
        },
    };
    match expect_punctuator(context, PunctuatorKind::RightSquareBracket) {
        Ok(_) => Ok((qualifiers, Some(size))),
        Err(error) => Err(error),
    }
}

/// The model of what stands in the round brackets of a function suffix.
pub open spec fn parameters_model(
    parameters: Either<ParameterTypeList<'_>, IdentifierList<'_>>,
) -> Either<ParameterTypeListView, Seq<Seq<char>>> {
    match parameters {
        Either::Left(list) => Either::Left(list.model()),
        Either::Right(identifiers) => Either::Right(models(identifiers@)),
    }
}

/// A parameter list of which nothing was read yet gives what its rest gives.
pub proof fn lemma_with_parameters_start(outcome: Parsed<ParameterTypeListView>)
    ensures
        with_parameters(Seq::empty(), 0, outcome) == outcome,
{
    match outcome {
        Ok((rest, count)) => {
            assert(Seq::<ParameterDeclarationView>::empty() + rest.parameter_list
                =~= rest.parameter_list);
        },
        Err(_) => {},
    }
}

/// Reading one more parameter in `count` tokens, before the rest of a
/// parameter list, extends what was read before.
pub proof fn lemma_with_parameters_step(
    before: Seq<ParameterDeclarationView>,
    by: nat,
    parameter: ParameterDeclarationView,
    count: nat,
    outcome: Parsed<ParameterTypeListView>,
)
    ensures
        with_parameters(before, by, with_parameters(seq![parameter], count, outcome))
            == with_parameters(before.push(parameter), by + count, outcome),
{
    match outcome {
        Ok((rest, more)) => {
            assert(before + (seq![parameter] + rest.parameter_list) =~= before.push(parameter)
                + rest.parameter_list);
        },
        Err(_) => {},
    }
}

/// Parses a list of identifiers up to and with the closing round bracket.
pub fn identifier_list<'a, 'b>(context: &'a mut ParseContext<'b>) -> (result: Result<
    IdentifierList<'b>,
    ParseError,
>)
    ensures
        agrees_list(
            result,
            old(context)@,
            final(context)@,
            spec_identifier_list(old(context)@.tokens, old(context)@.position as int),
        ),
{
    reveal(spec_identifier_list);
    let ghost tokens = context@.tokens;
    let ghost start = context@.position as int;
    let ghost goal = spec_identifier_list(tokens, start);
    let mut identifiers: Vec<&'b str> = Vec::new();
    proof {
        lemma_models_empty(identifiers@);
        lemma_prefixed_start(spec_identifier_list(tokens, start));
    }
    loop
        invariant
            context@.tokens == tokens,
            context@.position >= start,
            tokens == old(context)@.tokens,
            start == old(context)@.position,
            goal == spec_identifier_list(tokens, start),
            goal == prefixed(
                models(identifiers@),
                (context@.position - start) as nat,
                spec_identifier_list(tokens, context@.position as int),
            ),
        decreases tokens_left(tokens, context@.position as int),
    {
        reveal(spec_identifier_list);
        let ghost position = context@.position as int;
        let ghost before = models(identifiers@);
        let name = match crate::parser::util::expect_identifier(context) {
            Ok(text) => text,
            Err(error) => {
                return Err(error);
            },
        };
        proof {
            lemma_models_push(identifiers@, name);
            lemma_prefixed_step(
                before,
                (position - start) as nat,
                name@,
                2,
                spec_identifier_list(tokens, position + 2),
            );
        }
        identifiers.push(name);
        if !consume_punctuator(context, PunctuatorKind::Commma) {
            match expect_punctuator(context, PunctuatorKind::RightRoundBracket) {
                Ok(_) => {
                    return Ok(identifiers);
                },
                Err(error) => {
                    return Err(error);
                },
            }
        }
    }
}

/// Parses what stands in the round brackets of a function suffix, after the
/// opening bracket, up to and with the closing bracket.
#[verifier::spinoff_prover]
pub fn parameters<'a, 'b>(context: &'a mut ParseContext<'b>) -> (result: Result<
    Either<ParameterTypeList<'b>, IdentifierList<'b>>,
    ParseError,
>)
    ensures
        spec_parameters(old(context)@.tokens, old(context)@.position as int) matches Ok(
            (value, count),
        ) ==> {
            &&& result matches Ok(found)
            &&& parameters_model(found) == value
            &&& final(context)@ == old(context)@.advance(count)
        },
        spec_parameters(old(context)@.tokens, old(context)@.position as int) matches Err(
            (error, count),
        ) ==> {
            &&& result matches Err(found)
            &&& found == error
            &&& final(context)@ == old(context)@.advance(count)
        },
    decreases tokens_left(old(context)@.tokens, old(context)@.position as int), 9nat,
{
    reveal(spec_parameters);
    reveal(spec_parameter_type_list);
    if consume_punctuator(context, PunctuatorKind::RightRoundBracket) {
        let identifiers: Vec<&'b str> = Vec::new();
        proof {
            lemma_models_empty(identifiers@);
        }
        return Ok(Either::Right(identifiers));
    }
    if let Token::Identifier(_) = context.peek(0) {
        match identifier_list(context) {
            Ok(identifiers) => Ok(Either::Right(identifiers)),
            Err(error) => Err(error),
        }
    } else {
        match parameter_type_list(context) {
            Ok(list) => Ok(Either::Left(list)),
            Err(error) => Err(error),
        }
    }
}

/// Parses a list of parameter declarations up to and with the closing round
/// bracket.
#[verifier::spinoff_prover]
pub fn parameter_type_list<'a, 'b>(context: &'a mut ParseContext<'b>) -> (result: Result<
    ParameterTypeList<'b>,
    ParseError,
>)
    ensures
        agrees(
            result,
            old(context)@,
            final(context)@,
            spec_parameter_type_list(old(context)@.tokens, old(context)@.position as int),
        ),
    decreases tokens_left(old(context)@.tokens, old(context)@.position as int), 8nat,
{
    reveal(spec_parameter_type_list);
    reveal(spec_parameter_declaration);
    let ghost tokens = context@.tokens;
    let ghost start = context@.position as int;
    let ghost goal = spec_parameter_type_list(tokens, start);
    let mut list: Vec<ParameterDeclaration<'b>> = Vec::new();
    let mut variable_parameter = false;
    proof {
        lemma_models_empty(list@);
        lemma_with_parameters_start(spec_parameter_type_list(tokens, start));
    }
    loop
        invariant_except_break
            !variable_parameter,
            goal == with_parameters(
                models(list@),
                (context@.position - start) as nat,
                spec_parameter_type_list(tokens, context@.position as int),
            ),
        invariant
            context@.tokens == tokens,
            context@.position >= start,
            tokens == old(context)@.tokens,
            start == old(context)@.position,
            goal == spec_parameter_type_list(tokens, start),
        ensures
            list@.len() > 0,
            goal == Ok::<(ParameterTypeListView, nat), (ParseError, nat)>(
                (
                    ParameterTypeListView { parameter_list: models(list@), variable_parameter },
                    (context@.position - start) as nat,
                ),
            ),
        decreases tokens_left(tokens, context@.position as int),
    {
        reveal(spec_parameter_type_list);
        reveal(spec_parameter_declaration);
        let ghost position = context@.position as int;
        let ghost before = models(list@);
        let parameter = match parameter_declaration(context) {
            Ok(found) => found,
            Err(error) => {
                return Err(error);
            },
        };
        let ghost count = (context@.position - position) as nat;
        proof {
            lemma_models_push(list@, parameter);
            lemma_with_parameters_step(
                before,
                (position - start) as nat,
                parameter@,
                count + 1,
                spec_parameter_type_list(tokens, position + count + 1),
            );
        }
        list.push(parameter);
        if consume_punctuator(context, PunctuatorKind::Commma) {
            if consume_punctuator(context, PunctuatorKind::TripleDots) {
                match expect_punctuator(context, PunctuatorKind::RightRoundBracket) {
                    Ok(_) => {
                        variable_parameter = true;
                        break ;
                    },
                    Err(error) => {
                        return Err(error);
                    },
                }
            }
        } else {
            match expect_punctuator(context, PunctuatorKind::RightRoundBracket) {
                Ok(_) => {
                    break ;
                },
                Err(error) => {
                    return Err(error);
                },
            }
        }
    }
    match vec_to_optional_non_empty_vec(list) {
        Some(parameter_list) => {
            let result = ParameterTypeList { parameter_list, variable_parameter };
            proof {
                lemma_parameter_list_model(result);
            }
            Ok(result)
        },
        None => Err(ParseError::ExpectedDeclaration),
    }
}

/// Parses a parameter: its specifiers and its declarator, if it has one.
#[verifier::spinoff_prover]
pub fn parameter_declaration<'a, 'b>(context: &'a mut ParseContext<'b>) -> (result: Result<
    ParameterDeclaration<'b>,
    ParseError,
>)
    ensures
        agrees(
            result,
            old(context)@,
            final(context)@,
            spec_parameter_declaration(old(context)@.tokens, old(context)@.position as int),
        ),
    decreases tokens_left(old(context)@.tokens, old(context)@.position as int), 7nat,
{
    reveal(spec_parameter_declaration);
    reveal(spec_parameter_declarator);
    let found = match specifiers(context) {
        Ok(found) => found,
        Err(error) => {
            return Err(error);
        },
    };
    proof {
        lemma_models(found@);
    }
    let list = match vec_to_optional_non_empty_vec(found) {
        Some(list) => list,
        None => {
            return Err(ParseError::ExpectedDeclaration);
        },
    };
    let declarator = match parameter_declarator(context) {
        Ok(Some(found)) => Some(Box::new(found)),
        Ok(None) => None,
        Err(error) => {
            return Err(error);
        },
    };
    Ok(ParameterDeclaration { specifiers: list, declarator })
}

/// Whether `token` after an opening round bracket shows that the bracket
/// opens a declarator in brackets.
pub fn can_start_nested_declarator(token: Token) -> (result: bool)
    ensures
        result == starts_nested_declarator(token@),
{
    match token {
        Token::Identifier(_) => true,
        Token::Punctuator(punctuator) => {
            punctuator == PunctuatorKind::Star || punctuator == PunctuatorKind::LeftRoundBracket
                || punctuator == PunctuatorKind::LeftSquareBracket
        },
        _ => false,
    }
}

/// Parses the declarator of a parameter, with a name or without one, if one
/// is there.
#[verifier::spinoff_prover]
pub fn parameter_declarator<'a, 'b>(context: &'a mut ParseContext<'b>) -> (result: Result<
    Option<Either<Declarator<'b>, AbstractDeclarator<'b>>>,
    ParseError,
>)
    ensures
        agrees(
            result,
            old(context)@,
            final(context)@,
            spec_parameter_declarator(old(context)@.tokens, old(context)@.position as int),
        ),
    decreases tokens_left(old(context)@.tokens, old(context)@.position as int), 6nat,
{
    reveal(spec_parameter_declarator);
    reveal(spec_declarator_suffixes);
    reveal(spec_abstract_suffixes);
    let start: usize = context.position();
    let layers = pointer(context);
    if let Token::Identifier(name) = context.peek(0) {
        consume_token(context);
        match declarator_suffixes(context, DirectDeclarator::Identifier(name)) {
            Ok(direct) => Ok(Some(Either::Left(Declarator { pointer: layers, identifier: direct }))),
            Err(error) => Err(error),
        }
    } else if matches!(context.peek(0), Token::Punctuator(PunctuatorKind::LeftRoundBracket))
        && can_start_nested_declarator(context.peek(1)) {
        consume_token(context);
        let inner = match parameter_declarator(context) {
            Ok(Some(inner)) => inner,
            Ok(None) => {
                return Err(ParseError::ExpectedIdentifier);
            },
            Err(error) => {
                return Err(error);
            },
        };
        match expect_punctuator(context, PunctuatorKind::RightRoundBracket) {
            Ok(_) => {},
            Err(error) => {
                return Err(error);
            },
        }
        match inner {
            Either::Left(with_name) => match declarator_suffixes(
                context,
                DirectDeclarator::Declarator(Box::new(with_name)),
            ) {
                Ok(direct) => Ok(
                    Some(Either::Left(Declarator { pointer: layers, identifier: direct })),
                ),
                Err(error) => Err(error),
            },
            Either::Right(without_name) => match abstract_suffixes(
                context,
                Some(DirectAbstarctDeclarator::Declarator(Box::new(without_name))),
            ) {
                Ok(direct) => Ok(
                    Some(Either::Right(AbstractDeclarator { pointer: layers, declarator: direct })),
                ),
                Err(error) => Err(error),
            },
        }
    } else {
        match abstract_suffixes(context, None) {
            Ok(direct) => {
                if context.position() == start {
                    Ok(None)
                } else {
                    Ok(Some(Either::Right(AbstractDeclarator { pointer: layers, declarator: direct })))
                }
            },
            Err(error) => Err(error),
        }
    }
}

/// The model of a direct declarator without a name that may be missing.
pub open spec fn optional_model(current: Option<DirectAbstarctDeclarator<'_>>) -> Option<
    DirectAbstarctDeclaratorView,
> {
    match current {
        Some(direct) => Some(direct.model()),
        None => None,
    }
}

/// `current` in a box, if there is one.
fn into_box<'b>(current: Option<DirectAbstarctDeclarator<'b>>) -> (result: Option<
    Box<DirectAbstarctDeclarator<'b>>,
>)
    ensures
        result == boxed(current),
{
    match current {
        Some(direct) => Some(Box::new(direct)),
        None => None,
    }
}

/// Parses the suffixes of a declarator without a name, after the direct
/// declarator `current`, which may be nothing.
#[verifier::spinoff_prover]
pub fn abstract_suffixes<'a, 'b>(
    context: &'a mut ParseContext<'b>,
    current: Option<DirectAbstarctDeclarator<'b>>,
) -> (result: Result<Option<DirectAbstarctDeclarator<'b>>, ParseError>)
    ensures
        agrees(
            result,
            old(context)@,
            final(context)@,
            spec_abstract_suffixes(
                old(context)@.tokens,
                old(context)@.position as int,
                optional_model(current),
            ),
        ),
    decreases tokens_left(old(context)@.tokens, old(context)@.position as int), 5nat,
{
    reveal(spec_abstract_suffixes);
    reveal(spec_parameter_type_list);
    let ghost tokens = context@.tokens;
    let ghost start = context@.position as int;
    let ghost goal = spec_abstract_suffixes(tokens, start, optional_model(current));
    let mut latest = current;
    loop
        invariant_except_break
            goal == shifted(
                (context@.position - start) as nat,
                spec_abstract_suffixes(tokens, context@.position as int, optional_model(latest)),
            ),
        invariant
            goal == spec_abstract_suffixes(tokens, start, optional_model(current)),
            context@.tokens == tokens,
            context@.position >= start,
            tokens == old(context)@.tokens,
            start == old(context)@.position,
        ensures
            goal == Ok::<(Option<DirectAbstarctDeclaratorView>, nat), (ParseError, nat)>(
                (optional_model(latest), (context@.position - start) as nat),
            ),
        decreases tokens_left(tokens, context@.position as int),
    {
        reveal(spec_abstract_suffixes);
        reveal(spec_parameter_type_list);
        let ghost position = context@.position as int;
        let ghost before = optional_model(latest);
        if consume_punctuator(context, PunctuatorKind::LeftSquareBracket) {
            let (qualifiers, size) = match array_suffix(context) {
                Ok(suffix) => suffix,
                Err(error) => {
                    return Err(error);
                },
            };
            latest = Some(DirectAbstarctDeclarator::Array(into_box(latest), qualifiers, size));
            proof {
                lemma_shifted_twice(
                    (position - start) as nat,
                    (context@.position - position) as nat,
                    spec_abstract_suffixes(
                        tokens,
                        context@.position as int,
                        optional_model(latest),
                    ),
                );
            }
        } else if consume_punctuator(context, PunctuatorKind::LeftRoundBracket) {
            let list = match parameter_type_list(context) {
                Ok(list) => list,
                Err(error) => {
                    return Err(error);
                },
            };
            latest = Some(DirectAbstarctDeclarator::Function(into_box(latest), list));
            proof {
                lemma_shifted_twice(
                    (position - start) as nat,
                    (context@.position - position) as nat,
                    spec_abstract_suffixes(
                        tokens,
                        context@.position as int,
                        optional_model(latest),
                    ),
                );
            }
        } else {
            break ;
        }
    }
    Ok(latest)
}

/// Parses the suffixes of a declarator after the direct declarator
/// `current`. Each suffix wraps what stands before it.
#[verifier::spinoff_prover]
pub fn declarator_suffixes<'a, 'b>(
    context: &'a mut ParseContext<'b>,
    current: DirectDeclarator<'b>,
) -> (result: Result<DirectDeclarator<'b>, ParseError>)
    ensures
        agrees(
            result,
            old(context)@,
            final(context)@,
            spec_declarator_suffixes(
                old(context)@.tokens,
                old(context)@.position as int,
                current.model(),
            ),
        ),
    decreases tokens_left(old(context)@.tokens, old(context)@.position as int), 2nat,
{
    reveal(spec_declarator_suffixes);
    reveal(spec_parameters);
    let ghost tokens = context@.tokens;
    let ghost start = context@.position as int;
    let ghost goal = spec_declarator_suffixes(tokens, start, current.model());
    let mut latest = current;
    loop
        invariant_except_break
            goal == shifted(
                (context@.position - start) as nat,
                spec_declarator_suffixes(tokens, context@.position as int, latest.model()),
            ),
        invariant
            goal == spec_declarator_suffixes(tokens, start, current.model()),
            context@.tokens == tokens,
            context@.position >= start,
            tokens == old(context)@.tokens,
            start == old(context)@.position,
        ensures
            goal == Ok::<(DirectDeclaratorView, nat), (ParseError, nat)>(
                (latest.model(), (context@.position - start) as nat),
            ),
        decreases tokens_left(tokens, context@.position as int),
    {
        reveal(spec_declarator_suffixes);
        reveal(spec_parameters);
        let ghost position = context@.position as int;
        if consume_punctuator(context, PunctuatorKind::LeftSquareBracket) {
            let (qualifiers, size) = match array_suffix(context) {
                Ok(suffix) => suffix,
                Err(error) => {
                    return Err(error);
                },
            };
            latest = DirectDeclarator::Array(Box::new(latest), qualifiers, size);
            proof {
                lemma_shifted_twice(
                    (position - start) as nat,
                    (context@.position - position) as nat,
                    spec_declarator_suffixes(tokens, context@.position as int, latest.model()),
                );
            }
        } else if consume_punctuator(context, PunctuatorKind::LeftRoundBracket) {
            let found = match parameters(context) {
                Ok(found) => found,
                Err(error) => {
                    return Err(error);
                },
            };
            latest = DirectDeclarator::Function(Box::new(latest), found);
            proof {
                lemma_shifted_twice(
                    (position - start) as nat,
                    (context@.position - position) as nat,
                    spec_declarator_suffixes(tokens, context@.position as int, latest.model()),
                );
            }
        } else {
            break ;
        }
    }
    Ok(latest)
}

/// Parses a direct declarator, if an identifier or an opening round bracket
/// is there.
#[verifier::spinoff_prover]
pub fn direct_declarator<'a, 'b>(context: &'a mut ParseContext<'b>) -> (result: Result<
    Option<DirectDeclarator<'b>>,
    ParseError,
>)
    ensures
        agrees(
            result,
            old(context)@,
            final(context)@,
            spec_direct_declarator(old(context)@.tokens, old(context)@.position as int),
        ),
        moves_when_present(result, old(context)@, final(context)@),
    decreases tokens_left(old(context)@.tokens, old(context)@.position as int), 3nat,
{
    reveal(spec_direct_declarator);
    reveal(spec_declarator);
    reveal(spec_declarator_suffixes);
    if consume_punctuator(context, PunctuatorKind::LeftRoundBracket) {
        let inner = match declarator(context) {
            Ok(Some(inner)) => inner,
            Ok(None) => {
                return Err(ParseError::ExpectedIdentifier);
            },
            Err(error) => {
                return Err(error);
            },
        };
        match expect_punctuator(context, PunctuatorKind::RightRoundBracket) {
            Ok(_) => {},
            Err(error) => {
                return Err(error);
            },
        }
        match declarator_suffixes(context, DirectDeclarator::Declarator(Box::new(inner))) {
            Ok(direct) => Ok(Some(direct)),
            Err(error) => Err(error),
        }
    } else if let Token::Identifier(name) = context.peek(0) {
        consume_token(context);
        match declarator_suffixes(context, DirectDeclarator::Identifier(name)) {
            Ok(direct) => Ok(Some(direct)),
            Err(error) => Err(error),
        }
    } else {
        Ok(None)
    }
}

/// Parses a declarator, if a pointer layer or a direct declarator is there.
#[verifier::spinoff_prover]
pub fn declarator<'a, 'b>(context: &'a mut ParseContext<'b>) -> (result: Result<
    Option<Declarator<'b>>,
    ParseError,
>)
    ensures
        agrees(
            result,
            old(context)@,
            final(context)@,
            spec_declarator(old(context)@.tokens, old(context)@.position as int),
        ),
        moves_when_present(result, old(context)@, final(context)@),
    decreases tokens_left(old(context)@.tokens, old(context)@.position as int), 4nat,
{
    reveal(spec_declarator);
    reveal(spec_direct_declarator);
    let start: usize = context.position();
    let layers = pointer(context);
    let after_pointer: usize = context.position();
    match direct_declarator(context) {
        Ok(Some(direct)) => Ok(Some(Declarator { pointer: layers, identifier: direct })),
        Ok(None) => {
            if after_pointer == start {
                Ok(None)
            } else {
                Err(ParseError::ExpectedIdentifier)
            }
        },
        Err(error) => Err(error),
    }
}

/// Parses a declarator and the value after `=`, if a declarator is there.
pub fn init_declarator<'a, 'b>(context: &'a mut ParseContext<'b>) -> (result: Result<
    Option<InitDeclarator<'b>>,
    ParseError,
>)
    ensures
        agrees(
            result,
            old(context)@,
            final(context)@,
            spec_init_declarator(old(context)@.tokens, old(context)@.position as int),
        ),
        moves_when_present(result, old(context)@, final(context)@),
{
    reveal(spec_init_declarator);
    let found = match declarator(context) {
        Ok(Some(found)) => found,
        Ok(None) => {
            return Ok(None);
        },
        Err(error) => {
            return Err(error);
        },
    };
    if consume_punctuator(context, PunctuatorKind::Equal) {
        match assign(context) {
            Ok(value) => Ok(Some(InitDeclarator { declarator: found, initializer: Some(value) })),
            Err(error) => Err(error),
        }
    } else {
        Ok(Some(InitDeclarator { declarator: found, initializer: None }))
    }
}

/// Parses declarators, each with the value it may have, with commas between
/// them.
pub fn init_declarator_list<'a, 'b>(context: &'a mut ParseContext<'b>) -> (result: Result<
    Vec<InitDeclarator<'b>>,
    ParseError,
>)
    ensures
        agrees_list(
            result,
            old(context)@,
            final(context)@,
            spec_init_declarator_list(old(context)@.tokens, old(context)@.position as int),
        ),
{
    reveal(spec_init_declarator_list);
    let ghost tokens = context@.tokens;
    let ghost start = context@.position as int;
    let ghost goal = spec_init_declarator_list(tokens, start);
    let mut init_declarators: Vec<InitDeclarator<'b>> = Vec::new();
    proof {
        lemma_models_empty(init_declarators@);
        lemma_prefixed_start(spec_init_declarator_list(tokens, start));
    }
    loop
        invariant
            context@.tokens == tokens,
            context@.position >= start,
            tokens == old(context)@.tokens,
            start == old(context)@.position,
            goal == spec_init_declarator_list(tokens, start),
            goal == prefixed(
                models(init_declarators@),
                (context@.position - start) as nat,
                spec_init_declarator_list(tokens, context@.position as int),
            ),
        decreases tokens_left(tokens, context@.position as int),
    {
        reveal(spec_init_declarator_list);
        let ghost position = context@.position as int;
        let ghost before = models(init_declarators@);
        let found = match init_declarator(context) {
            Ok(Some(found)) => found,
            Ok(None) => {
                return Err(ParseError::ExpectedDeclaration);
            },
            Err(error) => {
                return Err(error);
            },
        };
        proof {
            lemma_models_push(init_declarators@, found);
            lemma_prefixed_step(
                before,
                (position - start) as nat,
                found.deep_view(),
                (context@.position - position + 1) as nat,
                spec_init_declarator_list(tokens, context@.position as int + 1),
            );
        }
        init_declarators.push(found);
        if !consume_punctuator(context, PunctuatorKind::Commma) {
            return Ok(init_declarators);
        }
    }
}

/// Parses a declaration. Where no declaration specifier is at the cursor,
/// what stands there is no declaration: nothing is read and the result is
/// `None`.
pub fn declaration<'a, 'b>(context: &'a mut ParseContext<'b>) -> (result: Result<
    Option<Declaration<'b>>,
    ParseError,
>)
    ensures
        agrees(
            result,
            old(context)@,
            final(context)@,
            spec_declaration(old(context)@.tokens, old(context)@.position as int),
        ),
        moves_when_present(result, old(context)@, final(context)@),
{
    reveal(spec_declaration);
    reveal(spec_specifiers);
    let declaration_specifiers = match declaration_specifier(context) {
        Ok(Some(found)) => found,
        Ok(None) => {
            return Ok(None);
        },
        Err(error) => {
            return Err(error);
        },
    };
    let init_declarators = match init_declarator_list(context) {
        Ok(found) => found,
        Err(error) => {
            return Err(error);
        },
    };
    match expect_punctuator(context, PunctuatorKind::Semicolon) {
        Ok(_) => Ok(
            Some(Declaration { specifiers: declaration_specifiers, declarators: init_declarators }),
        ),
        Err(error) => Err(error),
    }
}

} // verus!
