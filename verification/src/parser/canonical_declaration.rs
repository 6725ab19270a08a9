//! The canonical form of a declaration, and the proof that parsing it gives
//! the declaration back.

use crate::parser::canonical::{
    canonical, holds_at, lemma_assign_of_primary, lemma_canonical_primary,
    lemma_conditional_of_primary, lemma_holds_first, lemma_holds_one, lemma_holds_split, printable,
    punctuator,
};
use crate::parser::canonical_statement::keyword;
use crate::parser::declaration::{
    boxed, function_specifier_of, spec_abstract_suffixes, spec_alignment_specifier,
    spec_array_suffix, spec_declaration, spec_declarator, spec_declarator_suffixes,
    spec_direct_declarator, spec_identifier_list, spec_init_declarator, spec_init_declarator_list,
    spec_one_specifier, spec_parameter_declaration, spec_parameter_declarator,
    spec_parameter_type_list, spec_parameters, spec_pointer, spec_qualifier_list, spec_specifiers,
    storage_class_of, type_qualifier_of, type_specifier_of, AbstractDeclaratorView,
    DeclarationSpecifierView, DeclarationView, DeclaratorView, DirectAbstarctDeclaratorView,
    DirectDeclaratorView, FunctionSpecifier, InitDeclaratorView, ParameterDeclarationView,
    ParameterTypeListView, StorageClassSpecifier, TypeQualifier, TypeSpecifierView,
};
use crate::parser::expression::ExpressionView;
use crate::parser::util::{
    lemma_shifted_twice, punctuator_at, shifted, token_at, ParseError, Parsed,
};
use crate::tokenizer::{KeywordKind, PunctuatorKind, TokenView};
use crate::util::Either;
use vstd::prelude::*;

verus! {

/// The keyword of a storage class.
pub open spec fn storage_keyword(specifier: StorageClassSpecifier) -> KeywordKind {
    match specifier {
        StorageClassSpecifier::Typedef => KeywordKind::Typedef,
        StorageClassSpecifier::Extern => KeywordKind::Extern,
        StorageClassSpecifier::Static => KeywordKind::Static,
        StorageClassSpecifier::ThreadLocal => KeywordKind::ThreadLocal,
        StorageClassSpecifier::Auto => KeywordKind::Auto,
        StorageClassSpecifier::Register => KeywordKind::Register,
    }
}

/// The keyword of a type, for the types that one keyword names.
pub open spec fn type_keyword(specifier: TypeSpecifierView) -> Option<KeywordKind> {
    match specifier {
        TypeSpecifierView::Void => Some(KeywordKind::Void),
        TypeSpecifierView::Char => Some(KeywordKind::Char),
        TypeSpecifierView::Short => Some(KeywordKind::Short),
        TypeSpecifierView::Int => Some(KeywordKind::Int),
        TypeSpecifierView::Long => Some(KeywordKind::Long),
        TypeSpecifierView::Float => Some(KeywordKind::Float),
        TypeSpecifierView::Double => Some(KeywordKind::Double),
        TypeSpecifierView::Singned => Some(KeywordKind::Signed),
        TypeSpecifierView::Unsigned => Some(KeywordKind::Unsigned),
        TypeSpecifierView::Bool => Some(KeywordKind::Bool),
        TypeSpecifierView::Complex => Some(KeywordKind::Complex),
        _ => None,
    }
}

/// The keyword of a type qualifier.
pub open spec fn qualifier_keyword(qualifier: TypeQualifier) -> KeywordKind {
    match qualifier {
        TypeQualifier::Const => KeywordKind::Const,
        TypeQualifier::Restrict => KeywordKind::Restrict,
        TypeQualifier::Volatile => KeywordKind::Volatile,
        TypeQualifier::Atomic => KeywordKind::Atomic,
    }
}

/// The keyword of a function specifier.
pub open spec fn function_keyword(specifier: FunctionSpecifier) -> KeywordKind {
    match specifier {
        FunctionSpecifier::Inline => KeywordKind::Inline,
        FunctionSpecifier::Noreturn => KeywordKind::Noreturn,
    }
}

/// Whether a declaration specifier can start with `token`.
pub open spec fn starts_specifier(token: TokenView) -> bool {
    ||| storage_class_of(token) is Some
    ||| type_specifier_of(token) is Some
    ||| type_qualifier_of(token) is Some
    ||| function_specifier_of(token) is Some
    ||| token == keyword(KeywordKind::Alignas)
}

/// Whether the grammar can give the specifier: its type is one that a
/// keyword names, and its alignment is a printable expression.
pub open spec fn printable_specifier(specifier: DeclarationSpecifierView) -> bool {
    match specifier {
        DeclarationSpecifierView::TypeSpecifier(found) => type_keyword(found) is Some,
        DeclarationSpecifierView::AlignmentSpecifier(found) => match found {
            Either::Left(_) => false,
            Either::Right(value) => printable(value),
        },
        _ => true,
    }
}

/// The canonical form of a declaration specifier: its keyword, and for an
/// alignment the canonical form of the expression in round brackets after
/// it.
pub open spec fn canonical_specifier(specifier: DeclarationSpecifierView) -> Seq<TokenView> {
    match specifier {
        DeclarationSpecifierView::StorageSpecifier(found) => seq![keyword(storage_keyword(found))],
        DeclarationSpecifierView::TypeSpecifier(found) => seq![
            keyword(type_keyword(found).unwrap()),
        ],
        DeclarationSpecifierView::TypeQualifier(found) => seq![keyword(qualifier_keyword(found))],
        DeclarationSpecifierView::FunctionSpecifier(found) => seq![
            keyword(function_keyword(found)),
        ],
        DeclarationSpecifierView::AlignmentSpecifier(found) => match found {
            Either::Left(_) => Seq::empty(),
            Either::Right(value) => seq![keyword(KeywordKind::Alignas)] + (seq![
                punctuator(PunctuatorKind::LeftRoundBracket),
            ] + (canonical(value) + seq![punctuator(PunctuatorKind::RightRoundBracket)])),
        },
    }
}

/// Whether the specifiers from the one at `from` on are printable.
#[verifier::opaque]
pub open spec fn printable_specifiers(specifiers: Seq<DeclarationSpecifierView>, from: int) -> bool
    decreases specifiers.len() - from,
{
    if 0 <= from < specifiers.len() {
        printable_specifier(specifiers[from]) && printable_specifiers(specifiers, from + 1)
    } else {
        true
    }
}

/// The canonical form of the specifiers from the one at `from` on: their
/// canonical forms one after the other.
#[verifier::opaque]
pub open spec fn canonical_specifiers(specifiers: Seq<DeclarationSpecifierView>, from: int) -> Seq<
    TokenView,
>
    decreases specifiers.len() - from,
{
    if 0 <= from < specifiers.len() {
        canonical_specifier(specifiers[from]) + canonical_specifiers(specifiers, from + 1)
    } else {
        Seq::empty()
    }
}

/// The canonical form of the qualifiers from the one at `from` on: their
/// keywords.
#[verifier::opaque]
pub open spec fn canonical_qualifiers(qualifiers: Seq<TypeQualifier>, from: int) -> Seq<TokenView>
    decreases qualifiers.len() - from,
{
    if 0 <= from < qualifiers.len() {
        seq![keyword(qualifier_keyword(qualifiers[from]))] + canonical_qualifiers(
            qualifiers,
            from + 1,
        )
    } else {
        Seq::empty()
    }
}

/// The canonical form of the pointer layers from the one at `from` on: for
/// each a `*` and its qualifiers.
#[verifier::opaque]
pub open spec fn canonical_pointer(pointer: Seq<Seq<TypeQualifier>>, from: int) -> Seq<TokenView>
    decreases pointer.len() - from,
{
    if 0 <= from < pointer.len() {
        seq![punctuator(PunctuatorKind::Star)] + (canonical_qualifiers(pointer[from], 0)
            + canonical_pointer(pointer, from + 1))
    } else {
        Seq::empty()
    }
}

/// The canonical form of a printable specifier is read as the specifier.
#[verifier::spinoff_prover]
pub proof fn lemma_canonical_specifier(
    tokens: Seq<TokenView>,
    position: int,
    specifier: DeclarationSpecifierView,
)
    requires
        printable_specifier(specifier),
        holds_at(tokens, position, canonical_specifier(specifier)),
    ensures
        spec_one_specifier(tokens, position) == Ok::<
            (Option<DeclarationSpecifierView>, nat),
            (ParseError, nat),
        >((Some(specifier), canonical_specifier(specifier).len())),
        canonical_specifier(specifier).len() > 0,
        0 <= position < tokens.len(),
        starts_specifier(token_at(tokens, position)),
{
    reveal(spec_one_specifier);
    reveal(spec_alignment_specifier);
    let form = canonical_specifier(specifier);
    match specifier {
        DeclarationSpecifierView::AlignmentSpecifier(found) => {
            let value = found->Right_0;
            let inner = canonical(value);
            let open = punctuator(PunctuatorKind::LeftRoundBracket);
            let close = punctuator(PunctuatorKind::RightRoundBracket);
            lemma_holds_first(
                tokens,
                position,
                keyword(KeywordKind::Alignas),
                seq![open] + (inner + seq![close]),
            );
            lemma_holds_first(tokens, position + 1, open, inner + seq![close]);
            lemma_holds_split(tokens, position + 2, inner, seq![close]);
            lemma_holds_one(tokens, position + 2 + inner.len(), close);
            lemma_canonical_primary(tokens, position + 2, value);
            lemma_conditional_of_primary(tokens, position + 2, value, inner.len());
        },
        _ => {
            assert(form.len() == 1);
            lemma_holds_one(tokens, position, form[0]);
        },
    }
}

/// The canonical form of printable specifiers, before a token that starts no
/// specifier, is read as the specifiers.
#[verifier::spinoff_prover]
pub proof fn lemma_canonical_specifiers(
    tokens: Seq<TokenView>,
    position: int,
    specifiers: Seq<DeclarationSpecifierView>,
    from: int,
)
    requires
        0 <= from <= specifiers.len(),
        printable_specifiers(specifiers, from),
        holds_at(tokens, position, canonical_specifiers(specifiers, from)),
        !starts_specifier(token_at(tokens, position + canonical_specifiers(specifiers, from).len())),
    ensures
        spec_specifiers(tokens, position) == Ok::<
            (Seq<DeclarationSpecifierView>, nat),
            (ParseError, nat),
        >(
            (
                specifiers.subrange(from, specifiers.len() as int),
                canonical_specifiers(specifiers, from).len(),
            ),
        ),
        from < specifiers.len() ==> starts_specifier(token_at(tokens, position)),
    decreases specifiers.len() - from,
{
    reveal(printable_specifiers);
    reveal(canonical_specifiers);
    reveal(spec_specifiers);
    if from == specifiers.len() {
        reveal(spec_one_specifier);
        reveal(spec_alignment_specifier);
        assert(spec_one_specifier(tokens, position) is Ok && spec_one_specifier(
            tokens,
            position,
        )->Ok_0.0 is None);
        assert(specifiers.subrange(from, specifiers.len() as int) =~= Seq::<
            DeclarationSpecifierView,
        >::empty());
    } else {
        let first = canonical_specifier(specifiers[from]);
        let rest = canonical_specifiers(specifiers, from + 1);
        lemma_holds_split(tokens, position, first, rest);
        lemma_canonical_specifier(tokens, position, specifiers[from]);
        lemma_canonical_specifiers(tokens, position + first.len(), specifiers, from + 1);
        assert(seq![specifiers[from]] + specifiers.subrange(from + 1, specifiers.len() as int)
            =~= specifiers.subrange(from, specifiers.len() as int));
    }
}

/// The canonical form of qualifiers, before a token that is no qualifier, is
/// read as the qualifiers.
#[verifier::spinoff_prover]
pub proof fn lemma_canonical_qualifiers(
    tokens: Seq<TokenView>,
    position: int,
    qualifiers: Seq<TypeQualifier>,
    from: int,
)
    requires
        0 <= from <= qualifiers.len(),
        holds_at(tokens, position, canonical_qualifiers(qualifiers, from)),
        type_qualifier_of(
            token_at(tokens, position + canonical_qualifiers(qualifiers, from).len()),
        ) is None,
    ensures
        spec_qualifier_list(tokens, position) == (
            qualifiers.subrange(from, qualifiers.len() as int),
            canonical_qualifiers(qualifiers, from).len(),
        ),
    decreases qualifiers.len() - from,
{
    reveal(canonical_qualifiers);
    reveal(spec_qualifier_list);
    if from == qualifiers.len() {
        assert(qualifiers.subrange(from, qualifiers.len() as int) =~= Seq::<
            TypeQualifier,
        >::empty());
    } else {
        let rest = canonical_qualifiers(qualifiers, from + 1);
        lemma_holds_first(tokens, position, keyword(qualifier_keyword(qualifiers[from])), rest);
        lemma_canonical_qualifiers(tokens, position + 1, qualifiers, from + 1);
        assert(seq![qualifiers[from]] + qualifiers.subrange(from + 1, qualifiers.len() as int)
            =~= qualifiers.subrange(from, qualifiers.len() as int));
    }
}

/// Whether `token` after pointer layers ends them: it is no `*` and no
/// qualifier.
pub open spec fn ends_pointer(token: TokenView) -> bool {
    token != punctuator(PunctuatorKind::Star) && type_qualifier_of(token) is None
}

/// The canonical form of pointer layers, before a token that is no `*` and
/// no qualifier, is read as the layers.
#[verifier::spinoff_prover]
pub proof fn lemma_canonical_pointer(
    tokens: Seq<TokenView>,
    position: int,
    pointer: Seq<Seq<TypeQualifier>>,
    from: int,
)
    requires
        0 <= from <= pointer.len(),
        holds_at(tokens, position, canonical_pointer(pointer, from)),
        ends_pointer(token_at(tokens, position + canonical_pointer(pointer, from).len())),
    ensures
        spec_pointer(tokens, position) == (
            pointer.subrange(from, pointer.len() as int),
            canonical_pointer(pointer, from).len(),
        ),
    decreases pointer.len() - from,
{
    reveal(canonical_pointer);
    reveal(spec_pointer);
    if from == pointer.len() {
        assert(pointer.subrange(from, pointer.len() as int) =~= Seq::<
            Seq<TypeQualifier>,
        >::empty());
    } else {
        let qualifiers = canonical_qualifiers(pointer[from], 0);
        let rest = canonical_pointer(pointer, from + 1);
        lemma_holds_first(tokens, position, punctuator(PunctuatorKind::Star), qualifiers + rest);
        lemma_holds_split(tokens, position + 1, qualifiers, rest);
        assert(type_qualifier_of(token_at(tokens, position + 1 + qualifiers.len())) is None) by {
            if from + 1 < pointer.len() {
                reveal(canonical_pointer);
                assert(rest.len() > 0);
                assert(tokens.subrange(
                    position + 1 + qualifiers.len(),
                    position + 1 + qualifiers.len() + rest.len(),
                )[0] == rest[0]);
            } else {
                assert(rest.len() == 0);
            }
        }
        lemma_canonical_qualifiers(tokens, position + 1, pointer[from], 0);
        assert(pointer[from].subrange(0, pointer[from].len() as int) =~= pointer[from]);
        lemma_canonical_pointer(tokens, position + 1 + qualifiers.len(), pointer, from + 1);
        assert(seq![pointer[from]] + pointer.subrange(from + 1, pointer.len() as int)
            =~= pointer.subrange(from, pointer.len() as int));
    }
}

/// The canonical form of the size of an array: the canonical form of the
/// expression, or nothing where there is none.
pub open spec fn canonical_size(size: Option<ExpressionView>) -> Seq<TokenView> {
    match size {
        Some(value) => canonical(value),
        None => Seq::empty(),
    }
}

/// The canonical form of an array suffix: its qualifiers and its size in
/// square brackets.
pub open spec fn canonical_array(qualifiers: Seq<TypeQualifier>, size: Option<ExpressionView>) -> Seq<
    TokenView,
> {
    seq![punctuator(PunctuatorKind::LeftSquareBracket)] + (canonical_qualifiers(qualifiers, 0) + (
    canonical_size(size) + seq![punctuator(PunctuatorKind::RightSquareBracket)]))
}

/// The canonical form of a list of identifiers from the one at `from` on, up
/// to and with the closing round bracket: the identifiers with commas
/// between them.
#[verifier::opaque]
pub open spec fn canonical_identifiers(identifiers: Seq<Seq<char>>, from: int) -> Seq<TokenView>
    decreases identifiers.len() - from,
{
    if 0 <= from < identifiers.len() {
        seq![TokenView::Identifier(identifiers[from])] + (seq![
            punctuator(
                if from + 1 < identifiers.len() {
                    PunctuatorKind::Commma
                } else {
                    PunctuatorKind::RightRoundBracket
                },
            ),
        ] + canonical_identifiers(identifiers, from + 1))
    } else if identifiers.len() == 0 && from == 0 {
        seq![punctuator(PunctuatorKind::RightRoundBracket)]
    } else {
        Seq::empty()
    }
}

/// The canonical form of a declarator: its pointer layers, then its direct
/// declarator.
#[verifier::opaque]
pub open spec fn canonical_declarator(declarator: DeclaratorView) -> Seq<TokenView>
    decreases declarator, 1nat, 0nat,
{
    canonical_pointer(declarator.pointer, 0) + canonical_direct(declarator.identifier)
}

/// The canonical form of a direct declarator: a name as it is, a declarator
/// in round brackets, and each suffix after what it wraps.
#[verifier::opaque]
pub open spec fn canonical_direct(direct: DirectDeclaratorView) -> Seq<TokenView>
    decreases direct, 1nat, 0nat,
{
    match direct {
        DirectDeclaratorView::Identifier(name) => seq![TokenView::Identifier(name)],
        DirectDeclaratorView::Declarator(inner) => seq![
            punctuator(PunctuatorKind::LeftRoundBracket),
        ] + (canonical_declarator(*inner) + seq![punctuator(PunctuatorKind::RightRoundBracket)]),
        DirectDeclaratorView::Array(element, qualifiers, size) => canonical_direct(*element)
            + canonical_array(qualifiers, size),
        DirectDeclaratorView::Function(result, parameters) => canonical_direct(*result) + (seq![
            punctuator(PunctuatorKind::LeftRoundBracket),
        ] + canonical_parameters(parameters)),
    }
}

/// The canonical form of what stands in the round brackets of a function
/// suffix, up to and with the closing bracket.
#[verifier::opaque]
pub open spec fn canonical_parameters(
    parameters: Either<ParameterTypeListView, Seq<Seq<char>>>,
) -> Seq<TokenView>
    decreases parameters, 1nat, 0nat,
{
    match parameters {
        Either::Left(list) => canonical_parameter_list(
            list.parameter_list,
            list.variable_parameter,
            0,
        ),
        Either::Right(identifiers) => canonical_identifiers(identifiers, 0),
    }
}

/// The canonical form of the parameters from the one at `from` on, up to and
/// with the closing round bracket: the parameters with commas between them,
/// and `, ...` after them where more may follow.
#[verifier::opaque]
pub open spec fn canonical_parameter_list(
    parameters: Seq<ParameterDeclarationView>,
    variable_parameter: bool,
    from: int,
) -> Seq<TokenView>
    decreases parameters, 0nat, parameters.len() - from,
{
    if 0 <= from < parameters.len() {
        canonical_parameter(parameters[from]) + (if from + 1 < parameters.len() {
            seq![punctuator(PunctuatorKind::Commma)] + canonical_parameter_list(
                parameters,
                variable_parameter,
                from + 1,
            )
        } else if variable_parameter {
            seq![
                punctuator(PunctuatorKind::Commma),
                punctuator(PunctuatorKind::TripleDots),
                punctuator(PunctuatorKind::RightRoundBracket),
            ]
        } else {
            seq![punctuator(PunctuatorKind::RightRoundBracket)]
        })
    } else {
        Seq::empty()
    }
}

/// The canonical form of a parameter: its specifiers, then its declarator.
#[verifier::opaque]
pub open spec fn canonical_parameter(parameter: ParameterDeclarationView) -> Seq<TokenView>
    decreases parameter, 1nat, 0nat,
{
    canonical_specifiers(parameter.specifiers, 0) + (match parameter.declarator {
        Some(Either::Left(declarator)) => canonical_declarator(declarator),
        Some(Either::Right(declarator)) => canonical_abstract(declarator),
        None => Seq::empty(),
    })
}

/// The canonical form of a declarator without a name: its pointer layers,
/// then its direct declarator, if it has one.
#[verifier::opaque]
pub open spec fn canonical_abstract(declarator: AbstractDeclaratorView) -> Seq<TokenView>
    decreases declarator, 1nat, 0nat,
{
    canonical_pointer(declarator.pointer, 0) + (match declarator.declarator {
        Some(direct) => canonical_direct_abstract(direct),
        None => Seq::empty(),
    })
}

/// The canonical form of a direct declarator without a name: a declarator
/// in round brackets, and each suffix after what it wraps.
#[verifier::opaque]
pub open spec fn canonical_direct_abstract(direct: DirectAbstarctDeclaratorView) -> Seq<TokenView>
    decreases direct, 1nat, 0nat,
{
    match direct {
        DirectAbstarctDeclaratorView::Declarator(inner) => seq![
            punctuator(PunctuatorKind::LeftRoundBracket),
        ] + (canonical_abstract(*inner) + seq![punctuator(PunctuatorKind::RightRoundBracket)]),
        DirectAbstarctDeclaratorView::Array(element, qualifiers, size) => (match element {
            Some(inner) => canonical_direct_abstract(*inner),
            None => Seq::empty(),
        }) + canonical_array(qualifiers, size),
        DirectAbstarctDeclaratorView::Function(result, parameters) => (match result {
            Some(inner) => canonical_direct_abstract(*inner),
            None => Seq::empty(),
        }) + (seq![punctuator(PunctuatorKind::LeftRoundBracket)] + canonical_parameter_list(
            parameters.parameter_list,
            parameters.variable_parameter,
            0,
        )),
    }
}

/// Whether a declarator without a name has a token: a pointer layer or a
/// direct declarator.
pub open spec fn has_tokens(declarator: AbstractDeclaratorView) -> bool {
    declarator.pointer.len() > 0 || declarator.declarator is Some
}

/// Whether the size of an array is printable.
pub open spec fn printable_size(size: Option<ExpressionView>) -> bool {
    size matches Some(value) ==> printable(value)
}

/// Whether the grammar can give the declarator.
#[verifier::opaque]
pub open spec fn printable_declarator(declarator: DeclaratorView) -> bool
    decreases declarator, 1nat, 0nat,
{
    printable_direct(declarator.identifier)
}

/// Whether the grammar can give the direct declarator: the sizes of its
/// arrays are printable expressions, and the parameters of its functions are
/// printable.
#[verifier::opaque]
pub open spec fn printable_direct(direct: DirectDeclaratorView) -> bool
    decreases direct, 1nat, 0nat,
{
    match direct {
        DirectDeclaratorView::Identifier(_) => true,
        DirectDeclaratorView::Declarator(inner) => printable_declarator(*inner),
        DirectDeclaratorView::Array(element, qualifiers, size) => printable_direct(*element)
            && printable_size(size),
        DirectDeclaratorView::Function(result, parameters) => printable_direct(*result)
            && printable_parameters(parameters),
    }
}

/// Whether the grammar can give what stands in the round brackets of a
/// function suffix: a list of parameters has a parameter, and its parameters
/// are printable.
#[verifier::opaque]
pub open spec fn printable_parameters(
    parameters: Either<ParameterTypeListView, Seq<Seq<char>>>,
) -> bool
    decreases parameters, 1nat, 0nat,
{
    match parameters {
        Either::Left(list) => list.parameter_list.len() > 0 && printable_parameter_list(
            list.parameter_list,
            0,
        ),
        Either::Right(_) => true,
    }
}

/// Whether the parameters from the one at `from` on are printable.
#[verifier::opaque]
pub open spec fn printable_parameter_list(parameters: Seq<ParameterDeclarationView>, from: int) -> bool
    decreases parameters, 0nat, parameters.len() - from,
{
    if 0 <= from < parameters.len() {
        printable_parameter(parameters[from]) && printable_parameter_list(parameters, from + 1)
    } else {
        true
    }
}

/// Whether the grammar can give the parameter: it has a specifier, its
/// specifiers are printable, and its declarator is printable and, where it
/// has no name, has a token.
#[verifier::opaque]
pub open spec fn printable_parameter(parameter: ParameterDeclarationView) -> bool
    decreases parameter, 1nat, 0nat,
{
    &&& parameter.specifiers.len() > 0
    &&& printable_specifiers(parameter.specifiers, 0)
    &&& match parameter.declarator {
        Some(Either::Left(declarator)) => printable_declarator(declarator),
        Some(Either::Right(declarator)) => has_tokens(declarator) && printable_abstract(
            declarator,
        ),
        None => true,
    }
}

/// Whether the grammar can give the declarator without a name.
#[verifier::opaque]
pub open spec fn printable_abstract(declarator: AbstractDeclaratorView) -> bool
    decreases declarator, 1nat, 0nat,
{
    match declarator.declarator {
        Some(direct) => printable_direct_abstract(direct),
        None => true,
    }
}

/// Whether the grammar can give the direct declarator without a name: a
/// declarator in round brackets has a token, the sizes of arrays are
/// printable expressions, and the parameters of functions are printable and
/// at least one.
#[verifier::opaque]
pub open spec fn printable_direct_abstract(direct: DirectAbstarctDeclaratorView) -> bool
    decreases direct, 1nat, 0nat,
{
    match direct {
        DirectAbstarctDeclaratorView::Declarator(inner) => has_tokens(*inner)
            && printable_abstract(*inner),
        DirectAbstarctDeclaratorView::Array(element, qualifiers, size) => {
            &&& printable_size(size)
            &&& match element {
                Some(inner) => printable_direct_abstract(*inner),
                None => true,
            }
        },
        DirectAbstarctDeclaratorView::Function(result, parameters) => {
            &&& parameters.parameter_list.len() > 0
            &&& printable_parameter_list(parameters.parameter_list, 0)
            &&& match result {
                Some(inner) => printable_direct_abstract(*inner),
                None => true,
            }
        },
    }
}

/// The canonical form of an array suffix with a printable size is read as
/// the suffix.
#[verifier::spinoff_prover]
pub proof fn lemma_canonical_array(
    tokens: Seq<TokenView>,
    position: int,
    qualifiers: Seq<TypeQualifier>,
    size: Option<ExpressionView>,
)
    requires
        printable_size(size),
        holds_at(tokens, position, canonical_array(qualifiers, size)),
    ensures
        punctuator_at(tokens, position, PunctuatorKind::LeftSquareBracket),
        spec_array_suffix(tokens, position + 1) == Ok::<
            ((Seq<TypeQualifier>, Option<ExpressionView>), nat),
            (ParseError, nat),
        >(((qualifiers, size), (canonical_array(qualifiers, size).len() - 1) as nat)),
        canonical_array(qualifiers, size).len() >= 2,
{
    reveal(spec_array_suffix);
    let close = punctuator(PunctuatorKind::RightSquareBracket);
    let first = canonical_qualifiers(qualifiers, 0);
    let second = canonical_size(size);
    lemma_holds_first(
        tokens,
        position,
        punctuator(PunctuatorKind::LeftSquareBracket),
        first + (second + seq![close]),
    );
    lemma_holds_split(tokens, position + 1, first, second + seq![close]);
    lemma_holds_split(tokens, position + 1 + first.len(), second, seq![close]);
    lemma_holds_one(tokens, position + 1 + first.len() + second.len(), close);
    match size {
        Some(value) => {
            lemma_canonical_primary(tokens, position + 1 + first.len(), value);
            lemma_assign_of_primary(tokens, position + 1 + first.len(), value, second.len());
            crate::parser::expression::lemma_primary_start(tokens, position + 1 + first.len());
        },
        None => {},
    }
    lemma_canonical_qualifiers(tokens, position + 1, qualifiers, 0);
    assert(qualifiers.subrange(0, qualifiers.len() as int) =~= qualifiers);
}

/// The canonical form of a list of identifiers from the one at `from` on
/// is read as those identifiers.
#[verifier::spinoff_prover]
pub proof fn lemma_canonical_identifiers(
    tokens: Seq<TokenView>,
    position: int,
    identifiers: Seq<Seq<char>>,
    from: int,
)
    requires
        0 <= from < identifiers.len(),
        holds_at(tokens, position, canonical_identifiers(identifiers, from)),
    ensures
        spec_identifier_list(tokens, position) == Ok::<(Seq<Seq<char>>, nat), (ParseError, nat)>(
            (
                identifiers.subrange(from, identifiers.len() as int),
                canonical_identifiers(identifiers, from).len(),
            ),
        ),
        token_at(tokens, position) is Identifier,
    decreases identifiers.len() - from,
{
    reveal(canonical_identifiers);
    reveal(spec_identifier_list);
    let last = from + 1 == identifiers.len();
    let separator = punctuator(
        if last {
            PunctuatorKind::RightRoundBracket
        } else {
            PunctuatorKind::Commma
        },
    );
    let rest = canonical_identifiers(identifiers, from + 1);
    lemma_holds_first(
        tokens,
        position,
        TokenView::Identifier(identifiers[from]),
        seq![separator] + rest,
    );
    lemma_holds_first(tokens, position + 1, separator, rest);
    if last {
        assert(rest =~= Seq::<TokenView>::empty());
        assert(identifiers.subrange(from, identifiers.len() as int) =~= seq![identifiers[from]]);
    } else {
        lemma_canonical_identifiers(tokens, position + 2, identifiers, from + 1);
        assert(seq![identifiers[from]] + identifiers.subrange(
            from + 1,
            identifiers.len() as int,
        ) =~= identifiers.subrange(from, identifiers.len() as int));
    }
}

/// What the suffixes of a direct declarator wrap: its name, or its
/// declarator in round brackets.
pub open spec fn kernel(direct: DirectDeclaratorView) -> DirectDeclaratorView
    decreases direct,
{
    match direct {
        DirectDeclaratorView::Array(element, _, _) => kernel(*element),
        DirectDeclaratorView::Function(result, _) => kernel(*result),
        _ => direct,
    }
}

/// What the suffixes of a direct declarator without a name wrap: its
/// declarator in round brackets, or nothing.
pub open spec fn abstract_kernel(direct: DirectAbstarctDeclaratorView) -> Option<
    DirectAbstarctDeclaratorView,
>
    decreases direct,
{
    match direct {
        DirectAbstarctDeclaratorView::Array(element, _, _) => match element {
            Some(inner) => abstract_kernel(*inner),
            None => None,
        },
        DirectAbstarctDeclaratorView::Function(result, _) => match result {
            Some(inner) => abstract_kernel(*inner),
            None => None,
        },
        _ => Some(direct),
    }
}

/// The number of tokens of what the suffixes of a direct declarator without
/// a name wrap.
pub open spec fn abstract_kernel_length(direct: DirectAbstarctDeclaratorView) -> nat {
    match abstract_kernel(direct) {
        Some(found) => canonical_direct_abstract(found).len(),
        None => 0,
    }
}

/// Whether `token` can start a declarator with a name: `*`, `(` or an
/// identifier.
pub open spec fn starts_declarator(token: TokenView) -> bool {
    ||| token is Identifier
    ||| token == punctuator(PunctuatorKind::Star)
    ||| token == punctuator(PunctuatorKind::LeftRoundBracket)
}

/// Whether `token` can start a declarator without a name: `*`, `(` or `[`.
pub open spec fn starts_abstract(token: TokenView) -> bool {
    ||| token == punctuator(PunctuatorKind::Star)
    ||| token == punctuator(PunctuatorKind::LeftRoundBracket)
    ||| token == punctuator(PunctuatorKind::LeftSquareBracket)
}

/// Whether `token` after a direct declarator ends it: it opens no suffix.
pub open spec fn ends_suffixes(token: TokenView) -> bool {
    &&& token != punctuator(PunctuatorKind::LeftRoundBracket)
    &&& token != punctuator(PunctuatorKind::LeftSquareBracket)
}

/// Whether `token` after a parameter ends it: a comma or a closing round
/// bracket.
pub open spec fn ends_parameter(token: TokenView) -> bool {
    ||| token == punctuator(PunctuatorKind::Commma)
    ||| token == punctuator(PunctuatorKind::RightRoundBracket)
}

/// Whether the core `found` of a direct declarator is read at `position`:
/// its name stands there, or its declarator in round brackets, which both
/// the rule of declarators and the rule of parameter declarators read.
pub open spec fn reads_kernel(tokens: Seq<TokenView>, position: int, found: DirectDeclaratorView) -> bool {
    match found {
        DirectDeclaratorView::Identifier(name) => token_at(tokens, position)
            == TokenView::Identifier(name),
        DirectDeclaratorView::Declarator(inner) => {
            let count = canonical_declarator(*inner).len();
            &&& punctuator_at(tokens, position, PunctuatorKind::LeftRoundBracket)
            &&& starts_declarator(token_at(tokens, position + 1))
            &&& spec_declarator(tokens, position + 1) == Ok::<
                (Option<DeclaratorView>, nat),
                (ParseError, nat),
            >((Some(*inner), count))
            &&& spec_parameter_declarator(tokens, position + 1) == Ok::<
                (Option<Either<DeclaratorView, AbstractDeclaratorView>>, nat),
                (ParseError, nat),
            >((Some(Either::Left(*inner)), count))
            &&& punctuator_at(tokens, position + 1 + count, PunctuatorKind::RightRoundBracket)
        },
        _ => false,
    }
}

/// Whether the core `found` of a direct declarator without a name is read
/// at `position`: its declarator in round brackets stands there and the
/// rule of parameter declarators reads it; or, where there is no core, a
/// suffix stands there that cannot be taken for a declarator in round
/// brackets.
pub open spec fn reads_abstract_kernel(
    tokens: Seq<TokenView>,
    position: int,
    found: Option<DirectAbstarctDeclaratorView>,
) -> bool {
    match found {
        Some(DirectAbstarctDeclaratorView::Declarator(inner)) => {
            let count = canonical_abstract(*inner).len();
            &&& punctuator_at(tokens, position, PunctuatorKind::LeftRoundBracket)
            &&& starts_abstract(token_at(tokens, position + 1))
            &&& spec_parameter_declarator(tokens, position + 1) == Ok::<
                (Option<Either<DeclaratorView, AbstractDeclaratorView>>, nat),
                (ParseError, nat),
            >((Some(Either::Right(*inner)), count))
            &&& punctuator_at(tokens, position + 1 + count, PunctuatorKind::RightRoundBracket)
        },
        Some(_) => false,
        None => {
            ||| punctuator_at(tokens, position, PunctuatorKind::LeftSquareBracket)
            ||| punctuator_at(tokens, position, PunctuatorKind::LeftRoundBracket)
                && starts_specifier(token_at(tokens, position + 1))
        },
    }
}

/// Reading nothing more after `count` tokens is reading `count` tokens.
pub proof fn lemma_shifted_none<T>(outcome: Parsed<T>)
    ensures
        shifted(0, outcome) == outcome,
{
}

/// The suffixes in the canonical form of a printable direct declarator are
/// read one after the other: reading on after the core gives what reading
/// on after the whole form gives with the whole declarator. The core is
/// read as what it is.
#[verifier::spinoff_prover]
pub proof fn lemma_suffix_chain(tokens: Seq<TokenView>, position: int, direct: DirectDeclaratorView)
    requires
        printable_direct(direct),
        holds_at(tokens, position, canonical_direct(direct)),
    ensures
        reads_kernel(tokens, position, kernel(direct)),
        0 < canonical_direct(kernel(direct)).len() <= canonical_direct(direct).len(),
        spec_declarator_suffixes(
            tokens,
            position + canonical_direct(kernel(direct)).len(),
            kernel(direct),
        ) == shifted(
            (canonical_direct(direct).len() - canonical_direct(kernel(direct)).len()) as nat,
            spec_declarator_suffixes(tokens, position + canonical_direct(direct).len(), direct),
        ),
    decreases direct, 0nat, 0nat,
{
    reveal(printable_direct);
    reveal(canonical_direct);
    reveal(spec_declarator_suffixes);
    reveal(spec_parameters);
    let form = canonical_direct(direct);
    match direct {
        DirectDeclaratorView::Identifier(name) => {
            lemma_holds_one(tokens, position, TokenView::Identifier(name));
            lemma_shifted_none(spec_declarator_suffixes(tokens, position + 1, direct));
        },
        DirectDeclaratorView::Declarator(inner) => {
            let inside = canonical_declarator(*inner);
            let close = punctuator(PunctuatorKind::RightRoundBracket);
            lemma_holds_first(
                tokens,
                position,
                punctuator(PunctuatorKind::LeftRoundBracket),
                inside + seq![close],
            );
            lemma_holds_split(tokens, position + 1, inside, seq![close]);
            lemma_holds_one(tokens, position + 1 + inside.len(), close);
            lemma_canonical_declarator(tokens, position + 1, *inner);
            lemma_parameter_concrete(tokens, position + 1, *inner);
            lemma_shifted_none(
                spec_declarator_suffixes(tokens, position + form.len(), direct),
            );
        },
        DirectDeclaratorView::Array(element, qualifiers, size) => {
            let before = canonical_direct(*element);
            let suffix = canonical_array(qualifiers, size);
            let middle = before.len() - canonical_direct(kernel(*element)).len();
            lemma_holds_split(tokens, position, before, suffix);
            lemma_suffix_chain(tokens, position, *element);
            lemma_canonical_array(tokens, position + before.len(), qualifiers, size);
            let after = spec_declarator_suffixes(tokens, position + form.len(), direct);
            assert(spec_declarator_suffixes(tokens, position + before.len(), *element) == shifted(
                suffix.len(),
                after,
            ));
            lemma_shifted_twice((middle) as nat, suffix.len(), after);
        },
        DirectDeclaratorView::Function(result, parameters) => {
            let before = canonical_direct(*result);
            let inside = canonical_parameters(parameters);
            let middle = before.len() - canonical_direct(kernel(*result)).len();
            lemma_holds_split(
                tokens,
                position,
                before,
                seq![punctuator(PunctuatorKind::LeftRoundBracket)] + inside,
            );
            lemma_holds_first(
                tokens,
                position + before.len(),
                punctuator(PunctuatorKind::LeftRoundBracket),
                inside,
            );
            lemma_suffix_chain(tokens, position, *result);
            lemma_canonical_parameters(tokens, position + before.len() + 1, parameters);
            let after = spec_declarator_suffixes(tokens, position + form.len(), direct);
            assert(spec_declarator_suffixes(tokens, position + before.len(), *result) == shifted(
                1 + inside.len(),
                after,
            ));
            lemma_shifted_twice((middle) as nat, 1 + inside.len(), after);
        },
    }
}

/// The canonical form of a printable declarator, before a token that opens
/// no suffix, is read as the declarator.
#[verifier::spinoff_prover]
pub proof fn lemma_canonical_declarator(
    tokens: Seq<TokenView>,
    position: int,
    declarator: DeclaratorView,
)
    requires
        printable_declarator(declarator),
        holds_at(tokens, position, canonical_declarator(declarator)),
        ends_suffixes(token_at(tokens, position + canonical_declarator(declarator).len())),
    ensures
        spec_declarator(tokens, position) == Ok::<
            (Option<DeclaratorView>, nat),
            (ParseError, nat),
        >((Some(declarator), canonical_declarator(declarator).len())),
        canonical_declarator(declarator).len() > 0,
        starts_declarator(token_at(tokens, position)),
    decreases declarator, 3nat, 0nat,
{
    reveal(printable_declarator);
    reveal(printable_direct);
    reveal(canonical_declarator);
    reveal(canonical_direct);
    reveal(spec_declarator);
    reveal(spec_direct_declarator);
    reveal(spec_declarator_suffixes);
    reveal(canonical_pointer);
    let layers = canonical_pointer(declarator.pointer, 0);
    let direct = declarator.identifier;
    let form = canonical_direct(direct);
    let at = position + layers.len();
    lemma_holds_split(tokens, position, layers, form);
    lemma_suffix_chain(tokens, at, direct);
    lemma_canonical_pointer(tokens, position, declarator.pointer, 0);
    assert(declarator.pointer.subrange(0, declarator.pointer.len() as int)
        =~= declarator.pointer);
    assert(layers.len() > 0 ==> token_at(tokens, position) == punctuator(PunctuatorKind::Star)) by {
        if layers.len() > 0 {
            assert(tokens.subrange(position, position + layers.len())[0] == layers[0]);
        }
    }
    let found = kernel(direct);
    let length = canonical_direct(found).len();
    assert(spec_declarator_suffixes(tokens, at + form.len(), direct) == Ok::<
        (DirectDeclaratorView, nat),
        (ParseError, nat),
    >((direct, 0)));
    assert(spec_declarator_suffixes(tokens, at + length, found) == Ok::<
        (DirectDeclaratorView, nat),
        (ParseError, nat),
    >((direct, (form.len() - length) as nat)));
    assert(length == 1 || length == canonical_declarator(*found->Declarator_0).len() + 2) by {
        reveal(canonical_direct);
    }
    assert(spec_direct_declarator(tokens, at) == Ok::<
        (Option<DirectDeclaratorView>, nat),
        (ParseError, nat),
    >((Some(direct), form.len())));
}

/// The canonical form of a printable declarator, before a token that ends
/// a parameter, is read as the declarator of a parameter, with its name.
#[verifier::spinoff_prover]
pub proof fn lemma_parameter_concrete(
    tokens: Seq<TokenView>,
    position: int,
    declarator: DeclaratorView,
)
    requires
        printable_declarator(declarator),
        holds_at(tokens, position, canonical_declarator(declarator)),
        ends_parameter(token_at(tokens, position + canonical_declarator(declarator).len())),
    ensures
        spec_parameter_declarator(tokens, position) == Ok::<
            (Option<Either<DeclaratorView, AbstractDeclaratorView>>, nat),
            (ParseError, nat),
        >((Some(Either::Left(declarator)), canonical_declarator(declarator).len())),
        canonical_declarator(declarator).len() > 0,
        starts_declarator(token_at(tokens, position)),
    decreases declarator, 3nat, 0nat,
{
    reveal(printable_declarator);
    reveal(printable_direct);
    reveal(canonical_declarator);
    reveal(canonical_direct);
    reveal(spec_parameter_declarator);
    reveal(spec_declarator_suffixes);
    reveal(canonical_pointer);
    let layers = canonical_pointer(declarator.pointer, 0);
    let direct = declarator.identifier;
    let form = canonical_direct(direct);
    let at = position + layers.len();
    lemma_holds_split(tokens, position, layers, form);
    lemma_suffix_chain(tokens, at, direct);
    lemma_canonical_pointer(tokens, position, declarator.pointer, 0);
    assert(declarator.pointer.subrange(0, declarator.pointer.len() as int)
        =~= declarator.pointer);
    assert(layers.len() > 0 ==> token_at(tokens, position) == punctuator(PunctuatorKind::Star)) by {
        if layers.len() > 0 {
            assert(tokens.subrange(position, position + layers.len())[0] == layers[0]);
        }
    }
    let found = kernel(direct);
    let length = canonical_direct(found).len();
    assert(spec_declarator_suffixes(tokens, at + form.len(), direct) == Ok::<
        (DirectDeclaratorView, nat),
        (ParseError, nat),
    >((direct, 0)));
    assert(spec_declarator_suffixes(tokens, at + length, found) == Ok::<
        (DirectDeclaratorView, nat),
        (ParseError, nat),
    >((direct, (form.len() - length) as nat)));
    assert(length == 1 || length == canonical_declarator(*found->Declarator_0).len() + 2) by {
        reveal(canonical_direct);
    }
}

/// The suffixes in the canonical form of a printable direct declarator
/// without a name are read one after the other: reading on after the core
/// gives what reading on after the whole form gives with the whole
/// declarator. The core is read as what it is.
#[verifier::spinoff_prover]
pub proof fn lemma_abstract_chain(
    tokens: Seq<TokenView>,
    position: int,
    direct: DirectAbstarctDeclaratorView,
)
    requires
        printable_direct_abstract(direct),
        holds_at(tokens, position, canonical_direct_abstract(direct)),
    ensures
        reads_abstract_kernel(tokens, position, abstract_kernel(direct)),
        abstract_kernel_length(direct) <= canonical_direct_abstract(direct).len(),
        canonical_direct_abstract(direct).len() > 0,
        spec_abstract_suffixes(
            tokens,
            position + abstract_kernel_length(direct),
            abstract_kernel(direct),
        ) == shifted(
            (canonical_direct_abstract(direct).len() - abstract_kernel_length(direct)) as nat,
            spec_abstract_suffixes(
                tokens,
                position + canonical_direct_abstract(direct).len(),
                Some(direct),
            ),
        ),
    decreases direct, 0nat, 0nat,
{
    reveal(printable_direct_abstract);
    reveal(canonical_direct_abstract);
    reveal(spec_abstract_suffixes);
    reveal(spec_parameter_type_list);
    let form = canonical_direct_abstract(direct);
    let after = spec_abstract_suffixes(tokens, position + form.len(), Some(direct));
    match direct {
        DirectAbstarctDeclaratorView::Declarator(inner) => {
            let inside = canonical_abstract(*inner);
            let close = punctuator(PunctuatorKind::RightRoundBracket);
            lemma_holds_first(
                tokens,
                position,
                punctuator(PunctuatorKind::LeftRoundBracket),
                inside + seq![close],
            );
            lemma_holds_split(tokens, position + 1, inside, seq![close]);
            lemma_holds_one(tokens, position + 1 + inside.len(), close);
            lemma_parameter_abstract(tokens, position + 1, *inner);
            lemma_shifted_none(after);
        },
        DirectAbstarctDeclaratorView::Array(element, qualifiers, size) => {
            let suffix = canonical_array(qualifiers, size);
            match element {
                Some(inner) => {
                    let before = canonical_direct_abstract(*inner);
                    let middle = before.len() - abstract_kernel_length(*inner);
                    lemma_holds_split(tokens, position, before, suffix);
                    lemma_abstract_chain(tokens, position, *inner);
                    lemma_canonical_array(tokens, position + before.len(), qualifiers, size);
                    assert(boxed(Some(*inner)) == element);
                    assert(spec_abstract_suffixes(tokens, position + before.len(), Some(*inner))
                        == shifted(suffix.len(), after));
                    lemma_shifted_twice((middle) as nat, suffix.len(), after);
                },
                None => {
                    assert(form =~= suffix);
                    lemma_canonical_array(tokens, position, qualifiers, size);
                    assert(boxed(None::<DirectAbstarctDeclaratorView>) == element);
                    assert(spec_abstract_suffixes(tokens, position, None) == shifted(
                        suffix.len(),
                        after,
                    ));
                },
            }
        },
        DirectAbstarctDeclaratorView::Function(result, parameters) => {
            let open = punctuator(PunctuatorKind::LeftRoundBracket);
            let inside = canonical_parameter_list(
                parameters.parameter_list,
                parameters.variable_parameter,
                0,
            );
            match result {
                Some(inner) => {
                    let before = canonical_direct_abstract(*inner);
                    let middle = before.len() - abstract_kernel_length(*inner);
                    lemma_holds_split(tokens, position, before, seq![open] + inside);
                    lemma_holds_first(tokens, position + before.len(), open, inside);
                    lemma_abstract_chain(tokens, position, *inner);
                    lemma_canonical_parameter_list(
                        tokens,
                        position + before.len() + 1,
                        parameters.parameter_list,
                        parameters.variable_parameter,
                        0,
                    );
                    assert(parameters.parameter_list.subrange(
                        0,
                        parameters.parameter_list.len() as int,
                    ) =~= parameters.parameter_list);
                    assert(boxed(Some(*inner)) == result);
                    assert(spec_abstract_suffixes(tokens, position + before.len(), Some(*inner))
                        == shifted(1 + inside.len(), after));
                    lemma_shifted_twice((middle) as nat, 1 + inside.len(), after);
                },
                None => {
                    assert(form =~= seq![open] + inside);
                    lemma_holds_first(tokens, position, open, inside);
                    lemma_canonical_parameter_list(
                        tokens,
                        position + 1,
                        parameters.parameter_list,
                        parameters.variable_parameter,
                        0,
                    );
                    assert(parameters.parameter_list.subrange(
                        0,
                        parameters.parameter_list.len() as int,
                    ) =~= parameters.parameter_list);
                    assert(boxed(None::<DirectAbstarctDeclaratorView>) == result);
                    assert(spec_abstract_suffixes(tokens, position, None) == shifted(
                        1 + inside.len(),
                        after,
                    ));
                },
            }
        },
    }
}

/// The canonical form of a printable declarator without a name that has a
/// token, before a token that ends a parameter, is read as the declarator
/// of a parameter, without a name.
#[verifier::spinoff_prover]
pub proof fn lemma_parameter_abstract(
    tokens: Seq<TokenView>,
    position: int,
    declarator: AbstractDeclaratorView,
)
    requires
        printable_abstract(declarator),
        has_tokens(declarator),
        holds_at(tokens, position, canonical_abstract(declarator)),
        ends_parameter(token_at(tokens, position + canonical_abstract(declarator).len())),
    ensures
        spec_parameter_declarator(tokens, position) == Ok::<
            (Option<Either<DeclaratorView, AbstractDeclaratorView>>, nat),
            (ParseError, nat),
        >((Some(Either::Right(declarator)), canonical_abstract(declarator).len())),
        canonical_abstract(declarator).len() > 0,
        starts_abstract(token_at(tokens, position)),
    decreases declarator, 3nat, 0nat,
{
    reveal(printable_abstract);
    reveal(printable_direct_abstract);
    reveal(canonical_abstract);
    reveal(canonical_direct_abstract);
    reveal(spec_parameter_declarator);
    reveal(spec_abstract_suffixes);
    reveal(canonical_pointer);
    let layers = canonical_pointer(declarator.pointer, 0);
    let at = position + layers.len();
    assert(layers.len() > 0 <==> declarator.pointer.len() > 0);
    match declarator.declarator {
        Some(direct) => {
            let form = canonical_direct_abstract(direct);
            lemma_holds_split(tokens, position, layers, form);
            lemma_abstract_chain(tokens, at, direct);
            lemma_canonical_pointer(tokens, position, declarator.pointer, 0);
            let found = abstract_kernel(direct);
            let length = abstract_kernel_length(direct);
            assert(spec_abstract_suffixes(tokens, at + form.len(), Some(direct)) == Ok::<
                (Option<DirectAbstarctDeclaratorView>, nat),
                (ParseError, nat),
            >((Some(direct), 0)));
            assert(spec_abstract_suffixes(tokens, at + length, found) == Ok::<
                (Option<DirectAbstarctDeclaratorView>, nat),
                (ParseError, nat),
            >((Some(direct), (form.len() - length) as nat)));
            assert(found is Some ==> length == canonical_abstract(
                *found->Some_0->Declarator_0,
            ).len() + 2) by {
                reveal(canonical_direct_abstract);
            }
        },
        None => {
            assert(canonical_abstract(declarator) =~= layers);
            lemma_canonical_pointer(tokens, position, declarator.pointer, 0);
            assert(spec_abstract_suffixes(tokens, at, None) == Ok::<
                (Option<DirectAbstarctDeclaratorView>, nat),
                (ParseError, nat),
            >((None, 0)));
        },
    }
    assert(declarator.pointer.subrange(0, declarator.pointer.len() as int)
        =~= declarator.pointer);
    assert(layers.len() > 0 ==> token_at(tokens, position) == punctuator(PunctuatorKind::Star)) by {
        if layers.len() > 0 {
            assert(tokens.subrange(position, position + layers.len())[0] == layers[0]);
        }
    }
}

/// The canonical form of a printable parameter, before a token that ends a
/// parameter, is read as the parameter.
#[verifier::spinoff_prover]
pub proof fn lemma_canonical_parameter(
    tokens: Seq<TokenView>,
    position: int,
    parameter: ParameterDeclarationView,
)
    requires
        printable_parameter(parameter),
        holds_at(tokens, position, canonical_parameter(parameter)),
        ends_parameter(token_at(tokens, position + canonical_parameter(parameter).len())),
    ensures
        spec_parameter_declaration(tokens, position) == Ok::<
            (ParameterDeclarationView, nat),
            (ParseError, nat),
        >((parameter, canonical_parameter(parameter).len())),
        starts_specifier(token_at(tokens, position)),
    decreases parameter, 3nat, 0nat,
{
    reveal(printable_parameter);
    reveal(canonical_parameter);
    reveal(spec_parameter_declaration);
    reveal(spec_parameter_declarator);
    let first = canonical_specifiers(parameter.specifiers, 0);
    let at = position + first.len();
    match parameter.declarator {
        Some(Either::Left(declarator)) => {
            lemma_holds_split(tokens, position, first, canonical_declarator(declarator));
            lemma_parameter_concrete(tokens, at, declarator);
        },
        Some(Either::Right(declarator)) => {
            lemma_holds_split(tokens, position, first, canonical_abstract(declarator));
            lemma_parameter_abstract(tokens, at, declarator);
        },
        None => {
            assert(canonical_parameter(parameter) =~= first);
            reveal(spec_pointer);
            reveal(spec_abstract_suffixes);
            assert(spec_pointer(tokens, at) == (Seq::<Seq<TypeQualifier>>::empty(), 0nat));
            assert(spec_abstract_suffixes(tokens, at, None) == Ok::<
                (Option<DirectAbstarctDeclaratorView>, nat),
                (ParseError, nat),
            >((None, 0)));
            assert(spec_parameter_declarator(tokens, at) == Ok::<
                (Option<Either<DeclaratorView, AbstractDeclaratorView>>, nat),
                (ParseError, nat),
            >((None, 0)));
        },
    }
    lemma_canonical_specifiers(tokens, position, parameter.specifiers, 0);
    assert(parameter.specifiers.subrange(0, parameter.specifiers.len() as int)
        =~= parameter.specifiers);
}

/// The canonical form of printable parameters from the one at `from` on is
/// read as those parameters.
#[verifier::spinoff_prover]
pub proof fn lemma_canonical_parameter_list(
    tokens: Seq<TokenView>,
    position: int,
    parameters: Seq<ParameterDeclarationView>,
    variable_parameter: bool,
    from: int,
)
    requires
        0 <= from < parameters.len(),
        printable_parameter_list(parameters, from),
        holds_at(
            tokens,
            position,
            canonical_parameter_list(parameters, variable_parameter, from),
        ),
    ensures
        spec_parameter_type_list(tokens, position) == Ok::<
            (ParameterTypeListView, nat),
            (ParseError, nat),
        >(
            (
                ParameterTypeListView {
                    parameter_list: parameters.subrange(from, parameters.len() as int),
                    variable_parameter,
                },
                canonical_parameter_list(parameters, variable_parameter, from).len(),
            ),
        ),
        starts_specifier(token_at(tokens, position)),
    decreases parameters, 0nat, parameters.len() - from,
{
    reveal(printable_parameter_list);
    reveal(canonical_parameter_list);
    reveal(spec_parameter_type_list);
    reveal(spec_parameter_declaration);
    let comma = punctuator(PunctuatorKind::Commma);
    let dots = punctuator(PunctuatorKind::TripleDots);
    let close = punctuator(PunctuatorKind::RightRoundBracket);
    let first = canonical_parameter(parameters[from]);
    let at = position + first.len();
    if from + 1 < parameters.len() {
        let rest = canonical_parameter_list(parameters, variable_parameter, from + 1);
        lemma_holds_split(tokens, position, first, seq![comma] + rest);
        lemma_holds_first(tokens, at, comma, rest);
        lemma_canonical_parameter(tokens, position, parameters[from]);
        lemma_canonical_parameter_list(tokens, at + 1, parameters, variable_parameter, from + 1);
        assert(seq![parameters[from]] + parameters.subrange(from + 1, parameters.len() as int)
            =~= parameters.subrange(from, parameters.len() as int));
    } else if variable_parameter {
        assert(seq![comma, dots, close] =~= seq![comma] + (seq![dots] + seq![close]));
        lemma_holds_split(tokens, position, first, seq![comma] + (seq![dots] + seq![close]));
        lemma_holds_first(tokens, at, comma, seq![dots] + seq![close]);
        lemma_holds_first(tokens, at + 1, dots, seq![close]);
        lemma_holds_one(tokens, at + 2, close);
        lemma_canonical_parameter(tokens, position, parameters[from]);
        assert(parameters.subrange(from, parameters.len() as int) =~= seq![parameters[from]]);
    } else {
        lemma_holds_split(tokens, position, first, seq![close]);
        lemma_holds_one(tokens, at, close);
        lemma_canonical_parameter(tokens, position, parameters[from]);
        assert(parameters.subrange(from, parameters.len() as int) =~= seq![parameters[from]]);
    }
}

/// The canonical form of what printably stands in the round brackets of a
/// function suffix is read as what it is.
#[verifier::spinoff_prover]
pub proof fn lemma_canonical_parameters(
    tokens: Seq<TokenView>,
    position: int,
    parameters: Either<ParameterTypeListView, Seq<Seq<char>>>,
)
    requires
        printable_parameters(parameters),
        holds_at(tokens, position, canonical_parameters(parameters)),
    ensures
        spec_parameters(tokens, position) == Ok::<
            (Either<ParameterTypeListView, Seq<Seq<char>>>, nat),
            (ParseError, nat),
        >((parameters, canonical_parameters(parameters).len())),
    decreases parameters, 1nat, 0nat,
{
    reveal(printable_parameters);
    reveal(canonical_parameters);
    reveal(spec_parameters);
    reveal(spec_parameter_type_list);
    match parameters {
        Either::Left(list) => {
            lemma_canonical_parameter_list(
                tokens,
                position,
                list.parameter_list,
                list.variable_parameter,
                0,
            );
            assert(list.parameter_list.subrange(0, list.parameter_list.len() as int)
                =~= list.parameter_list);
        },
        Either::Right(identifiers) => {
            reveal(canonical_identifiers);
            if identifiers.len() == 0 {
                lemma_holds_one(tokens, position, punctuator(PunctuatorKind::RightRoundBracket));
                assert(identifiers =~= Seq::<Seq<char>>::empty());
            } else {
                lemma_canonical_identifiers(tokens, position, identifiers, 0);
                assert(identifiers.subrange(0, identifiers.len() as int) =~= identifiers);
            }
        },
    }
}

/// Whether the grammar can give the declarator with its value: both are
/// printable.
pub open spec fn printable_init(declared: InitDeclaratorView) -> bool {
    &&& printable_declarator(declared.declarator)
    &&& declared.initializer matches Some(value) ==> printable(value)
}

/// The canonical form of a declarator with its value: the declarator, then
/// `=` and the value where there is one.
pub open spec fn canonical_init(declared: InitDeclaratorView) -> Seq<TokenView> {
    canonical_declarator(declared.declarator) + (match declared.initializer {
        Some(value) => seq![punctuator(PunctuatorKind::Equal)] + canonical(value),
        None => Seq::empty(),
    })
}

/// Whether the declarators from the one at `from` on are printable with
/// their values.
#[verifier::opaque]
pub open spec fn printable_init_list(declared: Seq<InitDeclaratorView>, from: int) -> bool
    decreases declared.len() - from,
{
    if 0 <= from < declared.len() {
        printable_init(declared[from]) && printable_init_list(declared, from + 1)
    } else {
        true
    }
}

/// The canonical form of the declarators from the one at `from` on: their
/// canonical forms with commas between them.
#[verifier::opaque]
pub open spec fn canonical_init_list(declared: Seq<InitDeclaratorView>, from: int) -> Seq<TokenView>
    decreases declared.len() - from,
{
    if 0 <= from < declared.len() {
        canonical_init(declared[from]) + (if from + 1 < declared.len() {
            seq![punctuator(PunctuatorKind::Commma)] + canonical_init_list(declared, from + 1)
        } else {
            Seq::empty()
        })
    } else {
        Seq::empty()
    }
}

/// Whether the grammar can give the declaration: it has a specifier and a
/// declarator, and all of them are printable.
pub open spec fn printable_declaration(declaration: DeclarationView) -> bool {
    &&& declaration.specifiers.len() > 0
    &&& printable_specifiers(declaration.specifiers, 0)
    &&& declaration.declarators.len() > 0
    &&& printable_init_list(declaration.declarators, 0)
}

/// The canonical form of a declaration: its specifiers, its declarators
/// with commas between them, and a semicolon.
pub open spec fn canonical_declaration(declaration: DeclarationView) -> Seq<TokenView> {
    canonical_specifiers(declaration.specifiers, 0) + (canonical_init_list(
        declaration.declarators,
        0,
    ) + seq![punctuator(PunctuatorKind::Semicolon)])
}

/// Whether `token` after a declarator with its value ends it: a comma or a
/// semicolon.
pub open spec fn ends_init(token: TokenView) -> bool {
    ||| token == punctuator(PunctuatorKind::Commma)
    ||| token == punctuator(PunctuatorKind::Semicolon)
}

/// The canonical form of a printable declarator with its value, before a
/// comma or a semicolon, is read as the declarator with its value.
#[verifier::spinoff_prover]
pub proof fn lemma_canonical_init(
    tokens: Seq<TokenView>,
    position: int,
    declared: InitDeclaratorView,
)
    requires
        printable_init(declared),
        holds_at(tokens, position, canonical_init(declared)),
        ends_init(token_at(tokens, position + canonical_init(declared).len())),
    ensures
        spec_init_declarator(tokens, position) == Ok::<
            (Option<InitDeclaratorView>, nat),
            (ParseError, nat),
        >((Some(declared), canonical_init(declared).len())),
        starts_declarator(token_at(tokens, position)),
{
    reveal(spec_init_declarator);
    let first = canonical_declarator(declared.declarator);
    match declared.initializer {
        Some(value) => {
            let second = canonical(value);
            let equal = punctuator(PunctuatorKind::Equal);
            lemma_holds_split(tokens, position, first, seq![equal] + second);
            lemma_holds_first(tokens, position + first.len(), equal, second);
            lemma_canonical_declarator(tokens, position, declared.declarator);
            lemma_canonical_primary(tokens, position + first.len() + 1, value);
            lemma_assign_of_primary(tokens, position + first.len() + 1, value, second.len());
        },
        None => {
            assert(canonical_init(declared) =~= first);
            lemma_canonical_declarator(tokens, position, declared.declarator);
        },
    }
}

/// The canonical form of printable declarators from the one at `from` on,
/// before a semicolon, is read as those declarators.
#[verifier::spinoff_prover]
pub proof fn lemma_canonical_init_list(
    tokens: Seq<TokenView>,
    position: int,
    declared: Seq<InitDeclaratorView>,
    from: int,
)
    requires
        0 <= from < declared.len(),
        printable_init_list(declared, from),
        holds_at(tokens, position, canonical_init_list(declared, from)),
        punctuator_at(
            tokens,
            position + canonical_init_list(declared, from).len(),
            PunctuatorKind::Semicolon,
        ),
    ensures
        spec_init_declarator_list(tokens, position) == Ok::<
            (Seq<InitDeclaratorView>, nat),
            (ParseError, nat),
        >(
            (
                declared.subrange(from, declared.len() as int),
                canonical_init_list(declared, from).len(),
            ),
        ),
        starts_declarator(token_at(tokens, position)),
    decreases declared.len() - from,
{
    reveal(printable_init_list);
    reveal(canonical_init_list);
    reveal(spec_init_declarator_list);
    let first = canonical_init(declared[from]);
    if from + 1 < declared.len() {
        let comma = punctuator(PunctuatorKind::Commma);
        let rest = canonical_init_list(declared, from + 1);
        lemma_holds_split(tokens, position, first, seq![comma] + rest);
        lemma_holds_first(tokens, position + first.len(), comma, rest);
        lemma_canonical_init(tokens, position, declared[from]);
        lemma_canonical_init_list(tokens, position + first.len() + 1, declared, from + 1);
        assert(seq![declared[from]] + declared.subrange(from + 1, declared.len() as int)
            =~= declared.subrange(from, declared.len() as int));
    } else {
        assert(canonical_init_list(declared, from) =~= first);
        lemma_canonical_init(tokens, position, declared[from]);
        assert(declared.subrange(from, declared.len() as int) =~= seq![declared[from]]);
    }
}

/// The canonical form of a printable declaration is read as the
/// declaration, whatever stands around the form.
#[verifier::spinoff_prover]
pub proof fn lemma_canonical_declaration(
    tokens: Seq<TokenView>,
    position: int,
    declaration: DeclarationView,
)
    requires
        printable_declaration(declaration),
        holds_at(tokens, position, canonical_declaration(declaration)),
    ensures
        spec_declaration(tokens, position) == Ok::<
            (Option<DeclarationView>, nat),
            (ParseError, nat),
        >((Some(declaration), canonical_declaration(declaration).len())),
{
    reveal(spec_declaration);
    let first = canonical_specifiers(declaration.specifiers, 0);
    let second = canonical_init_list(declaration.declarators, 0);
    let semicolon = punctuator(PunctuatorKind::Semicolon);
    lemma_holds_split(tokens, position, first, second + seq![semicolon]);
    lemma_holds_split(tokens, position + first.len(), second, seq![semicolon]);
    lemma_holds_one(tokens, position + first.len() + second.len(), semicolon);
    lemma_canonical_init_list(tokens, position + first.len(), declaration.declarators, 0);
    lemma_canonical_specifiers(tokens, position, declaration.specifiers, 0);
    assert(declaration.specifiers.subrange(0, declaration.specifiers.len() as int)
        =~= declaration.specifiers);
    assert(declaration.declarators.subrange(0, declaration.declarators.len() as int)
        =~= declaration.declarators);
}

/// Re-parsing is the identity on canonical forms: the declaration rule
/// reads the canonical form of a printable declaration, with any tokens
/// after it, as that declaration, and reads all of the form.
pub proof fn lemma_declaration_round_trip(declaration: DeclarationView, after: Seq<TokenView>)
    requires
        printable_declaration(declaration),
    ensures
        spec_declaration(canonical_declaration(declaration) + after, 0) == Ok::<
            (Option<DeclarationView>, nat),
            (ParseError, nat),
        >((Some(declaration), canonical_declaration(declaration).len())),
{
    let form = canonical_declaration(declaration);
    let tokens = form + after;
    assert(tokens.subrange(0, form.len() as int) =~= form);
    lemma_canonical_declaration(tokens, 0, declaration);
}

} // verus!
