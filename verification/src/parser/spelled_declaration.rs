//! The canonical form of a declaration that the grammar reads from tokens
//! that source text can spell is made of tokens that source text can spell.

use crate::lexical::{lexical, spells_identifier};
use crate::parser::canonical::{canonical, punctuator};
use crate::parser::canonical_declaration::{
    canonical_abstract, canonical_array, canonical_declaration, canonical_declarator,
    canonical_direct, canonical_direct_abstract, canonical_identifiers, canonical_init,
    canonical_init_list, canonical_parameter, canonical_parameter_list, canonical_parameters,
    canonical_pointer, canonical_qualifiers, canonical_size, canonical_specifier,
    canonical_specifiers, qualifier_keyword,
};
use crate::parser::declaration::{
    boxed, spec_abstract_suffixes, spec_alignment_specifier, spec_array_suffix, spec_declaration,
    spec_declarator, spec_declarator_suffixes, spec_direct_declarator, spec_identifier_list,
    spec_init_declarator, spec_init_declarator_list, spec_one_specifier,
    spec_parameter_declaration, spec_parameter_declarator, spec_parameter_type_list,
    spec_parameters, spec_pointer, spec_qualifier_list, spec_specifiers,
    starts_nested_declarator, AbstractDeclaratorView, DeclarationSpecifierView, DeclaratorView,
    DirectAbstarctDeclaratorView, DirectDeclaratorView, InitDeclaratorView,
    ParameterDeclarationView, TypeQualifier,
};
use crate::parser::expression::{spec_assign, spec_conditional, ExpressionView};
use crate::parser::spelled::{
    all_lexical, lemma_all_lexical_concat, lemma_all_lexical_punctuator, lemma_assign_spelled,
    lemma_conditional_spelled, spellable,
};
use crate::parser::spelled_statement::lemma_all_lexical_keyword;
use crate::parser::util::{punctuator_at, token_at, tokens_left};
use crate::tokenizer::{KeywordKind, PunctuatorKind, TokenView};
use crate::util::Either;
use vstd::prelude::*;

verus! {

/// Whether every name of the sequence is spelled like an identifier.
pub open spec fn each_name_spelled(names: Seq<Seq<char>>) -> bool {
    forall|index: int| 0 <= index < names.len() ==> spells_identifier(#[trigger] names[index])
}

/// Whether the canonical form of every specifier of the sequence is made of
/// tokens that source text can spell.
pub open spec fn each_specifier_spelled(specifiers: Seq<DeclarationSpecifierView>) -> bool {
    forall|index: int|
        0 <= index < specifiers.len() ==> all_lexical(
            canonical_specifier(#[trigger] specifiers[index]),
        )
}

/// Whether the canonical form of every parameter of the sequence is made of
/// tokens that source text can spell.
pub open spec fn each_parameter_spelled(parameters: Seq<ParameterDeclarationView>) -> bool {
    forall|index: int|
        0 <= index < parameters.len() ==> all_lexical(
            canonical_parameter(#[trigger] parameters[index]),
        )
}

/// Whether the canonical form of every declarator with its value of the
/// sequence is made of tokens that source text can spell.
pub open spec fn each_init_spelled(declared: Seq<InitDeclaratorView>) -> bool {
    forall|index: int|
        0 <= index < declared.len() ==> all_lexical(canonical_init(#[trigger] declared[index]))
}

/// Whether the canonical form of the declarator of a parameter, if there is
/// one, is made of tokens that source text can spell.
pub open spec fn spelled_parameter_declarator(
    declarator: Option<Either<DeclaratorView, AbstractDeclaratorView>>,
) -> bool {
    match declarator {
        Some(Either::Left(with_name)) => all_lexical(canonical_declarator(with_name)),
        Some(Either::Right(without_name)) => all_lexical(canonical_abstract(without_name)),
        None => true,
    }
}

/// Spelled tokens between two punctuators are spelled with them.
pub proof fn lemma_all_lexical_between(
    open: PunctuatorKind,
    inside: Seq<TokenView>,
    close: PunctuatorKind,
)
    requires
        all_lexical(inside),
    ensures
        all_lexical(seq![punctuator(open)] + (inside + seq![punctuator(close)])),
{
    lemma_all_lexical_punctuator(close, Seq::empty());
    lemma_all_lexical_concat(inside, seq![punctuator(close)]);
    lemma_all_lexical_punctuator(open, inside + seq![punctuator(close)]);
}

/// The canonical form of qualifiers is spelled.
pub proof fn lemma_qualifiers_spelled(qualifiers: Seq<TypeQualifier>, from: int)
    ensures
        all_lexical(canonical_qualifiers(qualifiers, from)),
    decreases qualifiers.len() - from,
{
    reveal(canonical_qualifiers);
    if 0 <= from < qualifiers.len() {
        lemma_qualifiers_spelled(qualifiers, from + 1);
        lemma_all_lexical_keyword(
            qualifier_keyword(qualifiers[from]),
            canonical_qualifiers(qualifiers, from + 1),
        );
    }
}

/// The canonical form of pointer layers is spelled.
pub proof fn lemma_pointer_spelled(pointer: Seq<Seq<TypeQualifier>>, from: int)
    ensures
        all_lexical(canonical_pointer(pointer, from)),
    decreases pointer.len() - from,
{
    reveal(canonical_pointer);
    if 0 <= from < pointer.len() {
        lemma_pointer_spelled(pointer, from + 1);
        lemma_qualifiers_spelled(pointer[from], 0);
        lemma_all_lexical_concat(
            canonical_qualifiers(pointer[from], 0),
            canonical_pointer(pointer, from + 1),
        );
        lemma_all_lexical_punctuator(
            PunctuatorKind::Star,
            canonical_qualifiers(pointer[from], 0) + canonical_pointer(pointer, from + 1),
        );
    }
}

/// The canonical form of a list of names that are spelled like identifiers
/// is spelled.
pub proof fn lemma_identifiers_spelled(names: Seq<Seq<char>>, from: int)
    requires
        each_name_spelled(names),
    ensures
        all_lexical(canonical_identifiers(names, from)),
    decreases names.len() - from,
{
    reveal(canonical_identifiers);
    if 0 <= from < names.len() {
        lemma_identifiers_spelled(names, from + 1);
        let separator = if from + 1 < names.len() {
            PunctuatorKind::Commma
        } else {
            PunctuatorKind::RightRoundBracket
        };
        lemma_all_lexical_punctuator(separator, canonical_identifiers(names, from + 1));
        assert(all_lexical(seq![TokenView::Identifier(names[from])]));
        lemma_all_lexical_concat(
            seq![TokenView::Identifier(names[from])],
            seq![punctuator(separator)] + canonical_identifiers(names, from + 1),
        );
    } else {
        lemma_all_lexical_punctuator(PunctuatorKind::RightRoundBracket, Seq::empty());
    }
}

/// The canonical form of specifiers with spelled canonical forms is
/// spelled.
pub proof fn lemma_specifiers_form_spelled(specifiers: Seq<DeclarationSpecifierView>, from: int)
    requires
        each_specifier_spelled(specifiers),
    ensures
        all_lexical(canonical_specifiers(specifiers, from)),
    decreases specifiers.len() - from,
{
    reveal(canonical_specifiers);
    if 0 <= from < specifiers.len() {
        lemma_specifiers_form_spelled(specifiers, from + 1);
        lemma_all_lexical_concat(
            canonical_specifier(specifiers[from]),
            canonical_specifiers(specifiers, from + 1),
        );
    }
}

/// The canonical form of parameters with spelled canonical forms is
/// spelled.
pub proof fn lemma_parameter_list_form_spelled(
    parameters: Seq<ParameterDeclarationView>,
    variable_parameter: bool,
    from: int,
)
    requires
        each_parameter_spelled(parameters),
    ensures
        all_lexical(canonical_parameter_list(parameters, variable_parameter, from)),
    decreases parameters.len() - from,
{
    reveal(canonical_parameter_list);
    reveal(canonical_parameter);
    if 0 <= from < parameters.len() {
        let tail = if from + 1 < parameters.len() {
            seq![punctuator(PunctuatorKind::Commma)] + canonical_parameter_list(
                parameters,
                variable_parameter,
                from + 1,
            )
        } else if variable_parameter {
            seq![
                punctuator(PunctuatorKind::Commma),
                punctuator(PunctuatorKind::TripleDots),
                punctuator(PunctuatorKind::RightRoundBracket),
            ]
        } else {
            seq![punctuator(PunctuatorKind::RightRoundBracket)]
        };
        if from + 1 < parameters.len() {
            lemma_parameter_list_form_spelled(parameters, variable_parameter, from + 1);
            lemma_all_lexical_punctuator(
                PunctuatorKind::Commma,
                canonical_parameter_list(parameters, variable_parameter, from + 1),
            );
        }
        assert(all_lexical(tail));
        lemma_all_lexical_concat(canonical_parameter(parameters[from]), tail);
    }
}

/// The canonical form of declarators with spelled canonical forms is
/// spelled.
pub proof fn lemma_init_list_form_spelled(declared: Seq<InitDeclaratorView>, from: int)
    requires
        each_init_spelled(declared),
    ensures
        all_lexical(canonical_init_list(declared, from)),
    decreases declared.len() - from,
{
    reveal(canonical_init_list);
    if 0 <= from < declared.len() {
        let tail = if from + 1 < declared.len() {
            seq![punctuator(PunctuatorKind::Commma)] + canonical_init_list(declared, from + 1)
        } else {
            Seq::empty()
        };
        if from + 1 < declared.len() {
            lemma_init_list_form_spelled(declared, from + 1);
            lemma_all_lexical_punctuator(
                PunctuatorKind::Commma,
                canonical_init_list(declared, from + 1),
            );
        }
        lemma_all_lexical_concat(canonical_init(declared[from]), tail);
    }
}

/// The canonical form of an array suffix with a spelled size is spelled.
pub proof fn lemma_array_form_spelled(qualifiers: Seq<TypeQualifier>, size: Option<ExpressionView>)
    requires
        size matches Some(value) ==> all_lexical(canonical(value)),
    ensures
        all_lexical(canonical_array(qualifiers, size)),
{
    lemma_qualifiers_spelled(qualifiers, 0);
    lemma_all_lexical_concat(canonical_qualifiers(qualifiers, 0), canonical_size(size));
    let inside = canonical_qualifiers(qualifiers, 0) + canonical_size(size);
    lemma_all_lexical_between(
        PunctuatorKind::LeftSquareBracket,
        inside,
        PunctuatorKind::RightSquareBracket,
    );
    let close = seq![punctuator(PunctuatorKind::RightSquareBracket)];
    assert(inside + close =~= canonical_qualifiers(qualifiers, 0) + (canonical_size(size) + close));
}

/// The canonical form of the specifier that is read from spellable tokens
/// is spelled.
#[verifier::spinoff_prover]
pub proof fn lemma_one_specifier_spelled(tokens: Seq<TokenView>, position: int)
    requires
        spellable(tokens),
    ensures
        spec_one_specifier(tokens, position) matches Ok(found) ==> (found.0 matches Some(
            specifier,
        ) ==> all_lexical(canonical_specifier(specifier))),
{
    reveal(spec_one_specifier);
    reveal(spec_alignment_specifier);
    lemma_conditional_spelled(tokens, position + 2);
    if let Ok((value, count)) = spec_conditional(tokens, position + 2) {
        lemma_all_lexical_between(
            PunctuatorKind::LeftRoundBracket,
            canonical(value),
            PunctuatorKind::RightRoundBracket,
        );
        lemma_all_lexical_keyword(
            KeywordKind::Alignas,
            seq![punctuator(PunctuatorKind::LeftRoundBracket)] + (canonical(value) + seq![
                punctuator(PunctuatorKind::RightRoundBracket),
            ]),
        );
    }
    if let Ok((found, count)) = spec_one_specifier(tokens, position) {
        if let Some(specifier) = found {
            if !(specifier is AlignmentSpecifier) {
                assert(canonical_specifier(specifier).len() == 1);
            }
        }
    }
}

/// The canonical forms of the specifiers that are read from spellable
/// tokens are spelled.
#[verifier::spinoff_prover]
pub proof fn lemma_specifiers_spelled(tokens: Seq<TokenView>, position: int)
    requires
        spellable(tokens),
    ensures
        spec_specifiers(tokens, position) matches Ok(found) ==> each_specifier_spelled(found.0),
    decreases tokens_left(tokens, position),
{
    reveal(spec_specifiers);
    lemma_one_specifier_spelled(tokens, position);
    if let Ok((found, count)) = spec_one_specifier(tokens, position) {
        if found is Some && 0 < count && position < tokens.len() {
            lemma_specifiers_spelled(tokens, position + count);
            if let Ok((rest, more)) = spec_specifiers(tokens, position + count) {
                let all = seq![found->Some_0] + rest;
                assert forall|index: int| 0 <= index < all.len() implies all_lexical(
                    canonical_specifier(#[trigger] all[index]),
                ) by {
                    if index > 0 {
                        assert(all[index] == rest[index - 1]);
                    }
                }
            }
        }
    }
}

/// The canonical form of the array suffix that is read from spellable
/// tokens is spelled.
pub proof fn lemma_array_suffix_spelled(tokens: Seq<TokenView>, position: int)
    requires
        spellable(tokens),
    ensures
        spec_array_suffix(tokens, position) matches Ok(found) ==> all_lexical(
            canonical_array(found.0.0, found.0.1),
        ),
{
    reveal(spec_array_suffix);
    let (qualifiers, count) = spec_qualifier_list(tokens, position);
    lemma_assign_spelled(tokens, position + count);
    if let Ok((found, more)) = spec_array_suffix(tokens, position) {
        lemma_array_form_spelled(found.0, found.1);
    }
}

/// The names that are read from spellable tokens are spelled like
/// identifiers.
pub proof fn lemma_identifier_list_spelled(tokens: Seq<TokenView>, position: int)
    requires
        spellable(tokens),
    ensures
        spec_identifier_list(tokens, position) matches Ok(found) ==> each_name_spelled(found.0),
    decreases tokens_left(tokens, position),
{
    reveal(spec_identifier_list);
    if let TokenView::Identifier(name) = token_at(tokens, position) {
        assert(0 <= position < tokens.len());
        assert(lexical(tokens[position]) || tokens[position] is End);
        if punctuator_at(tokens, position + 1, PunctuatorKind::Commma) {
            lemma_identifier_list_spelled(tokens, position + 2);
            if let Ok((rest, more)) = spec_identifier_list(tokens, position + 2) {
                let all = seq![name] + rest;
                assert forall|index: int| 0 <= index < all.len() implies spells_identifier(
                    #[trigger] all[index],
                ) by {
                    if index > 0 {
                        assert(all[index] == rest[index - 1]);
                    }
                }
            }
        } else {
            assert(seq![name][0] == name);
        }
    }
}

/// The canonical form of the declarator that is read from spellable tokens
/// is spelled.
#[verifier::spinoff_prover]
pub proof fn lemma_declarator_spelled(tokens: Seq<TokenView>, position: int)
    requires
        spellable(tokens),
    ensures
        spec_declarator(tokens, position) matches Ok(found) ==> (found.0 matches Some(
            declarator,
        ) ==> all_lexical(canonical_declarator(declarator))),
    decreases tokens_left(tokens, position), 4nat,
{
    reveal(spec_declarator);
    reveal(spec_direct_declarator);
    reveal(canonical_declarator);
    reveal(canonical_direct);
    let (pointer, count) = spec_pointer(tokens, position);
    lemma_direct_declarator_spelled(tokens, position + count);
    lemma_pointer_spelled(pointer, 0);
    if let Ok((found, more)) = spec_direct_declarator(tokens, position + count) {
        if let Some(direct) = found {
            lemma_all_lexical_concat(canonical_pointer(pointer, 0), canonical_direct(direct));
        }
    }
}

/// The canonical form of the direct declarator that is read from spellable
/// tokens is spelled.
#[verifier::spinoff_prover]
pub proof fn lemma_direct_declarator_spelled(tokens: Seq<TokenView>, position: int)
    requires
        spellable(tokens),
    ensures
        spec_direct_declarator(tokens, position) matches Ok(found) ==> (found.0 matches Some(
            direct,
        ) ==> all_lexical(canonical_direct(direct))),
    decreases tokens_left(tokens, position), 3nat,
{
    reveal(spec_direct_declarator);
    reveal(spec_declarator);
    reveal(spec_declarator_suffixes);
    if punctuator_at(tokens, position, PunctuatorKind::LeftRoundBracket) {
        lemma_declarator_spelled(tokens, position + 1);
        if let Ok((inner, count)) = spec_declarator(tokens, position + 1) {
            if inner is Some && punctuator_at(
                tokens,
                position + 1 + count,
                PunctuatorKind::RightRoundBracket,
            ) {
                let current = DirectDeclaratorView::Declarator(Box::new(inner->Some_0));
                assert(all_lexical(canonical_direct(current))) by {
                    reveal(canonical_direct);
                    reveal(canonical_declarator);
                    lemma_all_lexical_between(
                        PunctuatorKind::LeftRoundBracket,
                        canonical_declarator(inner->Some_0),
                        PunctuatorKind::RightRoundBracket,
                    );
                }
                lemma_declarator_suffixes_spelled(tokens, position + 1 + count + 1, current);
            }
        }
    } else if token_at(tokens, position) is Identifier {
        let current = DirectDeclaratorView::Identifier(token_at(tokens, position)->Identifier_0);
        assert(lexical(tokens[position]) || tokens[position] is End);
        assert(all_lexical(canonical_direct(current))) by {
            reveal(canonical_direct);
        }
        lemma_declarator_suffixes_spelled(tokens, position + 1, current);
    }
}

/// The canonical form of what is read from spellable tokens after a direct
/// declarator with a spelled canonical form is spelled.
#[verifier::spinoff_prover]
pub proof fn lemma_declarator_suffixes_spelled(
    tokens: Seq<TokenView>,
    position: int,
    current: DirectDeclaratorView,
)
    requires
        spellable(tokens),
        all_lexical(canonical_direct(current)),
    ensures
        spec_declarator_suffixes(tokens, position, current) matches Ok(found) ==> all_lexical(
            canonical_direct(found.0),
        ),
    decreases tokens_left(tokens, position), 2nat,
{
    reveal(spec_declarator_suffixes);
    reveal(spec_parameters);
    if punctuator_at(tokens, position, PunctuatorKind::LeftSquareBracket) {
        lemma_array_suffix_spelled(tokens, position + 1);
        if let Ok((suffix, count)) = spec_array_suffix(tokens, position + 1) {
            let next = DirectDeclaratorView::Array(Box::new(current), suffix.0, suffix.1);
            assert(all_lexical(canonical_direct(next))) by {
                reveal(canonical_direct);
                lemma_all_lexical_concat(
                    canonical_direct(current),
                    canonical_array(suffix.0, suffix.1),
                );
            }
            lemma_declarator_suffixes_spelled(tokens, position + 1 + count, next);
        }
    } else if punctuator_at(tokens, position, PunctuatorKind::LeftRoundBracket) {
        lemma_parameters_spelled(tokens, position + 1);
        if let Ok((parameters, count)) = spec_parameters(tokens, position + 1) {
            let next = DirectDeclaratorView::Function(Box::new(current), parameters);
            assert(all_lexical(canonical_direct(next))) by {
                reveal(canonical_direct);
                reveal(canonical_parameters);
                lemma_all_lexical_punctuator(
                    PunctuatorKind::LeftRoundBracket,
                    canonical_parameters(parameters),
                );
                lemma_all_lexical_concat(
                    canonical_direct(current),
                    seq![punctuator(PunctuatorKind::LeftRoundBracket)] + canonical_parameters(
                        parameters,
                    ),
                );
            }
            lemma_declarator_suffixes_spelled(tokens, position + 1 + count, next);
        }
    }
}

/// The canonical form of what is read from spellable tokens in the round
/// brackets of a function suffix is spelled.
#[verifier::spinoff_prover]
pub proof fn lemma_parameters_spelled(tokens: Seq<TokenView>, position: int)
    requires
        spellable(tokens),
    ensures
        spec_parameters(tokens, position) matches Ok(found) ==> all_lexical(
            canonical_parameters(found.0),
        ),
    decreases tokens_left(tokens, position), 9nat,
{
    reveal(spec_parameters);
    reveal(spec_parameter_type_list);
    reveal(canonical_parameters);
    reveal(canonical_parameter_list);
    if punctuator_at(tokens, position, PunctuatorKind::RightRoundBracket) {
        lemma_identifiers_spelled(Seq::empty(), 0);
    } else if token_at(tokens, position) is Identifier {
        lemma_identifier_list_spelled(tokens, position);
        if let Ok((names, count)) = spec_identifier_list(tokens, position) {
            lemma_identifiers_spelled(names, 0);
        }
    } else {
        lemma_parameter_type_list_spelled(tokens, position);
        if let Ok((list, count)) = spec_parameter_type_list(tokens, position) {
            lemma_parameter_list_form_spelled(list.parameter_list, list.variable_parameter, 0);
        }
    }
}

/// The canonical forms of the parameters that are read from spellable
/// tokens are spelled.
#[verifier::spinoff_prover]
pub proof fn lemma_parameter_type_list_spelled(tokens: Seq<TokenView>, position: int)
    requires
        spellable(tokens),
    ensures
        spec_parameter_type_list(tokens, position) matches Ok(found) ==> each_parameter_spelled(
            found.0.parameter_list,
        ),
    decreases tokens_left(tokens, position), 8nat,
{
    reveal(spec_parameter_type_list);
    reveal(spec_parameter_declaration);
    lemma_parameter_declaration_spelled(tokens, position);
    if let Ok((parameter, count)) = spec_parameter_declaration(tokens, position) {
        if punctuator_at(tokens, position + count, PunctuatorKind::Commma) && !punctuator_at(
            tokens,
            position + count + 1,
            PunctuatorKind::TripleDots,
        ) {
            lemma_parameter_type_list_spelled(tokens, position + count + 1);
            if let Ok((rest, more)) = spec_parameter_type_list(tokens, position + count + 1) {
                let all = seq![parameter] + rest.parameter_list;
                assert forall|index: int| 0 <= index < all.len() implies all_lexical(
                    canonical_parameter(#[trigger] all[index]),
                ) by {
                    if index > 0 {
                        assert(all[index] == rest.parameter_list[index - 1]);
                    }
                }
            }
        } else {
            assert(seq![parameter][0] == parameter);
        }
    }
}

/// The canonical form of the parameter that is read from spellable tokens
/// is spelled.
#[verifier::spinoff_prover]
pub proof fn lemma_parameter_declaration_spelled(tokens: Seq<TokenView>, position: int)
    requires
        spellable(tokens),
    ensures
        spec_parameter_declaration(tokens, position) matches Ok(found) ==> all_lexical(
            canonical_parameter(found.0),
        ),
    decreases tokens_left(tokens, position), 7nat,
{
    reveal(spec_parameter_declaration);
    reveal(spec_parameter_declarator);
    reveal(canonical_parameter);
    reveal(canonical_declarator);
    reveal(canonical_abstract);
    lemma_specifiers_spelled(tokens, position);
    if let Ok((specifiers, count)) = spec_specifiers(tokens, position) {
        lemma_specifiers_form_spelled(specifiers, 0);
        lemma_parameter_declarator_spelled(tokens, position + count);
        if let Ok((declarator, more)) = spec_parameter_declarator(tokens, position + count) {
            let tail = match declarator {
                Some(Either::Left(with_name)) => canonical_declarator(with_name),
                Some(Either::Right(without_name)) => canonical_abstract(without_name),
                None => Seq::empty(),
            };
            assert(all_lexical(tail));
            lemma_all_lexical_concat(canonical_specifiers(specifiers, 0), tail);
        }
    }
}

/// The canonical form of the declarator of a parameter that is read from
/// spellable tokens is spelled.
#[verifier::spinoff_prover]
pub proof fn lemma_parameter_declarator_spelled(tokens: Seq<TokenView>, position: int)
    requires
        spellable(tokens),
    ensures
        spec_parameter_declarator(tokens, position) matches Ok(found)
            ==> spelled_parameter_declarator(found.0),
    decreases tokens_left(tokens, position), 6nat,
{
    reveal(spec_parameter_declarator);
    reveal(spec_declarator_suffixes);
    reveal(spec_abstract_suffixes);
    let (pointer, count) = spec_pointer(tokens, position);
    let at = position + count;
    lemma_pointer_spelled(pointer, 0);
    if token_at(tokens, at) is Identifier {
        let current = DirectDeclaratorView::Identifier(token_at(tokens, at)->Identifier_0);
        assert(lexical(tokens[at]) || tokens[at] is End);
        assert(all_lexical(canonical_direct(current))) by {
            reveal(canonical_direct);
        }
        lemma_declarator_suffixes_spelled(tokens, at + 1, current);
        if let Ok((direct, more)) = spec_declarator_suffixes(tokens, at + 1, current) {
            lemma_named_spelled(pointer, direct);
        }
    } else if punctuator_at(tokens, at, PunctuatorKind::LeftRoundBracket)
        && starts_nested_declarator(token_at(tokens, at + 1)) {
        lemma_parameter_declarator_spelled(tokens, at + 1);
        if let Ok((inner, more)) = spec_parameter_declarator(tokens, at + 1) {
            if inner is Some && punctuator_at(
                tokens,
                at + 1 + more,
                PunctuatorKind::RightRoundBracket,
            ) {
                match inner->Some_0 {
                    Either::Left(with_name) => {
                        let current = DirectDeclaratorView::Declarator(Box::new(with_name));
                        assert(all_lexical(canonical_direct(current))) by {
                            reveal(canonical_direct);
                            reveal(canonical_declarator);
                            lemma_all_lexical_between(
                                PunctuatorKind::LeftRoundBracket,
                                canonical_declarator(with_name),
                                PunctuatorKind::RightRoundBracket,
                            );
                        }
                        lemma_declarator_suffixes_spelled(tokens, at + 1 + more + 1, current);
                        if let Ok((direct, last)) = spec_declarator_suffixes(
                            tokens,
                            at + 1 + more + 1,
                            current,
                        ) {
                            lemma_named_spelled(pointer, direct);
                        }
                    },
                    Either::Right(without_name) => {
                        let current = DirectAbstarctDeclaratorView::Declarator(
                            Box::new(without_name),
                        );
                        assert(all_lexical(canonical_direct_abstract(current))) by {
                            reveal(canonical_direct_abstract);
                            reveal(canonical_abstract);
                            lemma_all_lexical_between(
                                PunctuatorKind::LeftRoundBracket,
                                canonical_abstract(without_name),
                                PunctuatorKind::RightRoundBracket,
                            );
                        }
                        lemma_abstract_suffixes_spelled(tokens, at + 1 + more + 1, Some(current));
                        if let Ok((direct, last)) = spec_abstract_suffixes(
                            tokens,
                            at + 1 + more + 1,
                            Some(current),
                        ) {
                            lemma_unnamed_spelled(pointer, direct);
                        }
                    },
                }
            }
        }
    } else {
        lemma_abstract_suffixes_spelled(tokens, at, None);
        if let Ok((direct, more)) = spec_abstract_suffixes(tokens, at, None) {
            lemma_unnamed_spelled(pointer, direct);
        }
    }
}

/// The canonical form of pointer layers before a direct declarator with a
/// spelled canonical form is spelled.
pub proof fn lemma_named_spelled(pointer: Seq<Seq<TypeQualifier>>, direct: DirectDeclaratorView)
    requires
        all_lexical(canonical_direct(direct)),
    ensures
        all_lexical(canonical_declarator(DeclaratorView { pointer, identifier: direct })),
{
    reveal(canonical_declarator);
    reveal(canonical_direct);
    lemma_pointer_spelled(pointer, 0);
    lemma_all_lexical_concat(canonical_pointer(pointer, 0), canonical_direct(direct));
}

/// The canonical form of pointer layers before a direct declarator without
/// a name, if there is one, with a spelled canonical form is spelled.
pub proof fn lemma_unnamed_spelled(
    pointer: Seq<Seq<TypeQualifier>>,
    direct: Option<DirectAbstarctDeclaratorView>,
)
    requires
        direct matches Some(found) ==> all_lexical(canonical_direct_abstract(found)),
    ensures
        all_lexical(canonical_abstract(AbstractDeclaratorView { pointer, declarator: direct })),
{
    reveal(canonical_abstract);
    reveal(canonical_direct_abstract);
    lemma_pointer_spelled(pointer, 0);
    let tail = match direct {
        Some(found) => canonical_direct_abstract(found),
        None => Seq::empty(),
    };
    lemma_all_lexical_concat(canonical_pointer(pointer, 0), tail);
}

/// The canonical form of what is read from spellable tokens after a direct
/// declarator without a name, if there is one, with a spelled canonical
/// form is spelled.
#[verifier::spinoff_prover]
pub proof fn lemma_abstract_suffixes_spelled(
    tokens: Seq<TokenView>,
    position: int,
    current: Option<DirectAbstarctDeclaratorView>,
)
    requires
        spellable(tokens),
        current matches Some(direct) ==> all_lexical(canonical_direct_abstract(direct)),
    ensures
        spec_abstract_suffixes(tokens, position, current) matches Ok(found) ==> (
        found.0 matches Some(direct) ==> all_lexical(canonical_direct_abstract(direct))),
    decreases tokens_left(tokens, position), 5nat,
{
    reveal(spec_abstract_suffixes);
    reveal(spec_parameter_type_list);
    let before = match current {
        Some(inner) => canonical_direct_abstract(inner),
        None => Seq::empty(),
    };
    assert(all_lexical(before));
    if punctuator_at(tokens, position, PunctuatorKind::LeftSquareBracket) {
        lemma_array_suffix_spelled(tokens, position + 1);
        if let Ok((suffix, count)) = spec_array_suffix(tokens, position + 1) {
            let next = DirectAbstarctDeclaratorView::Array(boxed(current), suffix.0, suffix.1);
            assert(all_lexical(canonical_direct_abstract(next))) by {
                reveal(canonical_direct_abstract);
                lemma_all_lexical_concat(before, canonical_array(suffix.0, suffix.1));
            }
            lemma_abstract_suffixes_spelled(tokens, position + 1 + count, Some(next));
        }
    } else if punctuator_at(tokens, position, PunctuatorKind::LeftRoundBracket) {
        lemma_parameter_type_list_spelled(tokens, position + 1);
        if let Ok((parameters, count)) = spec_parameter_type_list(tokens, position + 1) {
            let next = DirectAbstarctDeclaratorView::Function(boxed(current), parameters);
            assert(all_lexical(canonical_direct_abstract(next))) by {
                reveal(canonical_direct_abstract);
                reveal(canonical_parameter_list);
                lemma_parameter_list_form_spelled(
                    parameters.parameter_list,
                    parameters.variable_parameter,
                    0,
                );
                let list = canonical_parameter_list(
                    parameters.parameter_list,
                    parameters.variable_parameter,
                    0,
                );
                lemma_all_lexical_punctuator(PunctuatorKind::LeftRoundBracket, list);
                lemma_all_lexical_concat(
                    before,
                    seq![punctuator(PunctuatorKind::LeftRoundBracket)] + list,
                );
            }
            lemma_abstract_suffixes_spelled(tokens, position + 1 + count, Some(next));
        }
    }
}

/// The canonical form of the declarator with its value that is read from
/// spellable tokens is spelled.
#[verifier::spinoff_prover]
pub proof fn lemma_init_declarator_spelled(tokens: Seq<TokenView>, position: int)
    requires
        spellable(tokens),
    ensures
        spec_init_declarator(tokens, position) matches Ok(found) ==> (found.0 matches Some(
            declared,
        ) ==> all_lexical(canonical_init(declared))),
{
    reveal(spec_init_declarator);
    lemma_declarator_spelled(tokens, position);
    if let Ok((found, count)) = spec_declarator(tokens, position) {
        if let Some(declarator) = found {
            lemma_assign_spelled(tokens, position + count + 1);
            if let Ok((value, more)) = spec_assign(tokens, position + count + 1) {
                lemma_all_lexical_punctuator(PunctuatorKind::Equal, canonical(value));
                lemma_all_lexical_concat(
                    canonical_declarator(declarator),
                    seq![punctuator(PunctuatorKind::Equal)] + canonical(value),
                );
            }
            lemma_all_lexical_concat(canonical_declarator(declarator), Seq::empty());
        }
    }
}

/// The canonical forms of the declarators that are read from spellable
/// tokens are spelled.
#[verifier::spinoff_prover]
pub proof fn lemma_init_declarator_list_spelled(tokens: Seq<TokenView>, position: int)
    requires
        spellable(tokens),
    ensures
        spec_init_declarator_list(tokens, position) matches Ok(found) ==> each_init_spelled(
            found.0,
        ),
    decreases tokens_left(tokens, position),
{
    reveal(spec_init_declarator_list);
    lemma_init_declarator_spelled(tokens, position);
    if let Ok((found, count)) = spec_init_declarator(tokens, position) {
        if found is Some {
            if punctuator_at(tokens, position + count, PunctuatorKind::Commma) {
                lemma_init_declarator_list_spelled(tokens, position + count + 1);
                if let Ok((rest, more)) = spec_init_declarator_list(tokens, position + count + 1) {
                    let all = seq![found->Some_0] + rest;
                    assert forall|index: int| 0 <= index < all.len() implies all_lexical(
                        canonical_init(#[trigger] all[index]),
                    ) by {
                        if index > 0 {
                            assert(all[index] == rest[index - 1]);
                        }
                    }
                }
            } else {
                assert(seq![found->Some_0][0] == found->Some_0);
            }
        }
    }
}

/// The canonical form of the declaration that is read from spellable tokens
/// is spelled.
#[verifier::spinoff_prover]
pub proof fn lemma_declaration_spelled(tokens: Seq<TokenView>, position: int)
    requires
        spellable(tokens),
    ensures
        spec_declaration(tokens, position) matches Ok(found) ==> (found.0 matches Some(
            declaration,
        ) ==> all_lexical(canonical_declaration(declaration))),
{
    reveal(spec_declaration);
    lemma_specifiers_spelled(tokens, position);
    if let Ok((specifiers, count)) = spec_specifiers(tokens, position) {
        lemma_specifiers_form_spelled(specifiers, 0);
        lemma_init_declarator_list_spelled(tokens, position + count);
        if let Ok((declarators, more)) = spec_init_declarator_list(tokens, position + count) {
            lemma_init_list_form_spelled(declarators, 0);
            lemma_all_lexical_punctuator(PunctuatorKind::Semicolon, Seq::empty());
            lemma_all_lexical_concat(
                canonical_init_list(declarators, 0),
                seq![punctuator(PunctuatorKind::Semicolon)],
            );
            lemma_all_lexical_concat(
                canonical_specifiers(specifiers, 0),
                canonical_init_list(declarators, 0) + seq![punctuator(PunctuatorKind::Semicolon)],
            );
        }
    }
}

} // verus!
