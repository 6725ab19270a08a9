//! Every declaration that the grammar gives is printable: it has a
//! canonical form that parses back to it.

use crate::parser::canonical::printable;
use crate::parser::canonical_declaration::{
    canonical_declaration, has_tokens, lemma_declaration_round_trip, printable_abstract,
    printable_declaration, printable_declarator, printable_direct, printable_direct_abstract,
    printable_init, printable_init_list, printable_parameter, printable_parameter_list,
    printable_parameters, printable_size, printable_specifier, printable_specifiers,
};
use crate::parser::declaration::{
    boxed, spec_abstract_suffixes, spec_alignment_specifier, spec_array_suffix, spec_declaration,
    spec_declarator, spec_declarator_suffixes, spec_direct_declarator, spec_init_declarator,
    spec_init_declarator_list, spec_one_specifier, spec_parameter_declaration,
    spec_parameter_declarator, spec_parameter_type_list, spec_parameters, spec_pointer,
    spec_qualifier_list, spec_specifiers, starts_nested_declarator, AbstractDeclaratorView,
    DeclarationSpecifierView, DeclarationView, DeclaratorView, DirectAbstarctDeclaratorView,
    DirectDeclaratorView, InitDeclaratorView, ParameterDeclarationView,
};
use crate::parser::printable::{lemma_assign_printable, lemma_conditional_printable};
use crate::parser::util::{punctuator_at, token_at, tokens_left, ParseError};
use crate::tokenizer::{PunctuatorKind, TokenView};
use crate::util::Either;
use vstd::prelude::*;

verus! {

/// The specifier that is read is printable.
#[verifier::spinoff_prover]
pub proof fn lemma_one_specifier_printable(tokens: Seq<TokenView>, position: int)
    ensures
        spec_one_specifier(tokens, position) matches Ok(found) ==> (found.0 matches Some(
            specifier,
        ) ==> printable_specifier(specifier)),
{
    reveal(spec_one_specifier);
    reveal(spec_alignment_specifier);
    lemma_conditional_printable(tokens, position + 2);
}

/// Specifiers of which the first is printable and the others are printable
/// are printable.
pub proof fn lemma_printable_specifiers_first(
    first: DeclarationSpecifierView,
    rest: Seq<DeclarationSpecifierView>,
)
    requires
        printable_specifier(first),
        printable_specifiers(rest, 0),
    ensures
        printable_specifiers(seq![first] + rest, 0),
{
    reveal(printable_specifiers);
    lemma_printable_specifiers_shift(first, rest, 0);
    let all = seq![first] + rest;
    assert(all.len() == rest.len() + 1);
    assert(all[0] == first);
    assert(printable_specifiers(all, 1));
}

/// The specifiers after the first, from some place on, are printable where
/// they are printable without the first.
pub proof fn lemma_printable_specifiers_shift(
    first: DeclarationSpecifierView,
    rest: Seq<DeclarationSpecifierView>,
    from: int,
)
    requires
        0 <= from,
        printable_specifiers(rest, from),
    ensures
        printable_specifiers(seq![first] + rest, from + 1),
    decreases rest.len() - from,
{
    reveal(printable_specifiers);
    if from < rest.len() {
        lemma_printable_specifiers_shift(first, rest, from + 1);
        assert((seq![first] + rest)[from + 1] == rest[from]);
    }
}

/// The specifiers that are read are printable.
#[verifier::spinoff_prover]
pub proof fn lemma_specifiers_printable(tokens: Seq<TokenView>, position: int)
    ensures
        spec_specifiers(tokens, position) matches Ok(found) ==> printable_specifiers(found.0, 0),
    decreases tokens_left(tokens, position),
{
    reveal(spec_specifiers);
    lemma_one_specifier_printable(tokens, position);
    if let Ok((found, count)) = spec_one_specifier(tokens, position) {
        if found is Some && 0 < count && position < tokens.len() {
            lemma_specifiers_printable(tokens, position + count);
            if let Ok((rest, more)) = spec_specifiers(tokens, position + count) {
                lemma_printable_specifiers_first(found->Some_0, rest);
            }
        } else {
            reveal(printable_specifiers);
        }
    }
}

/// The size that is read for an array is printable.
pub proof fn lemma_array_suffix_printable(tokens: Seq<TokenView>, position: int)
    ensures
        spec_array_suffix(tokens, position) matches Ok(found) ==> printable_size(found.0.1),
{
    reveal(spec_array_suffix);
    let count = spec_qualifier_list(tokens, position).1;
    lemma_assign_printable(tokens, position + count);
}

/// Pointer layers take no token exactly where there is none of them.
pub proof fn lemma_pointer_count(tokens: Seq<TokenView>, position: int)
    ensures
        spec_pointer(tokens, position).1 == 0 <==> spec_pointer(tokens, position).0.len() == 0,
{
    reveal(spec_pointer);
}

/// Parameters of which the first is printable and the others are printable
/// are printable.
pub proof fn lemma_printable_parameters_first(
    first: ParameterDeclarationView,
    rest: Seq<ParameterDeclarationView>,
)
    requires
        printable_parameter(first),
        printable_parameter_list(rest, 0),
    ensures
        printable_parameter_list(seq![first] + rest, 0),
{
    reveal(printable_parameter_list);
    reveal(printable_parameter);
    lemma_printable_parameters_shift(first, rest, 0);
    let all = seq![first] + rest;
    assert(all.len() == rest.len() + 1);
    assert(all[0] == first);
    assert(printable_parameter_list(all, 1));
}

/// The parameters after the first, from some place on, are printable where
/// they are printable without the first.
pub proof fn lemma_printable_parameters_shift(
    first: ParameterDeclarationView,
    rest: Seq<ParameterDeclarationView>,
    from: int,
)
    requires
        0 <= from,
        printable_parameter_list(rest, from),
    ensures
        printable_parameter_list(seq![first] + rest, from + 1),
    decreases rest.len() - from,
{
    reveal(printable_parameter_list);
    reveal(printable_parameter);
    if from < rest.len() {
        lemma_printable_parameters_shift(first, rest, from + 1);
        assert((seq![first] + rest)[from + 1] == rest[from]);
    }
}

/// The declarator that is read is printable.
#[verifier::spinoff_prover]
pub proof fn lemma_declarator_printable(tokens: Seq<TokenView>, position: int)
    ensures
        spec_declarator(tokens, position) matches Ok(found) ==> (found.0 matches Some(
            declarator,
        ) ==> printable_declarator(declarator)),
    decreases tokens_left(tokens, position), 4nat,
{
    reveal(spec_declarator);
    reveal(spec_direct_declarator);
    reveal(printable_declarator);
    reveal(printable_direct);
    let count = spec_pointer(tokens, position).1;
    lemma_direct_declarator_printable(tokens, position + count);
}

/// The direct declarator that is read is printable.
#[verifier::spinoff_prover]
pub proof fn lemma_direct_declarator_printable(tokens: Seq<TokenView>, position: int)
    ensures
        spec_direct_declarator(tokens, position) matches Ok(found) ==> (found.0 matches Some(
            direct,
        ) ==> printable_direct(direct)),
    decreases tokens_left(tokens, position), 3nat,
{
    reveal(spec_direct_declarator);
    reveal(spec_declarator);
    reveal(spec_declarator_suffixes);
    if punctuator_at(tokens, position, PunctuatorKind::LeftRoundBracket) {
        lemma_declarator_printable(tokens, position + 1);
        if let Ok((inner, count)) = spec_declarator(tokens, position + 1) {
            if inner is Some && punctuator_at(
                tokens,
                position + 1 + count,
                PunctuatorKind::RightRoundBracket,
            ) {
                let current = DirectDeclaratorView::Declarator(Box::new(inner->Some_0));
                assert(printable_direct(current)) by {
                    reveal(printable_direct);
                    reveal(printable_declarator);
                }
                lemma_declarator_suffixes_printable(tokens, position + 1 + count + 1, current);
            }
        }
    } else if token_at(tokens, position) is Identifier {
        let current = DirectDeclaratorView::Identifier(token_at(tokens, position)->Identifier_0);
        assert(printable_direct(current)) by {
            reveal(printable_direct);
        }
        lemma_declarator_suffixes_printable(tokens, position + 1, current);
    }
}

/// What is read after a printable direct declarator is printable.
#[verifier::spinoff_prover]
pub proof fn lemma_declarator_suffixes_printable(
    tokens: Seq<TokenView>,
    position: int,
    current: DirectDeclaratorView,
)
    requires
        printable_direct(current),
    ensures
        spec_declarator_suffixes(tokens, position, current) matches Ok(found) ==> printable_direct(
            found.0,
        ),
    decreases tokens_left(tokens, position), 2nat,
{
    reveal(spec_declarator_suffixes);
    reveal(spec_parameters);
    if punctuator_at(tokens, position, PunctuatorKind::LeftSquareBracket) {
        lemma_array_suffix_printable(tokens, position + 1);
        if let Ok((suffix, count)) = spec_array_suffix(tokens, position + 1) {
            let next = DirectDeclaratorView::Array(Box::new(current), suffix.0, suffix.1);
            assert(printable_direct(next)) by {
                reveal(printable_direct);
            }
            lemma_declarator_suffixes_printable(tokens, position + 1 + count, next);
        }
    } else if punctuator_at(tokens, position, PunctuatorKind::LeftRoundBracket) {
        lemma_parameters_printable(tokens, position + 1);
        if let Ok((parameters, count)) = spec_parameters(tokens, position + 1) {
            let next = DirectDeclaratorView::Function(Box::new(current), parameters);
            assert(printable_direct(next)) by {
                reveal(printable_direct);
                reveal(printable_parameters);
            }
            lemma_declarator_suffixes_printable(tokens, position + 1 + count, next);
        }
    }
}

/// What is read in the round brackets of a function suffix is printable.
#[verifier::spinoff_prover]
pub proof fn lemma_parameters_printable(tokens: Seq<TokenView>, position: int)
    ensures
        spec_parameters(tokens, position) matches Ok(found) ==> printable_parameters(found.0),
    decreases tokens_left(tokens, position), 9nat,
{
    reveal(spec_parameters);
    reveal(spec_parameter_type_list);
    reveal(printable_parameters);
    reveal(printable_parameter_list);
    if !punctuator_at(tokens, position, PunctuatorKind::RightRoundBracket) && !(token_at(
        tokens,
        position,
    ) is Identifier) {
        lemma_parameter_type_list_printable(tokens, position);
    }
}

/// The parameters that are read are printable, and there is one at least.
#[verifier::spinoff_prover]
pub proof fn lemma_parameter_type_list_printable(tokens: Seq<TokenView>, position: int)
    ensures
        spec_parameter_type_list(tokens, position) matches Ok(found) ==> found.0.parameter_list.len()
            > 0 && printable_parameter_list(found.0.parameter_list, 0),
    decreases tokens_left(tokens, position), 8nat,
{
    reveal(spec_parameter_type_list);
    reveal(spec_parameter_declaration);
    lemma_parameter_declaration_printable(tokens, position);
    if let Ok((parameter, count)) = spec_parameter_declaration(tokens, position) {
        if punctuator_at(tokens, position + count, PunctuatorKind::Commma) && !punctuator_at(
            tokens,
            position + count + 1,
            PunctuatorKind::TripleDots,
        ) {
            lemma_parameter_type_list_printable(tokens, position + count + 1);
            if let Ok((rest, more)) = spec_parameter_type_list(tokens, position + count + 1) {
                lemma_printable_parameters_first(parameter, rest.parameter_list);
            }
        } else {
            assert(printable_parameter_list(seq![parameter], 0)) by {
                reveal_with_fuel(printable_parameter_list, 2);
                reveal(printable_parameter);
                assert(seq![parameter][0] == parameter);
            }
        }
    }
}

/// The parameter that is read is printable.
#[verifier::spinoff_prover]
pub proof fn lemma_parameter_declaration_printable(tokens: Seq<TokenView>, position: int)
    ensures
        spec_parameter_declaration(tokens, position) matches Ok(found) ==> printable_parameter(
            found.0,
        ),
    decreases tokens_left(tokens, position), 7nat,
{
    reveal(spec_parameter_declaration);
    reveal(spec_parameter_declarator);
    reveal(printable_parameter);
    reveal(printable_declarator);
    reveal(printable_abstract);
    lemma_specifiers_printable(tokens, position);
    if let Ok((specifiers, count)) = spec_specifiers(tokens, position) {
        lemma_parameter_declarator_printable(tokens, position + count);
    }
}

/// Whether the declarator of a parameter is printable.
pub open spec fn printable_parameter_declarator(
    declarator: Option<Either<DeclaratorView, AbstractDeclaratorView>>,
) -> bool {
    match declarator {
        Some(Either::Left(with_name)) => printable_declarator(with_name),
        Some(Either::Right(without_name)) => has_tokens(without_name) && printable_abstract(
            without_name,
        ),
        None => true,
    }
}

/// The declarator of a parameter that is read is printable.
#[verifier::spinoff_prover]
pub proof fn lemma_parameter_declarator_printable(tokens: Seq<TokenView>, position: int)
    ensures
        spec_parameter_declarator(tokens, position) matches Ok(found)
            ==> printable_parameter_declarator(found.0),
    decreases tokens_left(tokens, position), 6nat,
{
    reveal(spec_parameter_declarator);
    reveal(spec_declarator_suffixes);
    reveal(spec_abstract_suffixes);
    let (pointer, count) = spec_pointer(tokens, position);
    let at = position + count;
    lemma_pointer_count(tokens, position);
    if token_at(tokens, at) is Identifier {
        let current = DirectDeclaratorView::Identifier(token_at(tokens, at)->Identifier_0);
        assert(printable_direct(current)) by {
            reveal(printable_direct);
        }
        lemma_declarator_suffixes_printable(tokens, at + 1, current);
        if let Ok((direct, more)) = spec_declarator_suffixes(tokens, at + 1, current) {
            assert(printable_declarator(DeclaratorView { pointer, identifier: direct })) by {
                reveal(printable_declarator);
                reveal(printable_direct);
            }
        }
    } else if punctuator_at(tokens, at, PunctuatorKind::LeftRoundBracket)
        && starts_nested_declarator(token_at(tokens, at + 1)) {
        lemma_parameter_declarator_printable(tokens, at + 1);
        if let Ok((inner, more)) = spec_parameter_declarator(tokens, at + 1) {
            if inner is Some && punctuator_at(
                tokens,
                at + 1 + more,
                PunctuatorKind::RightRoundBracket,
            ) {
                match inner->Some_0 {
                    Either::Left(with_name) => {
                        let current = DirectDeclaratorView::Declarator(Box::new(with_name));
                        assert(printable_direct(current)) by {
                            reveal(printable_direct);
                            reveal(printable_declarator);
                        }
                        lemma_declarator_suffixes_printable(tokens, at + 1 + more + 1, current);
                        if let Ok((direct, last)) = spec_declarator_suffixes(
                            tokens,
                            at + 1 + more + 1,
                            current,
                        ) {
                            assert(printable_declarator(
                                DeclaratorView { pointer, identifier: direct },
                            )) by {
                                reveal(printable_declarator);
                                reveal(printable_direct);
                            }
                        }
                    },
                    Either::Right(without_name) => {
                        let current = DirectAbstarctDeclaratorView::Declarator(
                            Box::new(without_name),
                        );
                        assert(printable_direct_abstract(current)) by {
                            reveal(printable_direct_abstract);
                            reveal(printable_abstract);
                        }
                        lemma_abstract_suffixes_printable(
                            tokens,
                            at + 1 + more + 1,
                            Some(current),
                        );
                        if let Ok((direct, last)) = spec_abstract_suffixes(
                            tokens,
                            at + 1 + more + 1,
                            Some(current),
                        ) {
                            assert(printable_abstract(
                                AbstractDeclaratorView { pointer, declarator: direct },
                            )) by {
                                reveal(printable_abstract);
                                reveal(printable_direct_abstract);
                            }
                        }
                    },
                }
            }
        }
    } else {
        lemma_abstract_suffixes_printable(tokens, at, None);
        if let Ok((direct, more)) = spec_abstract_suffixes(tokens, at, None) {
            assert(printable_abstract(AbstractDeclaratorView { pointer, declarator: direct })) by {
                reveal(printable_abstract);
                reveal(printable_direct_abstract);
            }
        }
    }
}

/// What is read after a printable direct declarator without a name is
/// printable; it is nothing only where nothing was there before and no
/// token is read.
#[verifier::spinoff_prover]
pub proof fn lemma_abstract_suffixes_printable(
    tokens: Seq<TokenView>,
    position: int,
    current: Option<DirectAbstarctDeclaratorView>,
)
    requires
        current matches Some(direct) ==> printable_direct_abstract(direct),
    ensures
        spec_abstract_suffixes(tokens, position, current) matches Ok(found) ==> {
            &&& found.0 matches Some(direct) ==> printable_direct_abstract(direct)
            &&& found.0 is None ==> current is None && found.1 == 0
        },
    decreases tokens_left(tokens, position), 5nat,
{
    reveal(spec_abstract_suffixes);
    reveal(spec_parameter_type_list);
    if punctuator_at(tokens, position, PunctuatorKind::LeftSquareBracket) {
        lemma_array_suffix_printable(tokens, position + 1);
        if let Ok((suffix, count)) = spec_array_suffix(tokens, position + 1) {
            let next = DirectAbstarctDeclaratorView::Array(boxed(current), suffix.0, suffix.1);
            assert(printable_direct_abstract(next)) by {
                reveal(printable_direct_abstract);
            }
            lemma_abstract_suffixes_printable(tokens, position + 1 + count, Some(next));
        }
    } else if punctuator_at(tokens, position, PunctuatorKind::LeftRoundBracket) {
        lemma_parameter_type_list_printable(tokens, position + 1);
        if let Ok((parameters, count)) = spec_parameter_type_list(tokens, position + 1) {
            let next = DirectAbstarctDeclaratorView::Function(boxed(current), parameters);
            assert(printable_direct_abstract(next)) by {
                reveal(printable_direct_abstract);
                reveal(printable_parameter_list);
            }
            lemma_abstract_suffixes_printable(tokens, position + 1 + count, Some(next));
        }
    }
}

/// The declarator with its value that is read is printable.
#[verifier::spinoff_prover]
pub proof fn lemma_init_declarator_printable(tokens: Seq<TokenView>, position: int)
    ensures
        spec_init_declarator(tokens, position) matches Ok(found) ==> (found.0 matches Some(
            declared,
        ) ==> printable_init(declared)),
{
    reveal(spec_init_declarator);
    lemma_declarator_printable(tokens, position);
    if let Ok((found, count)) = spec_declarator(tokens, position) {
        lemma_assign_printable(tokens, position + count + 1);
    }
}

/// Declarators of which the first is printable and the others are printable
/// are printable.
pub proof fn lemma_printable_init_first(first: InitDeclaratorView, rest: Seq<InitDeclaratorView>)
    requires
        printable_init(first),
        printable_init_list(rest, 0),
    ensures
        printable_init_list(seq![first] + rest, 0),
{
    reveal(printable_init_list);
    lemma_printable_init_shift(first, rest, 0);
    let all = seq![first] + rest;
    assert(all.len() == rest.len() + 1);
    assert(all[0] == first);
    assert(printable_init_list(all, 1));
}

/// The declarators after the first, from some place on, are printable where
/// they are printable without the first.
pub proof fn lemma_printable_init_shift(
    first: InitDeclaratorView,
    rest: Seq<InitDeclaratorView>,
    from: int,
)
    requires
        0 <= from,
        printable_init_list(rest, from),
    ensures
        printable_init_list(seq![first] + rest, from + 1),
    decreases rest.len() - from,
{
    reveal(printable_init_list);
    if from < rest.len() {
        lemma_printable_init_shift(first, rest, from + 1);
        assert((seq![first] + rest)[from + 1] == rest[from]);
    }
}

/// The declarators that are read are printable, and there is one at least.
#[verifier::spinoff_prover]
pub proof fn lemma_init_declarator_list_printable(tokens: Seq<TokenView>, position: int)
    ensures
        spec_init_declarator_list(tokens, position) matches Ok(found) ==> found.0.len() > 0
            && printable_init_list(found.0, 0),
    decreases tokens_left(tokens, position),
{
    reveal(spec_init_declarator_list);
    lemma_init_declarator_printable(tokens, position);
    if let Ok((found, count)) = spec_init_declarator(tokens, position) {
        if found is Some {
            if punctuator_at(tokens, position + count, PunctuatorKind::Commma) {
                lemma_init_declarator_list_printable(tokens, position + count + 1);
                if let Ok((rest, more)) = spec_init_declarator_list(tokens, position + count + 1) {
                    lemma_printable_init_first(found->Some_0, rest);
                }
            } else {
                assert(printable_init_list(seq![found->Some_0], 0)) by {
                    reveal_with_fuel(printable_init_list, 2);
                    assert(seq![found->Some_0][0] == found->Some_0);
                }
            }
        }
    }
}

/// The declaration that is read is printable.
#[verifier::spinoff_prover]
pub proof fn lemma_declaration_printable(tokens: Seq<TokenView>, position: int)
    ensures
        spec_declaration(tokens, position) matches Ok(found) ==> (found.0 matches Some(
            declaration,
        ) ==> printable_declaration(declaration)),
{
    reveal(spec_declaration);
    lemma_specifiers_printable(tokens, position);
    if let Ok((specifiers, count)) = spec_specifiers(tokens, position) {
        lemma_init_declarator_list_printable(tokens, position + count);
    }
}

/// Structural idempotence of the declaration rule: where it reads a
/// declaration from some tokens, it reads the same declaration from the
/// canonical form of that declaration, whatever tokens stand after the
/// form.
pub proof fn lemma_declaration_reparse(
    tokens: Seq<TokenView>,
    position: int,
    after: Seq<TokenView>,
)
    requires
        spec_declaration(tokens, position) matches Ok(found) && found.0 is Some,
    ensures
        ({
            let declaration = spec_declaration(tokens, position)->Ok_0.0->Some_0;
            spec_declaration(canonical_declaration(declaration) + after, 0) == Ok::<
                (Option<DeclarationView>, nat),
                (ParseError, nat),
            >((Some(declaration), canonical_declaration(declaration).len()))
        }),
{
    lemma_declaration_printable(tokens, position);
    lemma_declaration_round_trip(spec_declaration(tokens, position)->Ok_0.0->Some_0, after);
}

} // verus!
