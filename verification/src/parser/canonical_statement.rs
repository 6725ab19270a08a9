//! The canonical form of a statement, and the proof that parsing it gives
//! the statement back.

use crate::parser::canonical::{
    canonical, ends_expression, holds_at, lemma_canonical_primary, lemma_expression_of_primary,
    lemma_holds_first, lemma_holds_one, lemma_holds_split, printable, punctuator,
};
use crate::parser::expression::{spec_expression, spec_primary, ExpressionView};
use crate::parser::statement::{
    spec_break_statement, spec_compound_statement, spec_condition, spec_continue_statement,
    spec_do_while_statement, spec_expression_statement, spec_for_clauses, spec_for_statement,
    spec_goto_statement, spec_governed, spec_if_statement, spec_labeled_statement,
    spec_null_statement, spec_return_statement, spec_statement, spec_statement_list,
    spec_switch_statement, spec_while_statement, starts_expression, StatementView,
};
use crate::parser::util::{keyword_at, punctuator_at, required, token_at, ParseError};
use crate::parser::spec_parse;
use crate::tokenizer::{KeywordKind, PunctuatorKind, TokenView};
use vstd::prelude::*;

verus! {

/// A keyword as a token.
pub open spec fn keyword(kind: KeywordKind) -> TokenView {
    TokenView::Keyword(kind)
}

/// Whether the statement ends with an expression that no token closes: a
/// `return`, or a statement whose body does. What follows such a statement
/// must not read as more of the expression.
#[verifier::opaque]
pub open spec fn open_ended(statement: StatementView) -> bool
    decreases statement,
{
    match statement {
        StatementView::ReturnStatement(_) => true,
        StatementView::IfStatement { condition, statement } => open_ended(*statement),
        StatementView::SwitchStatement { condition, statement } => open_ended(*statement),
        StatementView::WhileStatement { condition, statement } => open_ended(*statement),
        StatementView::ForStatement { initialization, condition, afterthought, statement } => {
            open_ended(*statement)
        },
        _ => false,
    }
}

/// The canonical form of a statement: its keywords and punctuators, with
/// each expression in its canonical form.
#[verifier::opaque]
pub open spec fn canonical_statement(statement: StatementView) -> Seq<TokenView>
    decreases statement, 1nat,
{
    let open = punctuator(PunctuatorKind::LeftRoundBracket);
    let close = punctuator(PunctuatorKind::RightRoundBracket);
    let semicolon = punctuator(PunctuatorKind::Semicolon);
    match statement {
        StatementView::NullStatement => seq![semicolon],
        StatementView::ExpressionStatement(expression) => canonical(expression) + seq![semicolon],
        StatementView::IfStatement { condition, statement } => {
            seq![keyword(KeywordKind::If)] + (seq![open] + (canonical(condition) + (seq![close]
                + canonical_statement(*statement))))
        },
        StatementView::SwitchStatement { condition, statement } => {
            seq![keyword(KeywordKind::Switch)] + (seq![open] + (canonical(condition) + (seq![close]
                + canonical_statement(*statement))))
        },
        StatementView::LabeledStatement(name) => seq![
            TokenView::Identifier(name),
            punctuator(PunctuatorKind::Colon),
        ],
        StatementView::WhileStatement { condition, statement } => {
            seq![keyword(KeywordKind::While)] + (seq![open] + (canonical(condition) + (seq![close]
                + canonical_statement(*statement))))
        },
        StatementView::DoWhileStatement { condition, statement } => {
            seq![keyword(KeywordKind::Do)] + (canonical_statement(*statement) + (seq![
                keyword(KeywordKind::While),
            ] + (seq![open] + (canonical(condition) + seq![close]))))
        },
        StatementView::ForStatement { initialization, condition, afterthought, statement } => {
            seq![keyword(KeywordKind::For)] + (seq![open] + (canonical(initialization) + (seq![
                semicolon,
            ] + (canonical(condition) + (seq![semicolon] + (canonical(afterthought) + (seq![close]
                + canonical_statement(*statement))))))))
        },
        StatementView::CompoundStatement(statements) => {
            seq![punctuator(PunctuatorKind::LeftCurlyBracket)] + canonical_statements(
                statements,
                0,
            )
        },
        StatementView::ReturnStatement(value) => seq![keyword(KeywordKind::Return)] + canonical(
            value,
        ),
        StatementView::BreakStatement => seq![keyword(KeywordKind::Break), semicolon],
        StatementView::ContinueStatement => seq![keyword(KeywordKind::Continue), semicolon],
        StatementView::GotoStatement(label) => seq![
            keyword(KeywordKind::Goto),
            TokenView::Identifier(label),
        ],
    }
}

/// The canonical form of the statements of a compound statement from the one
/// at `from` on, up to and with the closing bracket.
#[verifier::opaque]
pub open spec fn canonical_statements(statements: Seq<StatementView>, from: int) -> Seq<TokenView>
    decreases statements, 0nat, statements.len() - from,
{
    if 0 <= from < statements.len() {
        canonical_statement(statements[from]) + canonical_statements(statements, from + 1)
    } else {
        seq![punctuator(PunctuatorKind::RightCurlyBracket)]
    }
}

/// Whether the statement has a canonical form: its expressions are
/// printable.
#[verifier::opaque]
pub open spec fn renderable(statement: StatementView) -> bool
    decreases statement, 1nat, 0nat,
{
    match statement {
        StatementView::ExpressionStatement(expression) => printable(expression),
        StatementView::IfStatement { condition, statement } => printable(condition) && renderable(
            *statement,
        ),
        StatementView::SwitchStatement { condition, statement } => printable(condition)
            && renderable(*statement),
        StatementView::WhileStatement { condition, statement } => printable(condition)
            && renderable(*statement),
        StatementView::DoWhileStatement { condition, statement } => printable(condition)
            && renderable(*statement),
        StatementView::ForStatement { initialization, condition, afterthought, statement } => {
            &&& printable(initialization)
            &&& printable(condition)
            &&& printable(afterthought)
            &&& renderable(*statement)
        },
        StatementView::CompoundStatement(statements) => renderable_from(statements, 0),
        StatementView::ReturnStatement(value) => printable(value),
        _ => true,
    }
}

/// Whether the statements of a sequence from the one at `from` on have
/// canonical forms.
#[verifier::opaque]
pub open spec fn renderable_from(statements: Seq<StatementView>, from: int) -> bool
    decreases statements, 0nat, statements.len() - from,
{
    if 0 <= from < statements.len() {
        renderable(statements[from]) && renderable_from(statements, from + 1)
    } else {
        true
    }
}

/// Whether no statement that ends with an open expression stands before a
/// statement whose canonical form would read as more of that expression.
#[verifier::opaque]
pub open spec fn separable(statement: StatementView) -> bool
    decreases statement, 1nat, 0nat,
{
    match statement {
        StatementView::IfStatement { condition, statement } => separable(*statement),
        StatementView::SwitchStatement { condition, statement } => separable(*statement),
        StatementView::WhileStatement { condition, statement } => separable(*statement),
        StatementView::DoWhileStatement { condition, statement } => separable(*statement),
        StatementView::ForStatement { initialization, condition, afterthought, statement } => {
            separable(*statement)
        },
        StatementView::CompoundStatement(statements) => separable_from(statements, 0),
        _ => true,
    }
}

/// Whether the statements of a compound statement from the one at `from` on
/// are separable, and each that ends with an open expression stands before
/// the closing bracket or before a statement whose canonical form starts
/// with a token that ends an expression.
#[verifier::opaque]
pub open spec fn separable_from(statements: Seq<StatementView>, from: int) -> bool
    decreases statements, 0nat, statements.len() - from,
{
    if 0 <= from < statements.len() {
        &&& separable(statements[from])
        &&& from + 1 < statements.len() && open_ended(statements[from]) ==> ends_expression(
            canonical_statement(statements[from + 1])[0],
        )
        &&& separable_from(statements, from + 1)
    } else {
        true
    }
}

/// Whether a label stands in `tokens` at `position`: an identifier with a
/// colon after it.
pub open spec fn label_at(tokens: Seq<TokenView>, position: int) -> bool {
    token_at(tokens, position) is Identifier && punctuator_at(
        tokens,
        position + 1,
        PunctuatorKind::Colon,
    )
}

/// The first token of a statement decides which statement form is read.
#[verifier::spinoff_prover]
pub proof fn lemma_statement_dispatch(tokens: Seq<TokenView>, position: int)
    ensures
        punctuator_at(tokens, position, PunctuatorKind::Semicolon) ==> spec_statement(tokens, position) == required(
            spec_null_statement(tokens, position),
            ParseError::ExpectedStatement,
        ),
        keyword_at(tokens, position, KeywordKind::If) ==> spec_statement(tokens, position) == required(
            spec_if_statement(tokens, position),
            ParseError::ExpectedStatement,
        ),
        keyword_at(tokens, position, KeywordKind::Switch) ==> spec_statement(tokens, position) == required(
            spec_switch_statement(tokens, position),
            ParseError::ExpectedStatement,
        ),
        keyword_at(tokens, position, KeywordKind::While) ==> spec_statement(tokens, position) == required(
            spec_while_statement(tokens, position),
            ParseError::ExpectedStatement,
        ),
        keyword_at(tokens, position, KeywordKind::Do) ==> spec_statement(tokens, position) == required(
            spec_do_while_statement(tokens, position),
            ParseError::ExpectedStatement,
        ),
        keyword_at(tokens, position, KeywordKind::For) ==> spec_statement(tokens, position) == required(
            spec_for_statement(tokens, position),
            ParseError::ExpectedStatement,
        ),
        keyword_at(tokens, position, KeywordKind::Return) ==> spec_statement(tokens, position) == required(
            spec_return_statement(tokens, position),
            ParseError::ExpectedStatement,
        ),
        keyword_at(tokens, position, KeywordKind::Break) ==> spec_statement(tokens, position) == required(
            spec_break_statement(tokens, position),
            ParseError::ExpectedStatement,
        ),
        keyword_at(tokens, position, KeywordKind::Continue) ==> spec_statement(tokens, position) == required(
            spec_continue_statement(tokens, position),
            ParseError::ExpectedStatement,
        ),
        keyword_at(tokens, position, KeywordKind::Goto) ==> spec_statement(tokens, position) == required(
            spec_goto_statement(tokens, position),
            ParseError::ExpectedStatement,
        ),
        punctuator_at(tokens, position, PunctuatorKind::LeftCurlyBracket) ==> spec_statement(tokens, position) == required(
            spec_compound_statement(tokens, position),
            ParseError::ExpectedStatement,
        ),
        label_at(tokens, position) ==> spec_statement(tokens, position) == required(
            spec_labeled_statement(tokens, position),
            ParseError::ExpectedStatement,
        ),
        starts_expression(token_at(tokens, position)) && !label_at(tokens, position) ==> spec_statement(tokens, position) == required(
            spec_expression_statement(tokens, position),
            ParseError::ExpectedStatement,
        ),
        token_at(tokens, position) is End || punctuator_at(
            tokens,
            position,
            PunctuatorKind::RightCurlyBracket,
        ) ==> spec_statement(tokens, position) is Err,
{
    reveal(spec_statement);
    reveal(spec_null_statement);
    reveal(spec_if_statement);
    reveal(spec_switch_statement);
    reveal(spec_labeled_statement);
    reveal(spec_while_statement);
    reveal(spec_do_while_statement);
    reveal(spec_for_statement);
    reveal(spec_compound_statement);
    reveal(spec_return_statement);
    reveal(spec_break_statement);
    reveal(spec_continue_statement);
    reveal(spec_goto_statement);
    reveal(spec_expression_statement);
}

/// A condition in round brackets is read as the condition.
#[verifier::spinoff_prover]
pub proof fn lemma_condition(
    tokens: Seq<TokenView>,
    position: int,
    condition: ExpressionView,
    count: nat,
)
    requires
        punctuator_at(tokens, position, PunctuatorKind::LeftRoundBracket),
        spec_expression(tokens, position + 1) == Ok::<(ExpressionView, nat), (ParseError, nat)>(
            (condition, count),
        ),
        punctuator_at(tokens, position + 1 + count, PunctuatorKind::RightRoundBracket),
    ensures
        spec_condition(tokens, position) == Ok::<(ExpressionView, nat), (ParseError, nat)>(
            (condition, count + 2),
        ),
{
    reveal(spec_condition);
}

/// A condition in round brackets and a statement after it are read as the
/// two.
#[verifier::spinoff_prover]
pub proof fn lemma_governed(
    tokens: Seq<TokenView>,
    position: int,
    condition: ExpressionView,
    count: nat,
    body: StatementView,
    more: nat,
)
    requires
        spec_condition(tokens, position) == Ok::<(ExpressionView, nat), (ParseError, nat)>(
            (condition, count),
        ),
        spec_statement(tokens, position + count) == Ok::<(StatementView, nat), (ParseError, nat)>(
            (body, more),
        ),
    ensures
        spec_governed(tokens, position) == Ok::<
            ((ExpressionView, StatementView), nat),
            (ParseError, nat),
        >(((condition, body), count + more)),
{
    reveal(spec_governed);
    reveal(spec_statement);
}

/// `if`, a condition and a statement are read as an `if` statement.
#[verifier::spinoff_prover]
pub proof fn lemma_if_case(
    tokens: Seq<TokenView>,
    position: int,
    condition: ExpressionView,
    body: StatementView,
    count: nat,
)
    requires
        keyword_at(tokens, position, KeywordKind::If),
        spec_governed(tokens, position + 1) == Ok::<
            ((ExpressionView, StatementView), nat),
            (ParseError, nat),
        >(((condition, body), count)),
    ensures
        spec_statement(tokens, position) == Ok::<(StatementView, nat), (ParseError, nat)>(
            (StatementView::IfStatement { condition, statement: Box::new(body) }, count + 1),
        ),
{
    lemma_statement_dispatch(tokens, position);
    reveal(spec_if_statement);
    reveal(spec_governed);
}

/// `switch`, a condition and a statement are read as a `switch` statement.
#[verifier::spinoff_prover]
pub proof fn lemma_switch_case(
    tokens: Seq<TokenView>,
    position: int,
    condition: ExpressionView,
    body: StatementView,
    count: nat,
)
    requires
        keyword_at(tokens, position, KeywordKind::Switch),
        spec_governed(tokens, position + 1) == Ok::<
            ((ExpressionView, StatementView), nat),
            (ParseError, nat),
        >(((condition, body), count)),
    ensures
        spec_statement(tokens, position) == Ok::<(StatementView, nat), (ParseError, nat)>(
            (StatementView::SwitchStatement { condition, statement: Box::new(body) }, count + 1),
        ),
{
    lemma_statement_dispatch(tokens, position);
    reveal(spec_switch_statement);
    reveal(spec_governed);
}

/// `while`, a condition and a statement are read as a `while` statement.
#[verifier::spinoff_prover]
pub proof fn lemma_while_case(
    tokens: Seq<TokenView>,
    position: int,
    condition: ExpressionView,
    body: StatementView,
    count: nat,
)
    requires
        keyword_at(tokens, position, KeywordKind::While),
        spec_governed(tokens, position + 1) == Ok::<
            ((ExpressionView, StatementView), nat),
            (ParseError, nat),
        >(((condition, body), count)),
    ensures
        spec_statement(tokens, position) == Ok::<(StatementView, nat), (ParseError, nat)>(
            (StatementView::WhileStatement { condition, statement: Box::new(body) }, count + 1),
        ),
{
    lemma_statement_dispatch(tokens, position);
    reveal(spec_while_statement);
    reveal(spec_governed);
}

/// `do`, a statement, `while` and a condition are read as a `do` statement.
#[verifier::spinoff_prover]
pub proof fn lemma_do_case(
    tokens: Seq<TokenView>,
    position: int,
    body: StatementView,
    count: nat,
    condition: ExpressionView,
    more: nat,
)
    requires
        keyword_at(tokens, position, KeywordKind::Do),
        spec_statement(tokens, position + 1) == Ok::<(StatementView, nat), (ParseError, nat)>(
            (body, count),
        ),
        keyword_at(tokens, position + 1 + count, KeywordKind::While),
        spec_condition(tokens, position + 2 + count) == Ok::<
            (ExpressionView, nat),
            (ParseError, nat),
        >((condition, more)),
    ensures
        spec_statement(tokens, position) == Ok::<(StatementView, nat), (ParseError, nat)>(
            (
                StatementView::DoWhileStatement { condition, statement: Box::new(body) },
                count + more + 2,
            ),
        ),
{
    lemma_statement_dispatch(tokens, position);
    reveal(spec_do_while_statement);
    reveal(spec_statement);
}

/// `for`, three expressions in round brackets with semicolons between them,
/// and a statement are read as a `for` statement.
#[verifier::spinoff_prover]
pub proof fn lemma_for_case(
    tokens: Seq<TokenView>,
    position: int,
    initialization: ExpressionView,
    first: nat,
    condition: ExpressionView,
    second: nat,
    afterthought: ExpressionView,
    third: nat,
    body: StatementView,
    count: nat,
)
    requires
        keyword_at(tokens, position, KeywordKind::For),
        punctuator_at(tokens, position + 1, PunctuatorKind::LeftRoundBracket),
        spec_expression(tokens, position + 2) == Ok::<(ExpressionView, nat), (ParseError, nat)>(
            (initialization, first),
        ),
        punctuator_at(tokens, position + 2 + first, PunctuatorKind::Semicolon),
        spec_expression(tokens, position + 3 + first) == Ok::<
            (ExpressionView, nat),
            (ParseError, nat),
        >((condition, second)),
        punctuator_at(tokens, position + 3 + first + second, PunctuatorKind::Semicolon),
        spec_expression(tokens, position + 4 + first + second) == Ok::<
            (ExpressionView, nat),
            (ParseError, nat),
        >((afterthought, third)),
        punctuator_at(
            tokens,
            position + 4 + first + second + third,
            PunctuatorKind::RightRoundBracket,
        ),
        spec_statement(tokens, position + 5 + first + second + third) == Ok::<
            (StatementView, nat),
            (ParseError, nat),
        >((body, count)),
    ensures
        spec_statement(tokens, position) == Ok::<(StatementView, nat), (ParseError, nat)>(
            (
                StatementView::ForStatement {
                    initialization,
                    condition,
                    afterthought,
                    statement: Box::new(body),
                },
                first + second + third + count + 5,
            ),
        ),
{
    lemma_statement_dispatch(tokens, position);
    reveal(spec_for_statement);
    reveal(spec_for_clauses);
    reveal(spec_statement);
    assert(spec_for_clauses(tokens, position + 1) == Ok::<
        ((ExpressionView, ExpressionView, ExpressionView), nat),
        (ParseError, nat),
    >(((initialization, condition, afterthought), first + second + third + 4)));
}

/// `{` and statements up to `}` are read as a compound statement.
#[verifier::spinoff_prover]
pub proof fn lemma_compound_case(
    tokens: Seq<TokenView>,
    position: int,
    statements: Seq<StatementView>,
    count: nat,
)
    requires
        punctuator_at(tokens, position, PunctuatorKind::LeftCurlyBracket),
        spec_statement_list(tokens, position + 1) == Ok::<
            (Seq<StatementView>, nat),
            (ParseError, nat),
        >((statements, count)),
    ensures
        spec_statement(tokens, position) == Ok::<(StatementView, nat), (ParseError, nat)>(
            (StatementView::CompoundStatement(statements), count + 1),
        ),
{
    lemma_statement_dispatch(tokens, position);
    reveal(spec_compound_statement);
    reveal(spec_statement_list);
}

/// The canonical form of a printable expression, with a token after it that
/// ends an expression, is read as the expression; it starts with a token
/// that can start an expression and is no label.
#[verifier::spinoff_prover]
pub proof fn lemma_canonical_expression(
    tokens: Seq<TokenView>,
    position: int,
    expression: ExpressionView,
)
    requires
        printable(expression),
        holds_at(tokens, position, canonical(expression)),
        ends_expression(token_at(tokens, position + canonical(expression).len())),
    ensures
        spec_expression(tokens, position) == Ok::<(ExpressionView, nat), (ParseError, nat)>(
            (expression, canonical(expression).len()),
        ),
        starts_expression(token_at(tokens, position)),
        canonical(expression).len() > 0,
        canonical(expression).len() == 1 ==> token_at(tokens, position) == canonical(expression)[0],
        canonical(expression).len() > 1 ==> token_at(tokens, position) == punctuator(
            PunctuatorKind::LeftRoundBracket,
        ),
{
    lemma_canonical_primary(tokens, position, expression);
    lemma_expression_of_primary(tokens, position, expression, canonical(expression).len());
    reveal(spec_primary);
    reveal(canonical);
    assert(tokens.subrange(position, position + canonical(expression).len())[0] == canonical(
        expression,
    )[0]);
}

/// Parsing the canonical form of a separable statement with printable
/// expressions gives the statement back, whatever stands around the form,
/// as long as what follows a statement that ends with an open expression
/// ends that expression.
#[verifier::spinoff_prover]
pub proof fn lemma_canonical_statement(
    tokens: Seq<TokenView>,
    position: int,
    statement: StatementView,
)
    requires
        renderable(statement),
        separable(statement),
        holds_at(tokens, position, canonical_statement(statement)),
        open_ended(statement) ==> ends_expression(
            token_at(tokens, position + canonical_statement(statement).len()),
        ),
    ensures
        spec_statement(tokens, position) == Ok::<(StatementView, nat), (ParseError, nat)>(
            (statement, canonical_statement(statement).len()),
        ),
        canonical_statement(statement).len() > 0,
        token_at(tokens, position) == canonical_statement(statement)[0],
    decreases statement, 1nat, 0nat,
{
    reveal(renderable);
    reveal(separable);
    reveal(canonical_statement);
    reveal(open_ended);
    let open = punctuator(PunctuatorKind::LeftRoundBracket);
    let close = punctuator(PunctuatorKind::RightRoundBracket);
    let semicolon = punctuator(PunctuatorKind::Semicolon);
    let form = canonical_statement(statement);
    assert(form.len() > 0 ==> tokens.subrange(position, position + form.len())[0] == form[0]);
    lemma_statement_dispatch(tokens, position);
    match statement {
        StatementView::NullStatement => {
            reveal(spec_null_statement);
            lemma_holds_one(tokens, position, semicolon);
        },
        StatementView::ExpressionStatement(expression) => {
            let inner = canonical(expression);
            lemma_holds_split(tokens, position, inner, seq![semicolon]);
            lemma_holds_one(tokens, position + inner.len(), semicolon);
            lemma_canonical_expression(tokens, position, expression);
            reveal(spec_expression_statement);
        },
        StatementView::IfStatement { condition, statement: body } => {
            let inner = canonical(condition);
            let rest = canonical_statement(*body);
            lemma_holds_first(
                tokens,
                position,
                keyword(KeywordKind::If),
                seq![open] + (inner + (seq![close] + rest)),
            );
            lemma_holds_first(tokens, position + 1, open, inner + (seq![close] + rest));
            lemma_holds_split(tokens, position + 2, inner, seq![close] + rest);
            lemma_holds_first(tokens, position + 2 + inner.len(), close, rest);
            lemma_canonical_expression(tokens, position + 2, condition);
            lemma_condition(tokens, position + 1, condition, inner.len());
            lemma_canonical_statement(tokens, position + 3 + inner.len(), *body);
            lemma_governed(tokens, position + 1, condition, inner.len() + 2, *body, rest.len());
            lemma_if_case(tokens, position, condition, *body, inner.len() + 2 + rest.len());
        },
        StatementView::SwitchStatement { condition, statement: body } => {
            let inner = canonical(condition);
            let rest = canonical_statement(*body);
            lemma_holds_first(
                tokens,
                position,
                keyword(KeywordKind::Switch),
                seq![open] + (inner + (seq![close] + rest)),
            );
            lemma_holds_first(tokens, position + 1, open, inner + (seq![close] + rest));
            lemma_holds_split(tokens, position + 2, inner, seq![close] + rest);
            lemma_holds_first(tokens, position + 2 + inner.len(), close, rest);
            lemma_canonical_expression(tokens, position + 2, condition);
            lemma_condition(tokens, position + 1, condition, inner.len());
            lemma_canonical_statement(tokens, position + 3 + inner.len(), *body);
            lemma_governed(tokens, position + 1, condition, inner.len() + 2, *body, rest.len());
            lemma_switch_case(tokens, position, condition, *body, inner.len() + 2 + rest.len());
        },
        StatementView::LabeledStatement(name) => {
            reveal(spec_labeled_statement);
            assert(form =~= seq![TokenView::Identifier(name)] + seq![
                punctuator(PunctuatorKind::Colon),
            ]);
            lemma_holds_first(
                tokens,
                position,
                TokenView::Identifier(name),
                seq![punctuator(PunctuatorKind::Colon)],
            );
            lemma_holds_one(tokens, position + 1, punctuator(PunctuatorKind::Colon));
        },
        StatementView::WhileStatement { condition, statement: body } => {
            let inner = canonical(condition);
            let rest = canonical_statement(*body);
            lemma_holds_first(
                tokens,
                position,
                keyword(KeywordKind::While),
                seq![open] + (inner + (seq![close] + rest)),
            );
            lemma_holds_first(tokens, position + 1, open, inner + (seq![close] + rest));
            lemma_holds_split(tokens, position + 2, inner, seq![close] + rest);
            lemma_holds_first(tokens, position + 2 + inner.len(), close, rest);
            lemma_canonical_expression(tokens, position + 2, condition);
            lemma_condition(tokens, position + 1, condition, inner.len());
            lemma_canonical_statement(tokens, position + 3 + inner.len(), *body);
            lemma_governed(tokens, position + 1, condition, inner.len() + 2, *body, rest.len());
            lemma_while_case(tokens, position, condition, *body, inner.len() + 2 + rest.len());
        },
        StatementView::DoWhileStatement { condition, statement: body } => {
            let inner = canonical(condition);
            let first = canonical_statement(*body);
            lemma_holds_first(
                tokens,
                position,
                keyword(KeywordKind::Do),
                first + (seq![keyword(KeywordKind::While)] + (seq![open] + (inner + seq![close]))),
            );
            lemma_holds_split(
                tokens,
                position + 1,
                first,
                seq![keyword(KeywordKind::While)] + (seq![open] + (inner + seq![close])),
            );
            lemma_holds_first(
                tokens,
                position + 1 + first.len(),
                keyword(KeywordKind::While),
                seq![open] + (inner + seq![close]),
            );
            lemma_holds_first(tokens, position + 2 + first.len(), open, inner + seq![close]);
            lemma_holds_split(tokens, position + 3 + first.len(), inner, seq![close]);
            lemma_holds_one(tokens, position + 3 + first.len() + inner.len(), close);
            lemma_canonical_statement(tokens, position + 1, *body);
            lemma_canonical_expression(tokens, position + 3 + first.len(), condition);
            lemma_condition(tokens, position + 2 + first.len(), condition, inner.len());
            lemma_do_case(tokens, position, *body, first.len(), condition, inner.len() + 2);
        },
        StatementView::ForStatement { initialization, condition, afterthought, statement: body } => {
            let one = canonical(initialization);
            let two = canonical(condition);
            let three = canonical(afterthought);
            let rest = canonical_statement(*body);
            let at_one = position + 2;
            let at_two = at_one + one.len() + 1;
            let at_three = at_two + two.len() + 1;
            lemma_holds_first(
                tokens,
                position,
                keyword(KeywordKind::For),
                seq![open] + (one + (seq![semicolon] + (two + (seq![semicolon] + (three + (seq![
                    close,
                ] + rest)))))),
            );
            lemma_holds_first(
                tokens,
                position + 1,
                open,
                one + (seq![semicolon] + (two + (seq![semicolon] + (three + (seq![close]
                    + rest))))),
            );
            lemma_holds_split(
                tokens,
                at_one,
                one,
                seq![semicolon] + (two + (seq![semicolon] + (three + (seq![close] + rest)))),
            );
            lemma_holds_first(
                tokens,
                at_one + one.len(),
                semicolon,
                two + (seq![semicolon] + (three + (seq![close] + rest))),
            );
            lemma_holds_split(
                tokens,
                at_two,
                two,
                seq![semicolon] + (three + (seq![close] + rest)),
            );
            lemma_holds_first(
                tokens,
                at_two + two.len(),
                semicolon,
                three + (seq![close] + rest),
            );
            lemma_holds_split(tokens, at_three, three, seq![close] + rest);
            lemma_holds_first(tokens, at_three + three.len(), close, rest);
            lemma_canonical_expression(tokens, at_one, initialization);
            lemma_canonical_expression(tokens, at_two, condition);
            lemma_canonical_expression(tokens, at_three, afterthought);
            lemma_canonical_statement(tokens, at_three + three.len() + 1, *body);
            lemma_for_case(
                tokens,
                position,
                initialization,
                one.len(),
                condition,
                two.len(),
                afterthought,
                three.len(),
                *body,
                rest.len(),
            );
        },
        StatementView::CompoundStatement(statements) => {
            let rest = canonical_statements(statements, 0);
            lemma_holds_first(
                tokens,
                position,
                punctuator(PunctuatorKind::LeftCurlyBracket),
                rest,
            );
            lemma_canonical_statements(tokens, position + 1, statements, 0);
            assert(statements.subrange(0, statements.len() as int) =~= statements);
            lemma_compound_case(tokens, position, statements, rest.len());
        },
        StatementView::ReturnStatement(value) => {
            let inner = canonical(value);
            lemma_holds_first(tokens, position, keyword(KeywordKind::Return), inner);
            lemma_canonical_expression(tokens, position + 1, value);
            reveal(spec_return_statement);
        },
        StatementView::BreakStatement => {
            reveal(spec_break_statement);
            assert(form =~= seq![keyword(KeywordKind::Break)] + seq![semicolon]);
            lemma_holds_first(tokens, position, keyword(KeywordKind::Break), seq![semicolon]);
            lemma_holds_one(tokens, position + 1, semicolon);
        },
        StatementView::ContinueStatement => {
            reveal(spec_continue_statement);
            assert(form =~= seq![keyword(KeywordKind::Continue)] + seq![semicolon]);
            lemma_holds_first(tokens, position, keyword(KeywordKind::Continue), seq![semicolon]);
            lemma_holds_one(tokens, position + 1, semicolon);
        },
        StatementView::GotoStatement(label) => {
            reveal(spec_goto_statement);
            assert(form =~= seq![keyword(KeywordKind::Goto)] + seq![TokenView::Identifier(label)]);
            lemma_holds_first(
                tokens,
                position,
                keyword(KeywordKind::Goto),
                seq![TokenView::Identifier(label)],
            );
            lemma_holds_one(tokens, position + 1, TokenView::Identifier(label));
        },
    }
}

/// Parsing the canonical form of the statements of a separable compound
/// statement with printable expressions from the one at `from` on gives
/// those statements.
#[verifier::spinoff_prover]
pub proof fn lemma_canonical_statements(
    tokens: Seq<TokenView>,
    position: int,
    statements: Seq<StatementView>,
    from: int,
)
    requires
        0 <= from <= statements.len(),
        renderable_from(statements, from),
        separable_from(statements, from),
        holds_at(tokens, position, canonical_statements(statements, from)),
    ensures
        spec_statement_list(tokens, position) == Ok::<
            (Seq<StatementView>, nat),
            (ParseError, nat),
        >(
            (
                statements.subrange(from, statements.len() as int),
                canonical_statements(statements, from).len(),
            ),
        ),
    decreases statements, 0nat, statements.len() - from,
{
    reveal(renderable_from);
    reveal(separable_from);
    reveal(canonical_statements);
    reveal(spec_statement_list);
    if from == statements.len() {
        lemma_holds_one(tokens, position, punctuator(PunctuatorKind::RightCurlyBracket));
        assert(statements.subrange(from, statements.len() as int) =~= Seq::<
            StatementView,
        >::empty());
    } else {
        let first = canonical_statement(statements[from]);
        let rest = canonical_statements(statements, from + 1);
        lemma_holds_split(tokens, position, first, rest);
        assert(rest.len() > 0 && token_at(tokens, position + first.len()) == rest[0]) by {
            reveal(canonical_statements);
            assert(tokens.subrange(position + first.len(), position + first.len() + rest.len())[0]
                == rest[0]);
            if from + 1 < statements.len() {
                lemma_canonical_statement_start(statements[from + 1]);
            }
        }
        if from + 1 < statements.len() {
            lemma_canonical_statement_start(statements[from + 1]);
            assert(rest[0] == canonical_statement(statements[from + 1])[0]);
        } else {
            assert(rest[0] == punctuator(PunctuatorKind::RightCurlyBracket));
        }
        assert(renderable(statements[from]));
        assert(separable(statements[from]));
        assert(open_ended(statements[from]) ==> ends_expression(
            token_at(tokens, position + first.len()),
        ));
        lemma_canonical_statement(tokens, position, statements[from]);
        lemma_statement_dispatch(tokens, position);
        lemma_canonical_statements(tokens, position + first.len(), statements, from + 1);
        assert(seq![statements[from]] + statements.subrange(from + 1, statements.len() as int)
            =~= statements.subrange(from, statements.len() as int));
    }
}

/// The canonical form of a statement is not empty.
pub proof fn lemma_canonical_statement_start(statement: StatementView)
    ensures
        canonical_statement(statement).len() > 0,
{
    reveal(canonical_statement);
}

/// Re-parsing is the identity on canonical forms: parsing the canonical form
/// of a separable statement with printable expressions, closed by the end
/// marker, gives the statement back.
pub proof fn lemma_statement_round_trip(statement: StatementView)
    requires
        renderable(statement),
        separable(statement),
    ensures
        spec_parse(canonical_statement(statement) + seq![TokenView::End]) == Ok::<
            StatementView,
            ParseError,
        >(statement),
{
    let form = canonical_statement(statement);
    let tokens = form + seq![TokenView::End];
    assert(tokens.subrange(0, form.len() as int) =~= form);
    assert(token_at(tokens, form.len() as int) == TokenView::End);
    lemma_canonical_statement(tokens, 0, statement);
}

/// Whether no expression statement stands directly after a statement that
/// ends with an open expression. This holds of every statement in which a
/// semicolon follows each `return`, as C asks.
#[verifier::opaque]
pub open spec fn returns_closed(statement: StatementView) -> bool
    decreases statement, 1nat, 0nat,
{
    match statement {
        StatementView::IfStatement { condition, statement } => returns_closed(*statement),
        StatementView::SwitchStatement { condition, statement } => returns_closed(*statement),
        StatementView::WhileStatement { condition, statement } => returns_closed(*statement),
        StatementView::DoWhileStatement { condition, statement } => returns_closed(*statement),
        StatementView::ForStatement { initialization, condition, afterthought, statement } => {
            returns_closed(*statement)
        },
        StatementView::CompoundStatement(statements) => returns_closed_from(statements, 0),
        _ => true,
    }
}

/// Whether the statements of a compound statement from the one at `from` on
/// have their returns closed, and no expression statement among them stands
/// directly after a statement that ends with an open expression.
#[verifier::opaque]
pub open spec fn returns_closed_from(statements: Seq<StatementView>, from: int) -> bool
    decreases statements, 0nat, statements.len() - from,
{
    if 0 <= from < statements.len() {
        &&& returns_closed(statements[from])
        &&& from + 1 < statements.len() && open_ended(statements[from]) ==> !(statements[from
            + 1] is ExpressionStatement)
        &&& returns_closed_from(statements, from + 1)
    } else {
        true
    }
}

/// The canonical form of a statement that is no expression statement starts
/// with a token that ends an expression.
pub proof fn lemma_statement_start_ends_expression(statement: StatementView)
    requires
        !(statement is ExpressionStatement),
    ensures
        ends_expression(canonical_statement(statement)[0]),
{
    reveal(canonical_statement);
}

/// A statement whose returns are closed is separable.
pub proof fn lemma_returns_closed_separable(statement: StatementView)
    requires
        returns_closed(statement),
    ensures
        separable(statement),
    decreases statement, 1nat, 0nat,
{
    reveal(returns_closed);
    reveal(returns_closed_from);
    reveal(separable);
    reveal(separable_from);
    match statement {
        StatementView::IfStatement { condition, statement } => {
            lemma_returns_closed_separable(*statement);
        },
        StatementView::SwitchStatement { condition, statement } => {
            lemma_returns_closed_separable(*statement);
        },
        StatementView::WhileStatement { condition, statement } => {
            lemma_returns_closed_separable(*statement);
        },
        StatementView::DoWhileStatement { condition, statement } => {
            lemma_returns_closed_separable(*statement);
        },
        StatementView::ForStatement { initialization, condition, afterthought, statement } => {
            lemma_returns_closed_separable(*statement);
        },
        StatementView::CompoundStatement(statements) => {
            lemma_returns_closed_separable_from(statements, 0);
        },
        _ => {},
    }
}

/// Statements whose returns are closed are separable.
pub proof fn lemma_returns_closed_separable_from(statements: Seq<StatementView>, from: int)
    requires
        returns_closed_from(statements, from),
    ensures
        separable_from(statements, from),
    decreases statements, 0nat, statements.len() - from,
{
    reveal(returns_closed);
    reveal(returns_closed_from);
    reveal(separable);
    reveal(separable_from);
    if 0 <= from < statements.len() {
        lemma_returns_closed_separable(statements[from]);
        lemma_returns_closed_separable_from(statements, from + 1);
        if from + 1 < statements.len() && open_ended(statements[from]) {
            lemma_statement_start_ends_expression(statements[from + 1]);
        }
    }
}

} // verus!
