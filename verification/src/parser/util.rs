//! The cursor that the parsers read tokens through, and the errors they
//! report.

use crate::tokenizer::{KeywordKind, Literal, PunctuatorKind, Token, TokenView, token_views};
use crate::util::{Either, NonEmptyVec};
use vstd::prelude::*;

verus! {

/// A token that a parser asked for by its kind.
#[derive(Debug, Clone, Copy, PartialEq, Eq, Structural)]
pub enum TokenKind {
    Punctuator(PunctuatorKind),
    Keyword(KeywordKind),
}

/// Why a token sequence has no syntax tree: what the parser needed and did
/// not find at the cursor.
#[derive(Debug, Clone, Copy, PartialEq, Eq, Structural)]
pub enum ParseError {
    ExpectedToken(TokenKind),
    ExpectedIdentifier,
    ExpectedLiteral,
    ExpectedExpression,
    ExpectedStatement,
    ExpectedDeclaration,
}

/// The token of `tokens` at `position`; the end marker past the last token.
pub open spec fn token_at(tokens: Seq<TokenView>, position: int) -> TokenView {
    if 0 <= position < tokens.len() {
        tokens[position]
    } else {
        TokenView::End
    }
}

/// Whether the token of `tokens` at `position` is the punctuator `kind`.
pub open spec fn punctuator_at(tokens: Seq<TokenView>, position: int, kind: PunctuatorKind) -> bool {
    token_at(tokens, position) == TokenView::Punctuator(kind)
}

/// Whether the token of `tokens` at `position` is the keyword `kind`.
pub open spec fn keyword_at(tokens: Seq<TokenView>, position: int, kind: KeywordKind) -> bool {
    token_at(tokens, position) == TokenView::Keyword(kind)
}

/// How many tokens `tokens` has from `position` on.
pub open spec fn tokens_left(tokens: Seq<TokenView>, position: int) -> nat {
    if position <= tokens.len() {
        (tokens.len() - position) as nat
    } else {
        0
    }
}

/// A read cursor over a token sequence. It only moves forward, one token at a
/// time, and never over the end of the sequence.
pub struct ParseContext<'a> {
    tokens: &'a [Token<'a>],
    position: usize,
}

/// The model of a [`ParseContext`]: the token sequence and the number of
/// tokens that have been consumed.
pub struct ParseContextView {
    pub tokens: Seq<TokenView>,
    pub position: nat,
}

impl ParseContextView {
    /// The token at the cursor.
    pub open spec fn head(self) -> TokenView {
        token_at(self.tokens, self.position as int)
    }

    /// The cursor after `count` more tokens.
    pub open spec fn advance(self, count: nat) -> ParseContextView {
        ParseContextView { tokens: self.tokens, position: self.position + count }
    }
}

impl<'a> View for ParseContext<'a> {
    type V = ParseContextView;

    closed spec fn view(&self) -> ParseContextView {
        ParseContextView { tokens: token_views(self.tokens@), position: self.position as nat }
    }
}

impl<'a> ParseContext<'a> {
    /// A cursor at the first token of `tokens`.
    pub fn new(tokens: &'a [Token<'a>]) -> (context: ParseContext<'a>)
        ensures
            context@.tokens == token_views(tokens@),
            context@.position == 0,
    {
        ParseContext { tokens, position: 0 }
    }

    /// The token `ahead` places after the cursor; the end marker past the last
    /// token.
    pub fn peek(&self, ahead: usize) -> (token: Token<'a>)
        ensures
            token@ == token_at(self@.tokens, self@.position + ahead),
    {
        if ahead < self.tokens.len() && self.position < self.tokens.len() - ahead {
            self.tokens[self.position + ahead]
        } else {
            Token::End
        }
    }

    /// The number of tokens that have been consumed.
    pub fn position(&self) -> (position: usize)
        ensures
            position == self@.position,
    {
        self.position
    }
}

/// Moves the cursor over one token.
pub fn consume_token(context: &mut ParseContext)
    requires
        old(context)@.position < old(context)@.tokens.len(),
    ensures
        final(context)@ == old(context)@.advance(1),
{
    let length: usize = context.tokens.len();
    assert(context.position < length);
    context.position = context.position + 1;
}

/// Moves the cursor over the punctuator `target` where it stands at the
/// cursor, and says whether it did.
pub fn consume_punctuator(context: &mut ParseContext, target: PunctuatorKind) -> (consumed: bool)
    ensures
        consumed == (old(context)@.head() == TokenView::Punctuator(target)),
        final(context)@ == if consumed {
            old(context)@.advance(1)
        } else {
            old(context)@
        },
{
    if let Token::Punctuator(kind) = context.peek(0) {
        if target == kind {
            consume_token(context);
            return true;
        }
    }
    false
}

/// Moves the cursor over the punctuator `target`, or reports that it is not
/// at the cursor and leaves the cursor where it is.
pub fn expect_punctuator(context: &mut ParseContext, target: PunctuatorKind) -> (result: Result<
    (),
    ParseError,
>)
    ensures
        old(context)@.head() == TokenView::Punctuator(target) ==> result == Ok::<(), ParseError>(())
            && final(context)@ == old(context)@.advance(1),
        old(context)@.head() != TokenView::Punctuator(target) ==> result == Err::<(), ParseError>(
            ParseError::ExpectedToken(TokenKind::Punctuator(target)),
        ) && final(context)@ == old(context)@,
{
    if consume_punctuator(context, target) {
        Ok(())
    } else {
        Err(ParseError::ExpectedToken(TokenKind::Punctuator(target)))
    }
}

/// Moves the cursor over the keyword `target` where it stands at the cursor,
/// and says whether it did.
pub fn consume_keyword(context: &mut ParseContext, target: KeywordKind) -> (consumed: bool)
    ensures
        consumed == (old(context)@.head() == TokenView::Keyword(target)),
        final(context)@ == if consumed {
            old(context)@.advance(1)
        } else {
            old(context)@
        },
{
    if let Token::Keyword(kind) = context.peek(0) {
        if target == kind {
            consume_token(context);
            return true;
        }
    }
    false
}

/// Moves the cursor over the keyword `target`, or reports that it is not at
/// the cursor and leaves the cursor where it is.
pub fn expect_keyword(context: &mut ParseContext, target: KeywordKind) -> (result: Result<
    (),
    ParseError,
>)
    ensures
        old(context)@.head() == TokenView::Keyword(target) ==> result == Ok::<(), ParseError>(())
            && final(context)@ == old(context)@.advance(1),
        old(context)@.head() != TokenView::Keyword(target) ==> result == Err::<(), ParseError>(
            ParseError::ExpectedToken(TokenKind::Keyword(target)),
        ) && final(context)@ == old(context)@,
{
    if consume_keyword(context, target) {
        Ok(())
    } else {
        Err(ParseError::ExpectedToken(TokenKind::Keyword(target)))
    }
}

/// Moves the cursor over the identifier at the cursor and returns its text;
/// `None`, with the cursor where it was, where no identifier is there.
pub fn consume_identifier<'a, 'b>(context: &'a mut ParseContext<'b>) -> (result: Option<&'b str>)
    ensures
        match old(context)@.head() {
            TokenView::Identifier(name) => result matches Some(text) && text@ == name
                && final(context)@ == old(context)@.advance(1),
            _ => result is None && final(context)@ == old(context)@,
        },
{
    if let Token::Identifier(content) = context.peek(0) {
        consume_token(context);
        Some(content)
    } else {
        None
    }
}

/// Moves the cursor over the identifier at the cursor and returns its text,
/// or reports that no identifier is there and leaves the cursor where it is.
pub fn expect_identifier<'a, 'b>(context: &'a mut ParseContext<'b>) -> (result: Result<
    &'b str,
    ParseError,
>)
    ensures
        match old(context)@.head() {
            TokenView::Identifier(name) => result matches Ok(text) && text@ == name
                && final(context)@ == old(context)@.advance(1),
            _ => result == Err::<&'b str, ParseError>(ParseError::ExpectedIdentifier)
                && final(context)@ == old(context)@,
        },
{
    match consume_identifier(context) {
        Some(text) => Ok(text),
        None => Err(ParseError::ExpectedIdentifier),
    }
}

/// Moves the cursor over the literal at the cursor and returns it; `None`,
/// with the cursor where it was, where no literal is there.
pub fn consume_literal<'a, 'b>(context: &'a mut ParseContext<'b>) -> (result: Option<Literal<'b>>)
    ensures
        match old(context)@.head() {
            TokenView::Literal(literal) => result matches Some(found) && found@ == literal
                && final(context)@ == old(context)@.advance(1),
            _ => result is None && final(context)@ == old(context)@,
        },
{
    if let Token::Literal(content) = context.peek(0) {
        consume_token(context);
        Some(content)
    } else {
        None
    }
}

/// Moves the cursor over the literal at the cursor and returns it, or reports
/// that no literal is there and leaves the cursor where it is.
pub fn expect_literal<'a, 'b>(context: &'a mut ParseContext<'b>) -> (result: Result<
    Literal<'b>,
    ParseError,
>)
    ensures
        match old(context)@.head() {
            TokenView::Literal(literal) => result matches Ok(found) && found@ == literal
                && final(context)@ == old(context)@.advance(1),
            _ => result == Err::<Literal<'b>, ParseError>(ParseError::ExpectedLiteral)
                && final(context)@ == old(context)@,
        },
{
    match consume_literal(context) {
        Some(literal) => Ok(literal),
        None => Err(ParseError::ExpectedLiteral),
    }
}

/// What a grammar rule gives at a position of a token sequence: the tree it
/// reads and the number of tokens that the tree takes; or the first thing
/// that was missing and the number of tokens before it.
pub type Parsed<T> = Result<(T, nat), (ParseError, nat)>;

/// `outcome`, read after `by` more tokens.
pub open spec fn shifted<T>(by: nat, outcome: Parsed<T>) -> Parsed<T> {
    match outcome {
        Ok((value, count)) => Ok((value, by + count)),
        Err((error, count)) => Err((error, by + count)),
    }
}

/// Whether a parser that started at `before`, returned `result` and left the
/// cursor at `after` did what `outcome` says: the result has the tree of the
/// outcome as its model, or is its error, and the cursor moved over the
/// tokens that the outcome counts.
pub open spec fn agrees<T: DeepView>(
    result: Result<T, ParseError>,
    before: ParseContextView,
    after: ParseContextView,
    outcome: Parsed<T::V>,
) -> bool {
    &&& outcome matches Ok((value, count)) ==> {
        &&& result matches Ok(found)
        &&& found.deep_view() == value
        &&& after == before.advance(count)
    }
    &&& outcome matches Err((error, count)) ==> {
        &&& result matches Err(found)
        &&& found == error
        &&& after == before.advance(count)
    }
}

/// What a rule that may be absent gives where it is absent: nothing, and no
/// token read.
pub open spec fn absent<T>() -> Parsed<Option<T>> {
    Ok((None, 0))
}

/// What a rule that may be absent gives where it is present: `outcome`, with
/// its tree marked as present.
pub open spec fn present<T>(outcome: Parsed<T>) -> Parsed<Option<T>> {
    match outcome {
        Ok((value, count)) => Ok((Some(value), count)),
        Err(error) => Err(error),
    }
}

/// `first` unless it is absent, then `second`.
pub open spec fn or_else<T>(first: Parsed<Option<T>>, second: Parsed<Option<T>>) -> Parsed<
    Option<T>,
> {
    if first is Ok && first->Ok_0.0 is None {
        second
    } else {
        first
    }
}

/// What a rule that may be absent gives where it must be present: `error`,
/// with no token read, in place of absence.
pub open spec fn required<T>(found: Parsed<Option<T>>, error: ParseError) -> Parsed<T> {
    if found is Err {
        Err(found->Err_0)
    } else if found->Ok_0.0 is Some {
        Ok((found->Ok_0.0->Some_0, found->Ok_0.1))
    } else {
        Err((error, 0))
    }
}

/// Whether a parser of a rule that may be absent left the cursor where it was
/// when it found the rule absent, and moved it when it found the rule
/// present.
pub open spec fn moves_when_present<T>(
    result: Result<Option<T>, ParseError>,
    before: ParseContextView,
    after: ParseContextView,
) -> bool {
    &&& result matches Ok(None) ==> after == before
    &&& result matches Ok(Some(_)) ==> after.position > before.position
}

/// The outcome of reading a list of which `before` was read in `by` tokens
/// and `outcome` is what the rest of the list gives.
pub open spec fn prefixed<T>(before: Seq<T>, by: nat, outcome: Parsed<Seq<T>>) -> Parsed<Seq<T>> {
    match outcome {
        Ok((rest, count)) => Ok((before + rest, by + count)),
        Err((error, count)) => Err((error, by + count)),
    }
}

/// Reading on after `first` tokens and then after `second` more is reading
/// on after their sum.
pub proof fn lemma_shifted_twice<T>(first: nat, second: nat, outcome: Parsed<T>)
    ensures
        shifted(first, shifted(second, outcome)) == shifted(first + second, outcome),
{
}

/// A list of which nothing was read yet gives what its rest gives.
pub proof fn lemma_prefixed_start<T>(outcome: Parsed<Seq<T>>)
    ensures
        prefixed(Seq::<T>::empty(), 0, outcome) == outcome,
{
    match outcome {
        Ok((rest, count)) => {
            assert(Seq::<T>::empty() + rest =~= rest);
        },
        Err(_) => {},
    }
}

/// Reading one more element `element` in `count` tokens, before the rest of
/// a list, extends what was read before.
pub proof fn lemma_prefixed_step<T>(
    before: Seq<T>,
    by: nat,
    element: T,
    count: nat,
    outcome: Parsed<Seq<T>>,
)
    ensures
        prefixed(before, by, prefixed(seq![element], count, outcome)) == prefixed(
            before.push(element),
            by + count,
            outcome,
        ),
{
    match outcome {
        Ok((rest, more)) => {
            assert(before + (seq![element] + rest) =~= before.push(element) + rest);
        },
        Err(_) => {},
    }
}

/// The models of the elements of a sequence, each in its place.
pub closed spec fn models<T: DeepView>(nodes: Seq<T>) -> Seq<T::V> {
    nodes.map_values(|node: T| node.deep_view())
}

/// A sequence has as many models as elements, and each model is that of the
/// element in its place.
pub proof fn lemma_models<T: DeepView>(nodes: Seq<T>)
    ensures
        models(nodes).len() == nodes.len(),
        forall|index: int|
            0 <= index < nodes.len() ==> (#[trigger] models(nodes)[index])
                == nodes[index].deep_view(),
{
}

/// Nothing has no models.
pub proof fn lemma_models_empty<T: DeepView>(nodes: Seq<T>)
    requires
        nodes.len() == 0,
    ensures
        models(nodes) == Seq::<T::V>::empty(),
{
    assert(models(nodes) =~= Seq::<T::V>::empty());
}

/// The models after a push are the models before it with the model of the
/// new element at their end.
pub proof fn lemma_models_push<T: DeepView>(nodes: Seq<T>, element: T)
    ensures
        models(nodes.push(element)) == models(nodes).push(element.deep_view()),
        models(nodes.push(element)) == models(nodes) + seq![element.deep_view()],
{
    assert(models(nodes.push(element)) =~= models(nodes).push(element.deep_view()));
    assert(models(nodes).push(element.deep_view()) =~= models(nodes) + seq![element.deep_view()]);
}

/// Whether a parser of a list that started at `before`, returned `result` and
/// left the cursor at `after` did what `outcome` says, as [`agrees`] has it
/// for a single tree.
pub open spec fn agrees_list<T: DeepView>(
    result: Result<Vec<T>, ParseError>,
    before: ParseContextView,
    after: ParseContextView,
    outcome: Parsed<Seq<T::V>>,
) -> bool {
    &&& outcome matches Ok((value, count)) ==> {
        &&& result matches Ok(found)
        &&& models(found@) == value
        &&& after == before.advance(count)
    }
    &&& outcome matches Err((error, count)) ==> {
        &&& result matches Err(found)
        &&& found == error
        &&& after == before.advance(count)
    }
}

impl<T: DeepView> DeepView for NonEmptyVec<T> {
    type V = Seq<T::V>;

    open spec fn deep_view(&self) -> Seq<T::V> {
        models(self@)
    }
}

impl<L: DeepView, R: DeepView> DeepView for Either<L, R> {
    type V = Either<L::V, R::V>;

    open spec fn deep_view(&self) -> Either<L::V, R::V> {
        match self {
            Either::Left(left) => Either::Left(left.deep_view()),
            Either::Right(right) => Either::Right(right.deep_view()),
        }
    }
}

} // verus!
