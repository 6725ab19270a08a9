//! The parser: from a sequence of tokens to a syntax tree.

use crate::parser::statement::{spec_statement, statement, StatementNode, StatementView};
use crate::parser::util::{ParseContext, ParseError};
use crate::tokenizer::{token_views, Token, TokenView};
use vstd::prelude::*;

pub mod canonical;
pub mod canonical_declaration;
pub mod canonical_statement;
pub mod declaration;
pub mod expression;
pub mod printable;
pub mod printable_declaration;
pub mod render;
pub mod render_declaration;
pub mod renderable;
pub mod source;
pub mod spelled;
pub mod spelled_declaration;
pub mod spelled_statement;
pub mod statement;
pub mod util;

verus! {

/// A syntax tree: the statement that a token sequence starts with.
#[derive(Debug, PartialEq, Eq)]
pub struct AST<'a> {
    root: StatementNode<'a>,
}

impl<'a> View for AST<'a> {
    type V = StatementView;

    closed spec fn view(&self) -> StatementView {
        self.root@
    }
}

impl<'a> AST<'a> {
    /// The statement at the root of the tree.
    pub fn root(&self) -> (root: &StatementNode<'a>)
        ensures
            root@ == self@,
    {
        &self.root
    }
}

/// The syntax tree of a token sequence: the statement that stands at its
/// start, or what was missing first.
pub open spec fn spec_parse(tokens: Seq<TokenView>) -> Result<StatementView, ParseError> {
    match spec_statement(tokens, 0) {
        Ok((tree, _)) => Ok(tree),
        Err((error, _)) => Err(error),
    }
}

/// Parses the statement that `tokens` starts with.
///
/// The result is the tree that [`spec_parse`] gives the tokens, or its error.
/// Tokens after the statement are not read.
pub fn parse<'a>(tokens: &'a [Token<'a>]) -> (result: Result<AST<'a>, ParseError>)
    ensures
        spec_parse(token_views(tokens@)) matches Ok(tree) ==> (result matches Ok(ast) && ast@
            == tree),
        spec_parse(token_views(tokens@)) matches Err(error) ==> (result matches Err(found)
            && found == error),
{
    let mut context = ParseContext::new(tokens);
    match statement(&mut context) {
        Ok(node) => Ok(AST { root: node }),
        Err(error) => Err(error),
    }
}

} // verus!
