//! Syntax tokens and their positions in a document.
use vstd::prelude::*;

use crate::text::copy_strings;

verus! {

/// Zero-based line and column position in a text document.
#[derive(Debug, Clone, Copy, PartialEq, Eq, Structural)]
pub struct Position {
    pub line: u32,
    pub column: u32,
}

/// Half-open range from `start` (inclusive) to `end` (exclusive) in a
/// document.
#[derive(Debug, Clone, Copy, PartialEq, Eq, Structural)]
pub struct Range {
    pub start: Position,
    pub end: Position,
}

/// A syntax token with its text, range, scope, and modifiers.
#[derive(Debug)]
pub struct TokenInfo {
    pub text: String,
    pub range: Range,
    pub scope: String,
    pub modifiers: Vec<String>,
}

/// The mathematical content of a [`TokenInfo`].
pub struct TokenView {
    pub text: Seq<char>,
    pub range: Range,
    pub scope: Seq<char>,
    pub modifiers: Seq<Seq<char>>,
}

impl View for TokenInfo {
    type V = TokenView;

    open spec fn view(&self) -> TokenView {
        TokenView {
            text: self.text@,
            range: self.range,
            scope: self.scope@,
            modifiers: self.modifiers.deep_view(),
        }
    }
}

impl DeepView for TokenInfo {
    type V = TokenView;

    open spec fn deep_view(&self) -> TokenView {
        self@
    }
}

impl Clone for TokenInfo {
    fn clone(&self) -> (r: Self)
        ensures
            r@ == self@,
    {
        TokenInfo {
            text: self.text.clone(),
            range: self.range,
            scope: self.scope.clone(),
            modifiers: copy_strings(&self.modifiers),
        }
    }
}

/// Collection of tokens returned by a parser.
#[derive(Debug)]
pub struct TokenCollection {
    pub uri: String,
    pub language: String,
    pub tokens: Vec<TokenInfo>,
}

} // verus!
