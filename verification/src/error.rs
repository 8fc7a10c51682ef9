//! Errors that point at a piece of the caller's source.

use vstd::prelude::*;

use crate::tokens::{TokenStream, TokenView};

verus! {

/// A message about the source that `tokens` spans.
pub struct Error {
    pub tokens: TokenStream,
    pub message: String,
}

/// The mathematical value of an [`Error`].
pub struct ErrorView {
    pub tokens: Seq<TokenView>,
    pub message: Seq<char>,
}

impl View for Error {
    type V = ErrorView;

    open spec fn view(&self) -> ErrorView {
        ErrorView { tokens: self.tokens@, message: self.message@ }
    }
}

impl Error {
    /// An error about the given source.
    pub fn new_spanned(tokens: TokenStream, message: &str) -> (r: Error)
        ensures
            r@ == (ErrorView { tokens: tokens@, message: message@ }),
    {
        Error { tokens, message: message.to_owned() }
    }

    /// A copy of the error.
    pub fn copy(&self) -> (r: Error)
        ensures
            r@ == self@,
    {
        Error { tokens: self.tokens.copy(), message: self.message.clone() }
    }
}

} // verus!
