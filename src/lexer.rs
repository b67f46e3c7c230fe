use vstd::prelude::*;
use crate::token::Token;

verus! {

/// A token source: the classified tokens of one input, in order.
pub struct Lexer {
    tokens: Vec<Token>,
}

impl Lexer {
    /// The tokens this source delivers.
    pub closed spec fn tokens(&self) -> Seq<Token> {
        self.tokens@
    }

    /// A source that delivers `tokens`.
    pub fn from_tokens(tokens: Vec<Token>) -> (r: Lexer)
        ensures
            r.tokens() == tokens@,
    {
        Lexer { tokens }
    }

    /// The tokens, handed over.
    pub fn into_tokens(self) -> (r: Vec<Token>)
        ensures
            r@ == self.tokens(),
    {
        self.tokens
    }
}

} // verus!
