use crate::front::token_type::TokenType;
use crate::text::to_bytes;
use vstd::prelude::*;

verus! {

/// A token of the tree-walking interpreter: its kind, the bytes it spans
/// and the line it stands on.
#[derive(Debug)]
pub struct Token {
    pub token_type: TokenType,
    pub lexeme: Vec<u8>,
    pub line: usize,
}

/// What a token is, with its lexeme given by its bytes.
pub struct TokenView {
    pub token_type: TokenType,
    pub lexeme: Seq<u8>,
    pub line: usize,
}

impl View for Token {
    type V = TokenView;

    open spec fn view(&self) -> TokenView {
        TokenView { token_type: self.token_type, lexeme: self.lexeme@, line: self.line }
    }
}

impl Token {
    pub fn new(token_type: TokenType, lexeme: &[u8], line: usize) -> (token: Token)
        ensures
            token@ == (TokenView { token_type, lexeme: lexeme@, line }),
    {
        Token { token_type, lexeme: to_bytes(lexeme), line }
    }
}

impl Clone for Token {
    fn clone(&self) -> (copy: Token)
        ensures
            copy@ == self@,
    {
        Token {
            token_type: self.token_type,
            lexeme: to_bytes(self.lexeme.as_slice()),
            line: self.line,
        }
    }
}

/// The view of each token of a sequence.
pub open spec fn tokens_view(tokens: Seq<Token>) -> Seq<TokenView> {
    tokens.map_values(|token: Token| token@)
}

} // verus!
