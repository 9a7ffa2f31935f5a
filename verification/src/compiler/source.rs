use crate::compiler::token::Token;
use vstd::prelude::*;
use vstd::slice::slice_subrange;
use vstd::string::StringSliceAdditionalSpecFns;

verus! {

/// The text of a program.
#[derive(Copy, Clone)]
pub struct Source<'src> {
    pub source: &'src str,
}

impl<'src> Source<'src> {
    /// The bytes of the text.
    pub open spec fn bytes(&self) -> Seq<u8> {
        self.source.spec_bytes()
    }

    /// Whether a token's span lies within the text.
    pub open spec fn covers(&self, token: &Token) -> bool {
        token.position.start <= token.position.end <= self.bytes().len()
    }

    /// The bytes that a token spans.
    pub open spec fn lexeme(&self, token: &Token) -> Seq<u8> {
        self.bytes().subrange(token.position.start as int, token.position.end as int)
    }

    pub fn new(source: &'src str) -> (text: Source<'src>)
        ensures
            text.source == source,
    {
        Source { source }
    }

    /// The text as bytes.
    pub fn as_bytes(&self) -> (bytes: &'src [u8])
        ensures
            bytes@ == self.bytes(),
    {
        self.source.as_bytes()
    }

    /// The number of bytes of the text.
    pub fn len(&self) -> (len: usize)
        ensures
            len == self.bytes().len(),
    {
        self.source.as_bytes().len()
    }

    /// The bytes that a token spans. The token has to lie within the text.
    pub fn get_lexeme(&self, token: &Token) -> (lexeme: &'src [u8])
        requires
            self.covers(token),
        ensures
            lexeme@ == self.lexeme(token),
    {
        slice_subrange(self.source.as_bytes(), token.position.start, token.position.end)
    }

    /// The bytes between the quotes of a string token. The token has to lie
    /// within the text and span at least its two quotes.
    pub fn get_string(&self, token: &Token) -> (contents: &'src [u8])
        requires
            self.covers(token),
            token.position.start + 2 <= token.position.end,
        ensures
            contents@ == self.bytes().subrange(
                token.position.start + 1,
                token.position.end - 1,
            ),
    {
        slice_subrange(self.source.as_bytes(), token.position.start + 1, token.position.end - 1)
    }

    /// The bytes that a token spans, or `None` if the token does not lie
    /// within the text.
    pub fn try_lexeme(&self, token: &Token) -> (lexeme: Option<&'src [u8]>)
        ensures
            lexeme.is_some() <==> self.covers(token),
            lexeme.is_some() ==> lexeme.unwrap()@ == self.lexeme(token),
    {
        if token.position.start <= token.position.end && token.position.end <= self.len() {
            Some(self.get_lexeme(token))
        } else {
            None
        }
    }
}

} // verus!
