use crate::compiler::scanner::{scan, Scanner};
use crate::compiler::source::Source;
use crate::compiler::token::{Precedence, Token, TokenKind};
use vstd::prelude::*;

verus! {

/// The two tokens that the compiler looks at: the one read last and the one
/// that comes next.
pub struct Parser<'a> {
    pub source: Source<'a>,
    pub current: Option<Token>,
    pub previous: Option<Token>,
}

/// Why a token could not be consumed.
#[derive(Copy, Clone, Debug)]
pub enum ConsumeError {
    /// The next token is not of the expected kind; the message says what was
    /// expected.
    Unexpected(&'static str),
    /// The expected token was consumed, and the token that followed it is a
    /// scanner error.
    Scan,
}

impl<'a> Parser<'a> {
    /// The text that the tokens come from.
    pub open spec fn text(&self) -> Source<'a> {
        self.source
    }

    /// Whether the next token is of the given kind. False before the first
    /// token is read.
    pub open spec fn at(&self, token_kind: TokenKind) -> bool {
        self.current.is_some() && self.current.unwrap().ty.same(token_kind)
    }

    /// A parser that has read nothing yet.
    pub fn new(source: Source<'a>) -> (parser: Parser<'a>)
        ensures
            parser.text() == source,
            parser.current.is_none(),
            parser.previous.is_none(),
    {
        Parser { source, current: None, previous: None }
    }

    /// Moves on by one token: the next token becomes the previous one and a
    /// new token is read. Fails when the new token is a scanner error; the
    /// move is made all the same.
    pub fn advance(&mut self, scanner: &mut Scanner<'a>) -> (moved: Result<(), ()>)
        requires
            old(scanner).wf(),
        ensures
            final(scanner).wf(),
            final(scanner).bytes() == old(scanner).bytes(),
            final(self).text() == old(self).text(),
            final(self).previous == old(self).current,
            (final(self).current.unwrap(), final(scanner).offset() as int, final(scanner).line_number())
                == scan(
                old(scanner).bytes(),
                old(scanner).offset() as int,
                old(scanner).line_number(),
            ),
            final(self).current.is_some(),
            moved.is_err() <==> final(self).current.unwrap().ty is Error,
    {
        self.previous = self.current;
        let token: Token = scanner.scan_token();
        self.current = Some(token);
        match token.ty {
            TokenKind::Error(_) => Err(()),
            _ => Ok(()),
        }
    }

    /// Consumes the next token if it is of the given kind; otherwise leaves
    /// the parser and the scanner as they are and reports the message.
    pub fn consume(
        &mut self,
        scanner: &mut Scanner<'a>,
        token_kind: &TokenKind,
        message: &'static str,
    ) -> (consumed: Result<(), ConsumeError>)
        requires
            old(scanner).wf(),
        ensures
            final(scanner).wf(),
            final(scanner).bytes() == old(scanner).bytes(),
            final(self).text() == old(self).text(),
            !old(self).at(*token_kind) ==> {
                &&& consumed == Err::<(), ConsumeError>(ConsumeError::Unexpected(message))
                &&& final(self).current == old(self).current
                &&& final(self).previous == old(self).previous
                &&& final(scanner).offset() == old(scanner).offset()
                &&& final(scanner).line_number() == old(scanner).line_number()
            },
            old(self).at(*token_kind) ==> {
                &&& final(self).previous == old(self).current
                &&& final(self).current.is_some()
                &&& (
                    final(self).current.unwrap(),
                    final(scanner).offset() as int,
                    final(scanner).line_number(),
                ) == scan(
                    old(scanner).bytes(),
                    old(scanner).offset() as int,
                    old(scanner).line_number(),
                )
                &&& consumed == if final(self).current.unwrap().ty is Error {
                    Err::<(), ConsumeError>(ConsumeError::Scan)
                } else {
                    Ok::<(), ConsumeError>(())
                }
            },
    {
        if self.check(token_kind) {
            match self.advance(scanner) {
                Ok(()) => Ok(()),
                Err(()) => Err(ConsumeError::Scan),
            }
        } else {
            Err(ConsumeError::Unexpected(message))
        }
    }

    /// Consumes the next token if it is of the given kind, and says whether
    /// it did.
    pub fn try_consume(&mut self, scanner: &mut Scanner<'a>, token_kind: &TokenKind) -> (consumed:
        bool)
        requires
            old(scanner).wf(),
        ensures
            final(scanner).wf(),
            final(scanner).bytes() == old(scanner).bytes(),
            final(self).text() == old(self).text(),
            consumed == old(self).at(*token_kind),
            !consumed ==> {
                &&& final(self).current == old(self).current
                &&& final(self).previous == old(self).previous
                &&& final(scanner).offset() == old(scanner).offset()
                &&& final(scanner).line_number() == old(scanner).line_number()
            },
            consumed ==> {
                &&& final(self).previous == old(self).current
                &&& final(self).current.is_some()
                &&& (
                    final(self).current.unwrap(),
                    final(scanner).offset() as int,
                    final(scanner).line_number(),
                ) == scan(
                    old(scanner).bytes(),
                    old(scanner).offset() as int,
                    old(scanner).line_number(),
                )
            },
    {
        if self.check(token_kind) {
            let _ = self.consume(scanner, token_kind, "");
            true
        } else {
            false
        }
    }

    /// Whether the next token is of the given kind.
    pub fn check(&self, token_kind: &TokenKind) -> (is_next: bool)
        ensures
            is_next == self.at(*token_kind),
    {
        match &self.current {
            Some(token) => token.ty == *token_kind,
            None => false,
        }
    }
}

/// The handlers that the precedence table can name.
#[derive(Copy, Clone, Debug, PartialEq, Eq, Structural)]
pub enum ParseFn {
    Grouping,
    Unary,
    Binary,
    Number,
    Literal,
    String,
    Variable,
}

/// An entry of the precedence table: the handler for a token, if it has one,
/// and how strongly the token binds.
#[derive(Copy, Clone, Debug, PartialEq, Eq, Structural)]
pub struct ParseRule {
    pub function: Option<ParseFn>,
    pub precedence: Precedence,
}

impl ParseRule {
    pub fn new(function: Option<ParseFn>, precedence: Precedence) -> (rule: ParseRule)
        ensures
            rule == (ParseRule { function, precedence }),
    {
        ParseRule { function, precedence }
    }
}

} // verus!
