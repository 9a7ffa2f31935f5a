use crate::compiler::driver::tokens_from;
use crate::compiler::grammar::{numeral_value, Numeral};
use crate::compiler::scanner::{lemma_scan_progress, scan};
use crate::compiler::source::Source;
use crate::compiler::token::{Keyword, TokenKind};
use crate::front::report::{complaint, lemma_reports_push, reports_view, Report, ReportView};
use crate::front::token::{tokens_view, Token, TokenView};
use crate::front::token_type::TokenType;
use crate::text::{push_bytes, str_bytes};
use vstd::prelude::*;
use vstd::slice::slice_subrange;
use vstd::string::StringSliceAdditionalSpecFns;

verus! {

/// The line of a token, counted from 0.
pub open spec fn line_from_zero(line: usize) -> usize {
    if line > 0 {
        (line - 1) as usize
    } else {
        0
    }
}

/// The kind of token that a reserved word is.
pub open spec fn keyword_type(keyword: Keyword) -> TokenType {
    match keyword {
        Keyword::And => TokenType::And,
        Keyword::Class => TokenType::Class,
        Keyword::Else => TokenType::Else,
        Keyword::False => TokenType::False,
        Keyword::Fun => TokenType::Fun,
        Keyword::For => TokenType::For,
        Keyword::If => TokenType::If,
        Keyword::Nil => TokenType::Nil,
        Keyword::Or => TokenType::Or,
        Keyword::Print => TokenType::Print,
        Keyword::Return => TokenType::Return,
        Keyword::Super => TokenType::Super,
        Keyword::This => TokenType::This,
        Keyword::True => TokenType::True,
        Keyword::Let => TokenType::Let,
        Keyword::While => TokenType::While,
    }
}

/// The kind of token, for the tree-walking interpreter, of a token that is
/// neither the end of the text nor a scanner error. A numeral whose value
/// the numerals do not list has none.
pub open spec fn token_type_of(
    numerals: Seq<Numeral>,
    token: crate::compiler::token::Token,
) -> Option<TokenType> {
    match token.ty {
        TokenKind::LeftParen => Some(TokenType::LeftParen),
        TokenKind::RightParen => Some(TokenType::RightParen),
        TokenKind::LeftBrace => Some(TokenType::LeftBrace),
        TokenKind::RightBrace => Some(TokenType::RightBrace),
        TokenKind::Comma => Some(TokenType::Comma),
        TokenKind::Dot => Some(TokenType::Dot),
        TokenKind::Minus => Some(TokenType::Minus),
        TokenKind::Plus => Some(TokenType::Plus),
        TokenKind::Semicolon => Some(TokenType::Semicolon),
        TokenKind::Slash => Some(TokenType::Slash),
        TokenKind::Star => Some(TokenType::Star),
        TokenKind::QuestionMark => Some(TokenType::QuestionMark),
        TokenKind::Colon => Some(TokenType::Colon),
        TokenKind::Bang => Some(TokenType::Bang),
        TokenKind::BangEqual => Some(TokenType::BangEqual),
        TokenKind::Equal => Some(TokenType::Equal),
        TokenKind::EqualEqual => Some(TokenType::EqualEqual),
        TokenKind::Greater => Some(TokenType::Greater),
        TokenKind::GreaterEqual => Some(TokenType::GreaterEqual),
        TokenKind::Less => Some(TokenType::Less),
        TokenKind::LessEqual => Some(TokenType::LessEqual),
        TokenKind::Identifier => Some(TokenType::Identifier),
        TokenKind::String => Some(TokenType::String),
        TokenKind::Number => match numeral_value(numerals, 0, token.position.start) {
            Some(value) => Some(TokenType::Number(value)),
            None => None,
        },
        TokenKind::Keyword(keyword) => Some(keyword_type(keyword)),
        TokenKind::Error(_) => None,
        TokenKind::EOF => None,
    }
}

/// The bytes that a token spans in a text; none where it does not lie
/// within the text.
pub open spec fn span(src: Seq<u8>, token: crate::compiler::token::Token) -> Seq<u8> {
    if token.position.start <= token.position.end <= src.len() {
        src.subrange(token.position.start as int, token.position.end as int)
    } else {
        Seq::empty()
    }
}

/// What is wrong with a token that has no kind.
pub open spec fn fault_of(src: Seq<u8>, token: crate::compiler::token::Token) -> Seq<u8> {
    match token.ty {
        TokenKind::Error(message) => if message@ == "Unterminated String"@ {
            "Unterminated string.".spec_bytes()
        } else {
            "Unexpected token ".spec_bytes() + span(src, token)
        },
        _ => "No value is known for this numeral.".spec_bytes(),
    }
}

/// The tokens and the complaints that a run of the scanner's tokens gives:
/// every token but the end of the text, in order, as a token of its kind
/// with its bytes and its line counted from 0, or, where it has no kind,
/// as a complaint.
pub open spec fn converted(
    src: Seq<u8>,
    numerals: Seq<Numeral>,
    tokens: Seq<crate::compiler::token::Token>,
) -> (Seq<TokenView>, Seq<ReportView>)
    decreases tokens.len(),
{
    if tokens.len() == 0 {
        (Seq::empty(), Seq::empty())
    } else {
        let (before, complaints) = converted(src, numerals, tokens.drop_last());
        let token = tokens.last();
        let line = line_from_zero(token.position.line);
        if token.ty is EOF {
            (before, complaints)
        } else {
            match token_type_of(numerals, token) {
                Some(token_type) => (
                    before.push(TokenView { token_type, lexeme: span(src, token), line }),
                    complaints,
                ),
                None => (before, complaints.push(complaint(line, fault_of(src, token)))),
            }
        }
    }
}

/// The token that ends every list of tokens.
pub open spec fn eof_token() -> TokenView {
    TokenView { token_type: TokenType::Eof, lexeme: Seq::empty(), line: 0 }
}

/// The tokens of a text for the tree-walking interpreter, ending with the
/// `Eof` token, and the complaints about the text.
pub open spec fn scanned(src: Seq<u8>, numerals: Seq<Numeral>) -> (Seq<TokenView>, Seq<ReportView>) {
    let (tokens, complaints) = converted(src, numerals, tokens_from(src, 0, 1));
    (tokens.push(eof_token()), complaints)
}

/// Turns a text into the tokens of the tree-walking interpreter.
pub struct Scanner<'a> {
    source: Source<'a>,
    numerals: Vec<Numeral>,
    inner: crate::compiler::scanner::Scanner<'a>,
    tokens: Vec<Token>,
    errors: Vec<Report>,
}

impl<'a> Scanner<'a> {
    /// The text.
    pub closed spec fn text(&self) -> Seq<u8> {
        self.source.bytes()
    }

    /// The values of the numerals of the text.
    pub closed spec fn values(&self) -> Seq<Numeral> {
        self.numerals@
    }

    /// The tokens made so far.
    pub closed spec fn made(&self) -> Seq<TokenView> {
        tokens_view(self.tokens@)
    }

    /// The complaints made so far.
    pub closed spec fn complaints(&self) -> Seq<ReportView> {
        reports_view(self.errors@)
    }

    /// Where in the text, and on which line, the scanner reads on.
    pub closed spec fn place(&self) -> (int, usize) {
        (self.inner.offset() as int, self.inner.line_number())
    }

    /// The parts of the scanner fit together.
    pub closed spec fn wf(&self) -> bool {
        self.inner.wf() && self.inner.bytes() == self.source.bytes()
    }

    /// A scanner at the start of a text. `numerals` holds the value of each
    /// numeral of the text, with the offset at which it starts.
    pub fn new(source: &'a str, numerals: Vec<Numeral>) -> (scanner: Scanner<'a>)
        ensures
            scanner.wf(),
            scanner.text() == (Source { source }).bytes(),
            scanner.values() == numerals@,
            scanner.made() == Seq::<TokenView>::empty(),
            scanner.complaints() == Seq::<ReportView>::empty(),
            scanner.place() == (0int, 1usize),
    {
        let source: Source = Source::new(source);
        let scanner = Scanner {
            source,
            numerals,
            inner: crate::compiler::scanner::Scanner::new(source),
            tokens: Vec::new(),
            errors: Vec::new(),
        };
        assert(scanner.made() =~= Seq::<TokenView>::empty());
        assert(scanner.complaints() =~= Seq::<ReportView>::empty());
        scanner
    }

    /// The complaints made so far.
    pub fn errors(&self) -> (errors: &Vec<Report>)
        ensures
            reports_view(errors@) == self.complaints(),
    {
        &self.errors
    }

    /// Reads the rest of the text and hands out all tokens made, ending
    /// with the `Eof` token. The scanner keeps the complaints.
    pub fn scan_tokens(&mut self) -> (tokens: Vec<Token>)
        requires
            old(self).wf(),
            old(self).place() == (0int, 1usize),
            old(self).made() == Seq::<TokenView>::empty(),
            old(self).complaints() == Seq::<ReportView>::empty(),
        ensures
            final(self).wf(),
            final(self).text() == old(self).text(),
            (tokens_view(tokens@), final(self).complaints()) == scanned(
                old(self).text(),
                old(self).values(),
            ),
            final(self).made() == Seq::<TokenView>::empty(),
    {
        let ghost src = self.source.bytes();
        let ghost all = tokens_from(src, 0, 1);
        let ghost mut seen: Seq<crate::compiler::token::Token> = Seq::empty();
        let length: usize = self.source.len();
        loop
            invariant_except_break
                seen + tokens_from(src, self.inner.offset() as int, self.inner.line_number())
                    == all,
            invariant
                self.wf(),
                self.source.bytes() == src,
                src.len() == length,
                self.numerals@ == old(self).numerals@,
                (tokens_view(self.tokens@), reports_view(self.errors@)) == converted(
                    src,
                    self.numerals@,
                    seen,
                ),
            ensures
                seen == all,
            decreases src.len() - self.inner.offset() + 1,
        {
            proof {
                self.inner.lemma_offset_in_text();
                lemma_scan_progress(src, self.inner.offset() as int, self.inner.line_number());
            }
            let ghost rest = tokens_from(
                src,
                self.inner.offset() as int,
                self.inner.line_number(),
            );
            let ghost next = scan(src, self.inner.offset() as int, self.inner.line_number()).0;
            let at_end: bool = self.scan_token();
            proof {
                let longer = seen.push(next);
                assert(longer.drop_last() =~= seen);
                if at_end {
                    assert(rest == seq![next]);
                    assert(longer =~= all);
                } else {
                    let tail = tokens_from(
                        src,
                        self.inner.offset() as int,
                        self.inner.line_number(),
                    );
                    assert(rest == seq![next] + tail);
                    assert(longer + tail =~= seen + rest);
                }
                seen = longer;
            }
            if at_end {
                break ;
            }
        }
        let token = Token::new(TokenType::Eof, str_bytes("").as_slice(), 0);
        proof {
            assert("".spec_bytes() =~= Seq::<u8>::empty()) by {
                reveal_strlit("");
                vstd::utf8::encode_utf8_decode_utf8(""@);
                assert(""@.len() == 0);
                assert(vstd::utf8::encode_utf8(""@).len() == 0) by {
                    reveal_with_fuel(vstd::utf8::encode_utf8, 2);
                }
            }
            let before = self.tokens@;
            assert(tokens_view(before.push(token)) =~= tokens_view(before).push(token@));
        }
        self.tokens.push(token);
        let mut tokens: Vec<Token> = Vec::new();
        std::mem::swap(&mut self.tokens, &mut tokens);
        assert(self.made() =~= Seq::<TokenView>::empty());
        tokens
    }

    /// Reads one token of the text: makes a token of it, or a complaint.
    /// Says whether the end of the text was reached.
    pub fn scan_token(&mut self) -> (at_end: bool)
        requires
            old(self).wf(),
        ensures
            final(self).wf(),
            final(self).text() == old(self).text(),
            final(self).values() == old(self).values(),
            ({
                let (token, offset, line) = scan(
                    old(self).text(),
                    old(self).place().0,
                    old(self).place().1,
                );
                &&& final(self).place() == (offset, line)
                &&& at_end == (token.ty is EOF)
                &&& (final(self).made(), final(self).complaints()) == if token.ty is EOF {
                    (old(self).made(), old(self).complaints())
                } else {
                    match token_type_of(old(self).values(), token) {
                        Some(token_type) => (
                            old(self).made().push(
                                TokenView {
                                    token_type,
                                    lexeme: span(old(self).text(), token),
                                    line: line_from_zero(token.position.line),
                                },
                            ),
                            old(self).complaints(),
                        ),
                        None => (
                            old(self).made(),
                            old(self).complaints().push(
                                complaint(
                                    line_from_zero(token.position.line),
                                    fault_of(old(self).text(), token),
                                ),
                            ),
                        ),
                    }
                }
            }),
    {
        let token: crate::compiler::token::Token = self.inner.scan_token();
        let line: usize = if token.position.line > 0 {
            token.position.line - 1
        } else {
            0
        };
        let lexeme: &[u8] = match self.source.try_lexeme(&token) {
            Some(text) => text,
            None => slice_subrange(self.source.as_bytes(), 0, 0),
        };
        assert(lexeme@ =~= span(self.source.bytes(), token));
        let token_type: Option<TokenType> = match token.ty {
            TokenKind::EOF => {
                return true;
            },
            TokenKind::LeftParen => Some(TokenType::LeftParen),
            TokenKind::RightParen => Some(TokenType::RightParen),
            TokenKind::LeftBrace => Some(TokenType::LeftBrace),
            TokenKind::RightBrace => Some(TokenType::RightBrace),
            TokenKind::Comma => Some(TokenType::Comma),
            TokenKind::Dot => Some(TokenType::Dot),
            TokenKind::Minus => Some(TokenType::Minus),
            TokenKind::Plus => Some(TokenType::Plus),
            TokenKind::Semicolon => Some(TokenType::Semicolon),
            TokenKind::Slash => Some(TokenType::Slash),
            TokenKind::Star => Some(TokenType::Star),
            TokenKind::QuestionMark => Some(TokenType::QuestionMark),
            TokenKind::Colon => Some(TokenType::Colon),
            TokenKind::Bang => Some(TokenType::Bang),
            TokenKind::BangEqual => Some(TokenType::BangEqual),
            TokenKind::Equal => Some(TokenType::Equal),
            TokenKind::EqualEqual => Some(TokenType::EqualEqual),
            TokenKind::Greater => Some(TokenType::Greater),
            TokenKind::GreaterEqual => Some(TokenType::GreaterEqual),
            TokenKind::Less => Some(TokenType::Less),
            TokenKind::LessEqual => Some(TokenType::LessEqual),
            TokenKind::Identifier => Some(self.handle_identifier()),
            TokenKind::String => Some(self.handle_string()),
            TokenKind::Number => self.handle_number(token.position.start),
            TokenKind::Keyword(keyword) => Some(self.get_keyword(keyword)),
            TokenKind::Error(_) => None,
        };
        match token_type {
            Some(token_type) => self.add_token(token_type, lexeme, line),
            None => {
                let message: Vec<u8> = match token.ty {
                    TokenKind::Error(message) => {
                        if crate::text::bytes_eq(
                            message.as_bytes(),
                            "Unterminated String".as_bytes(),
                        ) {
                            proof {
                                Self::lemma_same_bytes(message, "Unterminated String");
                            }
                            str_bytes("Unterminated string.")
                        } else {
                            proof {
                                if message@ == "Unterminated String"@ {
                                    assert(message.spec_bytes()
                                        == "Unterminated String".spec_bytes());
                                }
                            }
                            let mut text: Vec<u8> = str_bytes("Unexpected token ");
                            push_bytes(&mut text, lexeme);
                            text
                        }
                    },
                    _ => str_bytes("No value is known for this numeral."),
                };
                let report: Report = Report::error(line, message.as_slice());
                proof {
                    lemma_reports_push(self.errors@, report);
                }
                self.errors.push(report);
            },
        }
        false
    }

    /// Two string slices with the same bytes are the same string.
    proof fn lemma_same_bytes(left: &str, right: &str)
        requires
            left.spec_bytes() == right.spec_bytes(),
        ensures
            left@ == right@,
    {
        vstd::utf8::encode_utf8_decode_utf8(left@);
        vstd::utf8::encode_utf8_decode_utf8(right@);
    }

    /// The kind of a string token.
    fn handle_string(&self) -> (token_type: TokenType)
        ensures
            token_type == TokenType::String,
    {
        TokenType::String
    }

    /// The kind of a numeral that starts at the given offset: a number with
    /// the value that the numerals list for it.
    fn handle_number(&self, start: usize) -> (token_type: Option<TokenType>)
        ensures
            token_type == match numeral_value(self.numerals@, 0, start) {
                Some(value) => Some(TokenType::Number(value)),
                None => None,
            },
    {
        let mut i: usize = 0;
        while i < self.numerals.len()
            invariant
                i <= self.numerals@.len(),
                numeral_value(self.numerals@, i as int, start) == numeral_value(
                    self.numerals@,
                    0,
                    start,
                ),
            decreases self.numerals@.len() - i,
        {
            if self.numerals[i].start == start {
                return Some(TokenType::Number(self.numerals[i].value));
            }
            i += 1;
        }
        None
    }

    /// The kind of a name.
    fn handle_identifier(&self) -> (token_type: TokenType)
        ensures
            token_type == TokenType::Identifier,
    {
        TokenType::Identifier
    }

    /// Adds a token to the tokens made.
    fn add_token(&mut self, token_type: TokenType, lexeme: &[u8], line: usize)
        ensures
            final(self).source == old(self).source,
            final(self).numerals == old(self).numerals,
            final(self).inner == old(self).inner,
            final(self).errors == old(self).errors,
            final(self).made() == old(self).made().push(
                TokenView { token_type, lexeme: lexeme@, line },
            ),
    {
        let token: Token = Token::new(token_type, lexeme, line);
        assert(tokens_view(self.tokens@.push(token)) =~= tokens_view(self.tokens@).push(token@));
        self.tokens.push(token);
    }

    /// The kind of token that a reserved word is.
    pub fn get_keyword(&self, keyword: Keyword) -> (token_type: TokenType)
        ensures
            token_type == keyword_type(keyword),
    {
        match keyword {
            Keyword::And => TokenType::And,
            Keyword::Class => TokenType::Class,
            Keyword::Else => TokenType::Else,
            Keyword::False => TokenType::False,
            Keyword::Fun => TokenType::Fun,
            Keyword::For => TokenType::For,
            Keyword::If => TokenType::If,
            Keyword::Nil => TokenType::Nil,
            Keyword::Or => TokenType::Or,
            Keyword::Print => TokenType::Print,
            Keyword::Return => TokenType::Return,
            Keyword::Super => TokenType::Super,
            Keyword::This => TokenType::This,
            Keyword::True => TokenType::True,
            Keyword::Let => TokenType::Let,
            Keyword::While => TokenType::While,
        }
    }
}

} // verus!
