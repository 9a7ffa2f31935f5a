use crate::compiler::source::Source;
use crate::compiler::token::{Keyword, Position, Token, TokenKind};
use crate::text::bytes_eq;
use vstd::prelude::*;
use vstd::slice::slice_subrange;

verus! {

/// A decimal digit.
pub open spec fn is_digit(byte: u8) -> bool {
    ('0' as u8) <= byte <= ('9' as u8)
}

/// A byte that may stand in a name: a letter, a digit or an underscore.
pub open spec fn is_alpha(byte: u8) -> bool {
    (('a' as u8) <= byte <= ('z' as u8)) || (('A' as u8) <= byte <= ('Z' as u8)) || is_digit(byte) || byte == ('_' as u8)
}

/// The byte at an offset, or 0 beyond the end of the text.
pub open spec fn byte_at(src: Seq<u8>, pos: int) -> u8 {
    if 0 <= pos < src.len() {
        src[pos]
    } else {
        0
    }
}

/// The line after `line`. The count stops at the largest number.
pub open spec fn bump(line: usize) -> usize {
    if line < usize::MAX {
        (line + 1) as usize
    } else {
        line
    }
}

/// Where a line comment ends: at the next newline at or after `pos`, or at
/// the end of the text.
pub open spec fn line_end(src: Seq<u8>, pos: int) -> int
    decreases src.len() - pos,
{
    if pos < 0 || pos >= src.len() || src[pos] == ('\n' as u8) {
        pos
    } else {
        line_end(src, pos + 1)
    }
}

/// Where a block comment ends, and the line there: after the first `*/` at or
/// after `pos`, or at the end of the text where none follows.
pub open spec fn block_end(src: Seq<u8>, pos: int, line: usize) -> (int, usize)
    decreases src.len() - pos,
{
    if pos < 0 || pos >= src.len() {
        (pos, line)
    } else if src[pos] == ('*' as u8) && byte_at(src, pos + 1) == ('/' as u8) {
        (pos + 2, line)
    } else if src[pos] == ('\n' as u8) {
        block_end(src, pos + 1, bump(line))
    } else {
        block_end(src, pos + 1, line)
    }
}

/// Where the blanks and comments that start at `pos` end, and the line there.
pub open spec fn skip_blank(src: Seq<u8>, pos: int, line: usize) -> (int, usize)
    decreases src.len() - pos,
{
    if pos < 0 || pos >= src.len() {
        (pos, line)
    } else {
        let c = src[pos];
        if c == (' ' as u8) || c == ('\r' as u8) || c == ('\t' as u8) {
            skip_blank(src, pos + 1, line)
        } else if c == ('\n' as u8) {
            skip_blank(src, pos + 1, bump(line))
        } else if c == ('/' as u8) && byte_at(src, pos + 1) == ('/' as u8) {
            let next = line_end(src, pos + 2);
            if pos < next <= src.len() {
                skip_blank(src, next, line)
            } else {
                (pos, line)
            }
        } else if c == ('/' as u8) && byte_at(src, pos + 1) == ('*' as u8) {
            let (next, next_line) = block_end(src, pos + 2, line);
            if pos < next <= src.len() {
                skip_blank(src, next, next_line)
            } else {
                (pos, line)
            }
        } else {
            (pos, line)
        }
    }
}

/// The first offset at or after `pos` that holds no digit.
pub open spec fn digits_end(src: Seq<u8>, pos: int) -> int
    decreases src.len() - pos,
{
    if pos < 0 || pos >= src.len() || !is_digit(src[pos]) {
        pos
    } else {
        digits_end(src, pos + 1)
    }
}

/// The first offset at or after `pos` that holds no byte of a name.
pub open spec fn alpha_end(src: Seq<u8>, pos: int) -> int
    decreases src.len() - pos,
{
    if pos < 0 || pos >= src.len() || !is_alpha(src[pos]) {
        pos
    } else {
        alpha_end(src, pos + 1)
    }
}

/// Where the numeral whose digits start at `pos` ends: after its digits, and
/// after a point and further digits where a digit follows the point.
pub open spec fn number_end(src: Seq<u8>, pos: int) -> int {
    let whole = digits_end(src, pos);
    if byte_at(src, whole) == ('.' as u8) && is_digit(byte_at(src, whole + 1)) {
        digits_end(src, whole + 1)
    } else {
        whole
    }
}

/// Where the closing quote of a string stands, searching from `pos`, and the
/// line there; the end of the text where the string is not closed.
pub open spec fn quote_at(src: Seq<u8>, pos: int, line: usize) -> (int, usize)
    decreases src.len() - pos,
{
    if pos < 0 || pos >= src.len() || src[pos] == ('"' as u8) {
        (pos, line)
    } else if src[pos] == ('\n' as u8) {
        quote_at(src, pos + 1, bump(line))
    } else {
        quote_at(src, pos + 1, line)
    }
}

/// The reserved word that the bytes spell, if any.
pub open spec fn keyword_of(word: Seq<u8>) -> Option<Keyword> {
    if word == seq![('a' as u8), ('n' as u8), ('d' as u8)] {
        Some(Keyword::And)
    } else if word == seq![('c' as u8), ('l' as u8), ('a' as u8), ('s' as u8), ('s' as u8)] {
        Some(Keyword::Class)
    } else if word == seq![('e' as u8), ('l' as u8), ('s' as u8), ('e' as u8)] {
        Some(Keyword::Else)
    } else if word == seq![('f' as u8), ('a' as u8), ('l' as u8), ('s' as u8), ('e' as u8)] {
        Some(Keyword::False)
    } else if word == seq![('f' as u8), ('o' as u8), ('r' as u8)] {
        Some(Keyword::For)
    } else if word == seq![('f' as u8), ('u' as u8), ('n' as u8)] {
        Some(Keyword::Fun)
    } else if word == seq![('i' as u8), ('f' as u8)] {
        Some(Keyword::If)
    } else if word == seq![('n' as u8), ('i' as u8), ('l' as u8)] {
        Some(Keyword::Nil)
    } else if word == seq![('o' as u8), ('r' as u8)] {
        Some(Keyword::Or)
    } else if word == seq![('p' as u8), ('r' as u8), ('i' as u8), ('n' as u8), ('t' as u8)] {
        Some(Keyword::Print)
    } else if word == seq![('r' as u8), ('e' as u8), ('t' as u8), ('u' as u8), ('r' as u8), ('n' as u8)] {
        Some(Keyword::Return)
    } else if word == seq![('s' as u8), ('u' as u8), ('p' as u8), ('e' as u8), ('r' as u8)] {
        Some(Keyword::Super)
    } else if word == seq![('t' as u8), ('h' as u8), ('i' as u8), ('s' as u8)] {
        Some(Keyword::This)
    } else if word == seq![('t' as u8), ('r' as u8), ('u' as u8), ('e' as u8)] {
        Some(Keyword::True)
    } else if word == seq![('l' as u8), ('e' as u8), ('t' as u8)] {
        Some(Keyword::Let)
    } else if word == seq![('w' as u8), ('h' as u8), ('i' as u8), ('l' as u8), ('e' as u8)] {
        Some(Keyword::While)
    } else {
        None
    }
}

/// The kind of the token that starts at `pos`, where it ends and the line
/// there. `pos` is below the end of the text and holds no blank.
pub open spec fn lex(src: Seq<u8>, pos: int, line: usize) -> (TokenKind, int, usize) {
    let c = byte_at(src, pos);
    let second = byte_at(src, pos + 1);
    if c == ('(' as u8) {
        (TokenKind::LeftParen, pos + 1, line)
    } else if c == (')' as u8) {
        (TokenKind::RightParen, pos + 1, line)
    } else if c == ('{' as u8) {
        (TokenKind::LeftBrace, pos + 1, line)
    } else if c == ('}' as u8) {
        (TokenKind::RightBrace, pos + 1, line)
    } else if c == (',' as u8) {
        (TokenKind::Comma, pos + 1, line)
    } else if c == ('.' as u8) {
        (TokenKind::Dot, pos + 1, line)
    } else if c == ('-' as u8) {
        (TokenKind::Minus, pos + 1, line)
    } else if c == ('+' as u8) {
        (TokenKind::Plus, pos + 1, line)
    } else if c == (';' as u8) {
        (TokenKind::Semicolon, pos + 1, line)
    } else if c == ('/' as u8) {
        (TokenKind::Slash, pos + 1, line)
    } else if c == ('*' as u8) {
        (TokenKind::Star, pos + 1, line)
    } else if c == ('?' as u8) {
        (TokenKind::QuestionMark, pos + 1, line)
    } else if c == (':' as u8) {
        (TokenKind::Colon, pos + 1, line)
    } else if c == ('!' as u8) {
        if second == ('=' as u8) {
            (TokenKind::BangEqual, pos + 2, line)
        } else {
            (TokenKind::Bang, pos + 1, line)
        }
    } else if c == ('=' as u8) {
        if second == ('=' as u8) {
            (TokenKind::EqualEqual, pos + 2, line)
        } else {
            (TokenKind::Equal, pos + 1, line)
        }
    } else if c == ('<' as u8) {
        if second == ('=' as u8) {
            (TokenKind::LessEqual, pos + 2, line)
        } else {
            (TokenKind::Less, pos + 1, line)
        }
    } else if c == ('>' as u8) {
        if second == ('=' as u8) {
            (TokenKind::GreaterEqual, pos + 2, line)
        } else {
            (TokenKind::Greater, pos + 1, line)
        }
    } else if c == ('"' as u8) {
        let (quote, quote_line) = quote_at(src, pos + 1, line);
        if quote >= src.len() {
            (TokenKind::Error("Unterminated String"), quote, quote_line)
        } else {
            (TokenKind::String, quote + 1, quote_line)
        }
    } else if is_digit(c) {
        (TokenKind::Number, number_end(src, pos + 1), line)
    } else if is_alpha(c) {
        let end = alpha_end(src, pos + 1);
        match keyword_of(src.subrange(pos, end)) {
            Some(keyword) => (TokenKind::Keyword(keyword), end, line),
            None => (TokenKind::Identifier, end, line),
        }
    } else {
        (TokenKind::Error("Invalid character"), pos + 1, line)
    }
}

/// The next token of a text read from offset `pos` on line `line`, with the
/// offset and the line at which reading goes on. At the end of the text the
/// token is `EOF`, of no length.
pub open spec fn scan(src: Seq<u8>, pos: int, line: usize) -> (Token, int, usize) {
    let (start, start_line) = skip_blank(src, pos, line);
    if start >= src.len() {
        (
            Token {
                ty: TokenKind::EOF,
                position: Position {
                    start: start as usize,
                    end: start as usize,
                    line: start_line,
                },
            },
            start,
            start_line,
        )
    } else {
        let (kind, end, end_line) = lex(src, start, start_line);
        (
            Token {
                ty: kind,
                position: Position { start: start as usize, end: end as usize, line: end_line },
            },
            end,
            end_line,
        )
    }
}

/// A comment's end lies between its start and the end of the text.
pub proof fn lemma_line_end_bounds(src: Seq<u8>, pos: int)
    requires
        0 <= pos <= src.len(),
    ensures
        pos <= line_end(src, pos) <= src.len(),
    decreases src.len() - pos,
{
    if pos < src.len() && src[pos] != ('\n' as u8) {
        lemma_line_end_bounds(src, pos + 1);
    }
}

/// A block comment's end lies between its start and the end of the text.
pub proof fn lemma_block_end_bounds(src: Seq<u8>, pos: int, line: usize)
    requires
        0 <= pos <= src.len(),
    ensures
        pos <= block_end(src, pos, line).0 <= src.len(),
    decreases src.len() - pos,
{
    if pos < src.len() {
        if src[pos] == ('*' as u8) && byte_at(src, pos + 1) == ('/' as u8) {
        } else if src[pos] == ('\n' as u8) {
            lemma_block_end_bounds(src, pos + 1, bump(line));
        } else {
            lemma_block_end_bounds(src, pos + 1, line);
        }
    }
}

/// Skipping blanks never moves back nor beyond the end of the text.
pub proof fn lemma_skip_blank_bounds(src: Seq<u8>, pos: int, line: usize)
    requires
        0 <= pos <= src.len(),
    ensures
        pos <= skip_blank(src, pos, line).0 <= src.len(),
    decreases src.len() - pos,
{
    if pos < src.len() {
        let c = src[pos];
        if c == (' ' as u8) || c == ('\r' as u8) || c == ('\t' as u8) {
            lemma_skip_blank_bounds(src, pos + 1, line);
        } else if c == ('\n' as u8) {
            lemma_skip_blank_bounds(src, pos + 1, bump(line));
        } else if c == ('/' as u8) && byte_at(src, pos + 1) == ('/' as u8) {
            lemma_line_end_bounds(src, pos + 2);
            lemma_skip_blank_bounds(src, line_end(src, pos + 2), line);
        } else if c == ('/' as u8) && byte_at(src, pos + 1) == ('*' as u8) {
            lemma_block_end_bounds(src, pos + 2, line);
            let (next, next_line) = block_end(src, pos + 2, line);
            lemma_skip_blank_bounds(src, next, next_line);
        }
    }
}

/// A run of digits ends between its start and the end of the text.
pub proof fn lemma_digits_end_bounds(src: Seq<u8>, pos: int)
    requires
        0 <= pos <= src.len(),
    ensures
        pos <= digits_end(src, pos) <= src.len(),
    decreases src.len() - pos,
{
    if pos < src.len() && is_digit(src[pos]) {
        lemma_digits_end_bounds(src, pos + 1);
    }
}

/// A name ends between its start and the end of the text.
pub proof fn lemma_alpha_end_bounds(src: Seq<u8>, pos: int)
    requires
        0 <= pos <= src.len(),
    ensures
        pos <= alpha_end(src, pos) <= src.len(),
    decreases src.len() - pos,
{
    if pos < src.len() && is_alpha(src[pos]) {
        lemma_alpha_end_bounds(src, pos + 1);
    }
}

/// A string's closing quote lies between the search's start and the end of
/// the text.
pub proof fn lemma_quote_at_bounds(src: Seq<u8>, pos: int, line: usize)
    requires
        0 <= pos <= src.len(),
    ensures
        pos <= quote_at(src, pos, line).0 <= src.len(),
    decreases src.len() - pos,
{
    if pos < src.len() && src[pos] != ('"' as u8) {
        if src[pos] == ('\n' as u8) {
            lemma_quote_at_bounds(src, pos + 1, bump(line));
        } else {
            lemma_quote_at_bounds(src, pos + 1, line);
        }
    }
}

/// Every token lies within the text, ends where reading goes on, and is
/// followed by a reading position that is further on, unless it is `EOF`.
pub proof fn lemma_scan_progress(src: Seq<u8>, pos: int, line: usize)
    requires
        0 <= pos <= src.len(),
        src.len() <= usize::MAX,
    ensures
        ({
            let (token, next, _) = scan(src, pos, line);
            &&& pos <= token.position.start <= token.position.end == next <= src.len()
            &&& token.ty is EOF <==> token.position.start == src.len()
            &&& !(token.ty is EOF) ==> pos < next
            &&& token.ty is EOF ==> scan(src, next, scan(src, pos, line).2) == scan(src, pos, line)
            &&& token.ty is String ==> token.position.start + 2 <= token.position.end
        }),
{
    lemma_skip_blank_bounds(src, pos, line);
    let (start, start_line) = skip_blank(src, pos, line);
    if start < src.len() {
        lemma_quote_at_bounds(src, start + 1, start_line);
        lemma_digits_end_bounds(src, start + 1);
        let whole = digits_end(src, start + 1);
        if whole + 1 <= src.len() {
            lemma_digits_end_bounds(src, whole + 1);
        }
        lemma_alpha_end_bounds(src, start + 1);
    } else {
        assert(skip_blank(src, start, start_line) == (start, start_line));
    }
}

/// Reads tokens off a text, one at a time.
pub struct Scanner<'src> {
    source: &'src [u8],
    start: usize,
    current: usize,
    line: usize,
}

impl<'src> Scanner<'src> {
    /// The bytes of the text.
    pub closed spec fn bytes(&self) -> Seq<u8> {
        self.source@
    }

    /// The offset at which the next token is looked for.
    pub closed spec fn offset(&self) -> usize {
        self.current
    }

    /// The offset at which the token being read starts.
    pub closed spec fn token_start(&self) -> usize {
        self.start
    }

    /// The line of the reading position.
    pub closed spec fn line_number(&self) -> usize {
        self.line
    }

    /// The reading position lies within the text, at or after the start of
    /// the token being read.
    pub closed spec fn wf(&self) -> bool {
        self.start <= self.current <= self.source@.len()
    }

    /// The reading position of a scanner in order lies within the text.
    pub proof fn lemma_offset_in_text(&self)
        requires
            self.wf(),
        ensures
            self.token_start() <= self.offset() <= self.bytes().len(),
    {
    }

    /// A scanner at the start of the text, on line 1.
    pub fn new(source: Source<'src>) -> (scanner: Scanner<'src>)
        ensures
            scanner.wf(),
            scanner.bytes() == source.bytes(),
            scanner.offset() == 0,
            scanner.line_number() == 1,
    {
        Scanner { source: source.as_bytes(), start: 0, current: 0, line: 1 }
    }

    /// Reads the next token. At the end of the text every call returns `EOF`.
    pub fn scan_token(&mut self) -> (token: Token)
        requires
            old(self).wf(),
        ensures
            final(self).wf(),
            final(self).bytes() == old(self).bytes(),
            (token, final(self).offset() as int, final(self).line_number()) == scan(
                old(self).bytes(),
                old(self).offset() as int,
                old(self).line_number(),
            ),
            final(self).offset() == token.position.end,
            token.position.start <= token.position.end <= final(self).bytes().len(),
    {
        let length: usize = self.source.len();
        proof {
            lemma_scan_progress(self.source@, self.current as int, self.line);
        }
        self.skip_whitespace();
        self.start = self.current;
        if self.is_at_end() {
            return self.make_token(TokenKind::EOF);
        }
        let ghost src = self.source@;
        let ghost start = self.start as int;
        proof {
            lemma_quote_at_bounds(src, start + 1, self.line);
            lemma_digits_end_bounds(src, start + 1);
            lemma_alpha_end_bounds(src, start + 1);
        }
        let c: u8 = self.advance();
        let token_kind: TokenKind = if c == ('(' as u8) {
            TokenKind::LeftParen
        } else if c == (')' as u8) {
            TokenKind::RightParen
        } else if c == ('{' as u8) {
            TokenKind::LeftBrace
        } else if c == ('}' as u8) {
            TokenKind::RightBrace
        } else if c == (',' as u8) {
            TokenKind::Comma
        } else if c == ('.' as u8) {
            TokenKind::Dot
        } else if c == ('-' as u8) {
            TokenKind::Minus
        } else if c == ('+' as u8) {
            TokenKind::Plus
        } else if c == (';' as u8) {
            TokenKind::Semicolon
        } else if c == ('/' as u8) {
            TokenKind::Slash
        } else if c == ('*' as u8) {
            TokenKind::Star
        } else if c == ('?' as u8) {
            TokenKind::QuestionMark
        } else if c == (':' as u8) {
            TokenKind::Colon
        } else if c == ('!' as u8) {
            if self.try_consume(('=' as u8)) {
                TokenKind::BangEqual
            } else {
                TokenKind::Bang
            }
        } else if c == ('=' as u8) {
            if self.try_consume(('=' as u8)) {
                TokenKind::EqualEqual
            } else {
                TokenKind::Equal
            }
        } else if c == ('<' as u8) {
            if self.try_consume(('=' as u8)) {
                TokenKind::LessEqual
            } else {
                TokenKind::Less
            }
        } else if c == ('>' as u8) {
            if self.try_consume(('=' as u8)) {
                TokenKind::GreaterEqual
            } else {
                TokenKind::Greater
            }
        } else if c == ('"' as u8) {
            self.string()
        } else if c >= ('0' as u8) && c <= ('9' as u8) {
            self.number()
        } else if (c >= ('a' as u8) && c <= ('z' as u8)) || (c >= ('A' as u8) && c <= ('Z' as u8)) || c == ('_' as u8) {
            self.identifier(c)
        } else {
            self.error_kind("Invalid character")
        };
        self.make_token(token_kind)
    }

    /// A token of the given kind that spans from the start of the token being
    /// read to the reading position.
    fn make_token(&self, token_kind: TokenKind) -> (token: Token)
        ensures
            token == (Token {
                ty: token_kind,
                position: Position { start: self.start, end: self.current, line: self.line },
            }),
    {
        Token::new(token_kind, Position::new(self.start, self.current, self.line))
    }

    /// An error kind with the given message.
    fn error_kind(&self, error_message: &'static str) -> (kind: TokenKind)
        ensures
            kind == TokenKind::Error(error_message),
    {
        TokenKind::Error(error_message)
    }

    /// An error token at the reading position.
    pub fn error_token(&self, error_message: &'static str) -> (token: Token)
        ensures
            token.ty == TokenKind::Error(error_message),
            token.position == (Position {
                start: self.token_start(),
                end: self.offset(),
                line: self.line_number(),
            }),
    {
        self.make_token(self.error_kind(error_message))
    }

    /// Whether the whole text has been read.
    pub fn is_at_end(&self) -> (at_end: bool)
        requires
            self.wf(),
        ensures
            at_end == (self.offset() >= self.bytes().len()),
    {
        self.current >= self.source.len()
    }

    /// The byte at the reading position; 0 at the end of the text.
    fn peek(&self) -> (byte: u8)
        requires
            self.wf(),
        ensures
            byte == byte_at(self.source@, self.current as int),
    {
        if self.current < self.source.len() {
            self.source[self.current]
        } else {
            0
        }
    }

    /// The byte after the reading position; 0 beyond the end of the text.
    fn peek_next(&self) -> (byte: u8)
        requires
            self.wf(),
        ensures
            byte == byte_at(self.source@, self.current + 1),
    {
        if self.current < self.source.len() && self.current + 1 < self.source.len() {
            self.source[self.current + 1]
        } else {
            0
        }
    }

    /// Reads one byte.
    fn advance(&mut self) -> (byte: u8)
        requires
            old(self).wf(),
            old(self).current < old(self).source@.len(),
        ensures
            final(self).wf(),
            final(self).source == old(self).source,
            final(self).start == old(self).start,
            final(self).line == old(self).line,
            final(self).current == old(self).current + 1,
            byte == old(self).source@[old(self).current as int],
    {
        let c: u8 = self.source[self.current];
        self.current += 1;
        c
    }

    /// Reads the byte at the reading position if it is the expected one.
    fn try_consume(&mut self, expected: u8) -> (consumed: bool)
        requires
            old(self).wf(),
            expected != 0,
        ensures
            final(self).wf(),
            final(self).source == old(self).source,
            final(self).start == old(self).start,
            final(self).line == old(self).line,
            consumed == (byte_at(old(self).source@, old(self).current as int) == expected),
            final(self).current == if consumed {
                old(self).current + 1
            } else {
                old(self).current as int
            },
    {
        if self.peek() == expected {
            self.advance();
            true
        } else {
            false
        }
    }

    /// Reads the rest of a string whose opening quote has been read.
    fn string(&mut self) -> (kind: TokenKind)
        requires
            old(self).wf(),
        ensures
            final(self).wf(),
            final(self).source == old(self).source,
            final(self).start == old(self).start,
            ({
                let (quote, line) = quote_at(
                    old(self).source@,
                    old(self).current as int,
                    old(self).line,
                );
                if quote >= old(self).source@.len() {
                    &&& kind == TokenKind::Error("Unterminated String")
                    &&& final(self).current == quote
                    &&& final(self).line == line
                } else {
                    &&& kind == TokenKind::String
                    &&& final(self).current == quote + 1
                    &&& final(self).line == line
                }
            }),
    {
        proof {
            lemma_quote_at_bounds(self.source@, self.current as int, self.line);
        }
        while !self.is_at_end() && self.peek() != ('"' as u8)
            invariant
                self.wf(),
                self.source == old(self).source,
                self.start == old(self).start,
                quote_at(self.source@, self.current as int, self.line) == quote_at(
                    old(self).source@,
                    old(self).current as int,
                    old(self).line,
                ),
            decreases self.source@.len() - self.current,
        {
            if self.peek() == ('\n' as u8) {
                self.line = Self::next_line(self.line);
            }
            self.advance();
        }
        if self.is_at_end() {
            return self.error_kind("Unterminated String");
        }
        self.advance();
        TokenKind::String
    }

    /// The line after `line`.
    fn next_line(line: usize) -> (next: usize)
        ensures
            next == bump(line),
    {
        if line < usize::MAX {
            line + 1
        } else {
            line
        }
    }

    /// Reads a run of digits.
    fn digits(&mut self)
        requires
            old(self).wf(),
        ensures
            final(self).wf(),
            final(self).source == old(self).source,
            final(self).start == old(self).start,
            final(self).line == old(self).line,
            final(self).current == digits_end(old(self).source@, old(self).current as int),
    {
        proof {
            lemma_digits_end_bounds(self.source@, self.current as int);
        }
        while self.peek() >= ('0' as u8) && self.peek() <= ('9' as u8)
            invariant
                self.wf(),
                self.source == old(self).source,
                self.start == old(self).start,
                self.line == old(self).line,
                digits_end(self.source@, self.current as int) == digits_end(
                    old(self).source@,
                    old(self).current as int,
                ),
            decreases self.source@.len() - self.current,
        {
            self.advance();
        }
    }

    /// Reads the rest of a numeral whose first digit has been read.
    fn number(&mut self) -> (kind: TokenKind)
        requires
            old(self).wf(),
        ensures
            final(self).wf(),
            final(self).source == old(self).source,
            final(self).start == old(self).start,
            final(self).line == old(self).line,
            kind == TokenKind::Number,
            final(self).current == number_end(old(self).source@, old(self).current as int),
    {
        self.digits();
        let next: u8 = self.peek_next();
        if self.peek() == ('.' as u8) && next >= ('0' as u8) && next <= ('9' as u8) {
            self.advance();
            self.digits();
        }
        TokenKind::Number
    }

    /// Reads the rest of a name whose first byte has been read, and tells a
    /// reserved word from an identifier.
    fn identifier(&mut self, first: u8) -> (kind: TokenKind)
        requires
            old(self).wf(),
            old(self).start < old(self).current,
        ensures
            final(self).wf(),
            final(self).source == old(self).source,
            final(self).start == old(self).start,
            final(self).line == old(self).line,
            final(self).current == alpha_end(old(self).source@, old(self).current as int),
            kind == match keyword_of(
                old(self).source@.subrange(old(self).start as int, final(self).current as int),
            ) {
                Some(keyword) => TokenKind::Keyword(keyword),
                None => TokenKind::Identifier,
            },
    {
        proof {
            lemma_alpha_end_bounds(self.source@, self.current as int);
        }
        while Self::is_name_byte(self.peek())
            invariant
                self.wf(),
                self.source == old(self).source,
                self.start == old(self).start,
                self.line == old(self).line,
                alpha_end(self.source@, self.current as int) == alpha_end(
                    old(self).source@,
                    old(self).current as int,
                ),
            decreases self.source@.len() - self.current,
        {
            self.advance();
        }
        let buffer: &[u8] = slice_subrange(self.source, self.start, self.current);
        match self.get_keyword(buffer) {
            Some(keyword) => TokenKind::Keyword(keyword),
            None => TokenKind::Identifier,
        }
    }

    /// Whether a byte may stand in a name.
    fn is_name_byte(byte: u8) -> (alpha: bool)
        ensures
            alpha == is_alpha(byte),
    {
        (byte >= ('a' as u8) && byte <= ('z' as u8)) || (byte >= ('A' as u8) && byte <= ('Z' as u8)) || (byte >= ('0' as u8) && byte
            <= ('9' as u8)) || byte == ('_' as u8)
    }

    /// The reserved word that the bytes spell, if any.
    pub fn get_keyword(&self, buffer: &[u8]) -> (keyword: Option<Keyword>)
        ensures
            keyword == keyword_of(buffer@),
    {
        if bytes_eq(buffer, vec![('a' as u8), ('n' as u8), ('d' as u8)].as_slice()) {
            Some(Keyword::And)
        } else if bytes_eq(buffer, vec![('c' as u8), ('l' as u8), ('a' as u8), ('s' as u8), ('s' as u8)].as_slice()) {
            Some(Keyword::Class)
        } else if bytes_eq(buffer, vec![('e' as u8), ('l' as u8), ('s' as u8), ('e' as u8)].as_slice()) {
            Some(Keyword::Else)
        } else if bytes_eq(buffer, vec![('f' as u8), ('a' as u8), ('l' as u8), ('s' as u8), ('e' as u8)].as_slice()) {
            Some(Keyword::False)
        } else if bytes_eq(buffer, vec![('f' as u8), ('o' as u8), ('r' as u8)].as_slice()) {
            Some(Keyword::For)
        } else if bytes_eq(buffer, vec![('f' as u8), ('u' as u8), ('n' as u8)].as_slice()) {
            Some(Keyword::Fun)
        } else if bytes_eq(buffer, vec![('i' as u8), ('f' as u8)].as_slice()) {
            Some(Keyword::If)
        } else if bytes_eq(buffer, vec![('n' as u8), ('i' as u8), ('l' as u8)].as_slice()) {
            Some(Keyword::Nil)
        } else if bytes_eq(buffer, vec![('o' as u8), ('r' as u8)].as_slice()) {
            Some(Keyword::Or)
        } else if bytes_eq(buffer, vec![('p' as u8), ('r' as u8), ('i' as u8), ('n' as u8), ('t' as u8)].as_slice()) {
            Some(Keyword::Print)
        } else if bytes_eq(buffer, vec![('r' as u8), ('e' as u8), ('t' as u8), ('u' as u8), ('r' as u8), ('n' as u8)].as_slice()) {
            Some(Keyword::Return)
        } else if bytes_eq(buffer, vec![('s' as u8), ('u' as u8), ('p' as u8), ('e' as u8), ('r' as u8)].as_slice()) {
            Some(Keyword::Super)
        } else if bytes_eq(buffer, vec![('t' as u8), ('h' as u8), ('i' as u8), ('s' as u8)].as_slice()) {
            Some(Keyword::This)
        } else if bytes_eq(buffer, vec![('t' as u8), ('r' as u8), ('u' as u8), ('e' as u8)].as_slice()) {
            Some(Keyword::True)
        } else if bytes_eq(buffer, vec![('l' as u8), ('e' as u8), ('t' as u8)].as_slice()) {
            Some(Keyword::Let)
        } else if bytes_eq(buffer, vec![('w' as u8), ('h' as u8), ('i' as u8), ('l' as u8), ('e' as u8)].as_slice()) {
            Some(Keyword::While)
        } else {
            None
        }
    }

    /// Reads to the end of a line comment.
    fn skip_line_comment(&mut self)
        requires
            old(self).wf(),
        ensures
            final(self).wf(),
            final(self).source == old(self).source,
            final(self).start == old(self).start,
            final(self).line == old(self).line,
            final(self).current == line_end(old(self).source@, old(self).current as int),
    {
        proof {
            lemma_line_end_bounds(self.source@, self.current as int);
        }
        while !self.is_at_end() && self.peek() != ('\n' as u8)
            invariant
                self.wf(),
                self.source == old(self).source,
                self.start == old(self).start,
                self.line == old(self).line,
                line_end(self.source@, self.current as int) == line_end(
                    old(self).source@,
                    old(self).current as int,
                ),
            decreases self.source@.len() - self.current,
        {
            self.advance();
        }
    }

    /// Reads to the end of a block comment.
    fn skip_block_comment(&mut self)
        requires
            old(self).wf(),
        ensures
            final(self).wf(),
            final(self).source == old(self).source,
            final(self).start == old(self).start,
            (final(self).current as int, final(self).line) == block_end(
                old(self).source@,
                old(self).current as int,
                old(self).line,
            ),
    {
        while !self.is_at_end() && !(self.peek() == ('*' as u8) && self.peek_next() == ('/' as u8))
            invariant
                self.wf(),
                self.source == old(self).source,
                self.start == old(self).start,
                block_end(self.source@, self.current as int, self.line) == block_end(
                    old(self).source@,
                    old(self).current as int,
                    old(self).line,
                ),
            decreases self.source@.len() - self.current,
        {
            if self.peek() == ('\n' as u8) {
                self.line = Self::next_line(self.line);
            }
            self.advance();
        }
        if !self.is_at_end() {
            self.advance();
            self.advance();
        }
    }

    /// Reads past blanks and comments.
    fn skip_whitespace(&mut self)
        requires
            old(self).wf(),
        ensures
            final(self).wf(),
            final(self).source == old(self).source,
            (final(self).current as int, final(self).line) == skip_blank(
                old(self).source@,
                old(self).current as int,
                old(self).line,
            ),
    {
        self.start = self.current;
        while !self.is_at_end()
            invariant
                self.wf(),
                self.source == old(self).source,
                skip_blank(self.source@, self.current as int, self.line) == skip_blank(
                    old(self).source@,
                    old(self).current as int,
                    old(self).line,
                ),
            decreases self.source@.len() - self.current,
        {
            let c: u8 = self.peek();
            if c == (' ' as u8) || c == ('\r' as u8) || c == ('\t' as u8) {
                self.advance();
            } else if c == ('\n' as u8) {
                self.line = Self::next_line(self.line);
                self.advance();
            } else if c == ('/' as u8) && self.peek_next() == ('/' as u8) {
                proof {
                    lemma_line_end_bounds(self.source@, self.current + 2);
                }
                self.advance();
                self.advance();
                self.skip_line_comment();
            } else if c == ('/' as u8) && self.peek_next() == ('*' as u8) {
                proof {
                    lemma_block_end_bounds(self.source@, self.current + 2, self.line);
                }
                self.advance();
                self.advance();
                self.skip_block_comment();
            } else {
                return ;
            }
            self.start = self.current;
        }
    }
}

} // verus!
