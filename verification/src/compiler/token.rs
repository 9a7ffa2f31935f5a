use vstd::prelude::*;
use vstd::std_specs::cmp::PartialEqSpecImpl;

verus! {

/// Where a token lies in the source: the byte offsets of its first byte and
/// of the byte after its last, and the line on which it ends.
#[derive(Debug, Copy, Clone, PartialEq, Eq, Structural)]
pub struct Position {
    pub start: usize,
    pub end: usize,
    pub line: usize,
}

impl Position {
    pub fn new(start: usize, end: usize, line: usize) -> (position: Position)
        ensures
            position == (Position { start, end, line }),
    {
        Position { start, end, line }
    }
}

/// The reserved words.
#[derive(Debug, Copy, Clone, PartialEq, Eq, Structural)]
pub enum Keyword {
    And,
    Class,
    Else,
    False,
    Fun,
    For,
    If,
    Nil,
    Or,
    Print,
    Return,
    Super,
    This,
    True,
    Let,
    While,
}

/// The kinds of token. `Error` carries the scanner's message.
#[derive(Debug, Copy, Clone)]
pub enum TokenKind {
    LeftParen,
    RightParen,
    LeftBrace,
    RightBrace,
    Comma,
    Dot,
    Minus,
    Plus,
    Semicolon,
    Slash,
    Star,
    QuestionMark,
    Colon,
    Bang,
    BangEqual,
    Equal,
    EqualEqual,
    Greater,
    GreaterEqual,
    Less,
    LessEqual,
    Identifier,
    String,
    Number,
    Keyword(Keyword),
    Error(&'static str),
    EOF,
}

impl TokenKind {
    /// Whether two kinds are the same kind of token: two keywords when they
    /// are the same word, two errors whatever their messages, any other two
    /// when they are the same variant.
    pub open spec fn same(self, other: TokenKind) -> bool {
        match (self, other) {
            (TokenKind::Keyword(l), TokenKind::Keyword(r)) => l == r,
            (TokenKind::Error(_), TokenKind::Error(_)) => true,
            (TokenKind::Error(_), _) => false,
            (_, TokenKind::Error(_)) => false,
            _ => self == other,
        }
    }

    /// An error kind to compare against, with an empty message.
    pub fn error_type() -> (kind: TokenKind)
        ensures
            kind == TokenKind::Error(""),
    {
        TokenKind::Error("")
    }

    /// The message of an error kind.
    pub fn try_into_error(&self) -> (message: Option<&'static str>)
        ensures
            message.is_some() <==> *self is Error,
            message.is_some() ==> *self == TokenKind::Error(message.unwrap()),
    {
        match self {
            TokenKind::Error(message) => Some(*message),
            _ => None,
        }
    }

    /// Sameness is an equivalence.
    pub proof fn lemma_same_equivalence(a: TokenKind, b: TokenKind, c: TokenKind)
        ensures
            a.same(a),
            a.same(b) == b.same(a),
            a.same(b) && b.same(c) ==> a.same(c),
    {
    }
}

impl PartialEq for TokenKind {
    fn eq(&self, other: &TokenKind) -> (same: bool) {
        match (self, other) {
            (TokenKind::LeftParen, TokenKind::LeftParen) => true,
            (TokenKind::RightParen, TokenKind::RightParen) => true,
            (TokenKind::LeftBrace, TokenKind::LeftBrace) => true,
            (TokenKind::RightBrace, TokenKind::RightBrace) => true,
            (TokenKind::Comma, TokenKind::Comma) => true,
            (TokenKind::Dot, TokenKind::Dot) => true,
            (TokenKind::Minus, TokenKind::Minus) => true,
            (TokenKind::Plus, TokenKind::Plus) => true,
            (TokenKind::Semicolon, TokenKind::Semicolon) => true,
            (TokenKind::Slash, TokenKind::Slash) => true,
            (TokenKind::Star, TokenKind::Star) => true,
            (TokenKind::QuestionMark, TokenKind::QuestionMark) => true,
            (TokenKind::Colon, TokenKind::Colon) => true,
            (TokenKind::Bang, TokenKind::Bang) => true,
            (TokenKind::BangEqual, TokenKind::BangEqual) => true,
            (TokenKind::Equal, TokenKind::Equal) => true,
            (TokenKind::EqualEqual, TokenKind::EqualEqual) => true,
            (TokenKind::Greater, TokenKind::Greater) => true,
            (TokenKind::GreaterEqual, TokenKind::GreaterEqual) => true,
            (TokenKind::Less, TokenKind::Less) => true,
            (TokenKind::LessEqual, TokenKind::LessEqual) => true,
            (TokenKind::Identifier, TokenKind::Identifier) => true,
            (TokenKind::String, TokenKind::String) => true,
            (TokenKind::Number, TokenKind::Number) => true,
            (TokenKind::Keyword(l), TokenKind::Keyword(r)) => *l == *r,
            (TokenKind::Error(_), TokenKind::Error(_)) => true,
            (TokenKind::EOF, TokenKind::EOF) => true,
            _ => false,
        }
    }
}

impl PartialEqSpecImpl for TokenKind {
    open spec fn obeys_eq_spec() -> bool {
        true
    }

    open spec fn eq_spec(&self, other: &TokenKind) -> bool {
        self.same(*other)
    }
}

/// A token: its kind and its place in the source.
#[derive(Debug, Copy, Clone)]
pub struct Token {
    pub ty: TokenKind,
    pub position: Position,
}

impl Token {
    pub fn new(ty: TokenKind, position: Position) -> (token: Token)
        ensures
            token == (Token { ty, position }),
    {
        Token { ty, position }
    }
}

/// Binding strength of an operator, weakest first.
#[derive(Debug, Copy, Clone, PartialEq, Eq, Structural)]
pub enum Precedence {
    Lowest,
    Assignment,
    Or,
    And,
    Equality,
    Comparison,
    Term,
    Factor,
    Unary,
    Call,
    Primary,
}

impl Precedence {
    /// The place of the level in the order, from 0 for `Lowest` to 10 for
    /// `Primary`.
    pub open spec fn level(self) -> nat {
        match self {
            Precedence::Lowest => 0,
            Precedence::Assignment => 1,
            Precedence::Or => 2,
            Precedence::And => 3,
            Precedence::Equality => 4,
            Precedence::Comparison => 5,
            Precedence::Term => 6,
            Precedence::Factor => 7,
            Precedence::Unary => 8,
            Precedence::Call => 9,
            Precedence::Primary => 10,
        }
    }

    /// The level at a place in the order, if the order has that place.
    pub open spec fn at_level(level: nat) -> Option<Precedence> {
        if level == 0 {
            Some(Precedence::Lowest)
        } else if level == 1 {
            Some(Precedence::Assignment)
        } else if level == 2 {
            Some(Precedence::Or)
        } else if level == 3 {
            Some(Precedence::And)
        } else if level == 4 {
            Some(Precedence::Equality)
        } else if level == 5 {
            Some(Precedence::Comparison)
        } else if level == 6 {
            Some(Precedence::Term)
        } else if level == 7 {
            Some(Precedence::Factor)
        } else if level == 8 {
            Some(Precedence::Unary)
        } else if level == 9 {
            Some(Precedence::Call)
        } else if level == 10 {
            Some(Precedence::Primary)
        } else {
            None
        }
    }

    /// The place of the level in the order.
    pub fn rank(self) -> (rank: u32)
        ensures
            rank == self.level(),
            rank <= 10,
    {
        match self {
            Precedence::Lowest => 0,
            Precedence::Assignment => 1,
            Precedence::Or => 2,
            Precedence::And => 3,
            Precedence::Equality => 4,
            Precedence::Comparison => 5,
            Precedence::Term => 6,
            Precedence::Factor => 7,
            Precedence::Unary => 8,
            Precedence::Call => 9,
            Precedence::Primary => 10,
        }
    }

    /// The level at a place in the order; `None` beyond the strongest.
    pub fn of_rank(rank: u32) -> (precedence: Option<Precedence>)
        ensures
            precedence == Precedence::at_level(rank as nat),
            precedence.is_some() <==> rank <= 10,
    {
        match rank {
            0 => Some(Precedence::Lowest),
            1 => Some(Precedence::Assignment),
            2 => Some(Precedence::Or),
            3 => Some(Precedence::And),
            4 => Some(Precedence::Equality),
            5 => Some(Precedence::Comparison),
            6 => Some(Precedence::Term),
            7 => Some(Precedence::Factor),
            8 => Some(Precedence::Unary),
            9 => Some(Precedence::Call),
            10 => Some(Precedence::Primary),
            _ => None,
        }
    }

    /// The next stronger level; `Primary` is its own successor.
    pub fn next(self) -> (stronger: Precedence)
        ensures
            self != Precedence::Primary ==> stronger.level() == self.level() + 1,
            self == Precedence::Primary ==> stronger == Precedence::Primary,
    {
        match self {
            Precedence::Lowest => Precedence::Assignment,
            Precedence::Assignment => Precedence::Or,
            Precedence::Or => Precedence::And,
            Precedence::And => Precedence::Equality,
            Precedence::Equality => Precedence::Comparison,
            Precedence::Comparison => Precedence::Term,
            Precedence::Term => Precedence::Factor,
            Precedence::Factor => Precedence::Unary,
            Precedence::Unary => Precedence::Call,
            Precedence::Call => Precedence::Primary,
            Precedence::Primary => Precedence::Primary,
        }
    }

    /// Whether this level binds no more strongly than the other.
    pub fn at_most(self, other: Precedence) -> (weaker: bool)
        ensures
            weaker == (self.level() <= other.level()),
    {
        self.rank() <= other.rank()
    }

    /// The levels are totally ordered by their places, and a place names its
    /// level.
    pub proof fn lemma_level_order(a: Precedence, b: Precedence)
        ensures
            a.level() == b.level() <==> a == b,
            a.level() <= b.level() || b.level() <= a.level(),
            Precedence::at_level(a.level()) == Some(a),
    {
    }
}

} // verus!
