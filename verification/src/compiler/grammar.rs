//! What the compiler does, as functions on its state: the grammar of the
//! language together with the code emitted for it.
use crate::bytecode::number::Number;
use crate::bytecode::opcode::Opcode;
use crate::bytecode::value::{ValueView, MAX_CONSTANTS};
use crate::bytecode::variables::{
    declared_in_scope, innermost, trimmed, Local, MAX_LOCALS, UNINITIALIZED,
};
use crate::compiler::parser::{ParseFn, ParseRule};
use crate::compiler::scanner::scan;
use crate::compiler::token::{Keyword, Precedence, Token, TokenKind};
use crate::vm::machine::interned;
use vstd::prelude::*;

verus! {

/// The value of a numeral of the text: the offset at which the numeral
/// starts, and the number it denotes.
#[derive(Copy, Clone, Debug)]
pub struct Numeral {
    pub start: usize,
    pub value: Number,
}

/// A complaint of the compiler: the token it was looking at, and what is
/// wrong.
#[derive(Copy, Clone, Debug)]
pub struct Diagnostic {
    pub token: Option<Token>,
    pub message: &'static str,
}

/// Everything the compiler knows at a point of its pass.
pub struct CompilerState {
    /// The text, and the values of its numerals.
    pub src: Seq<u8>,
    pub numerals: Seq<Numeral>,
    /// Where the scanner reads on, and the line there.
    pub offset: int,
    pub line: usize,
    /// The token that comes next and the token read last.
    pub current: Option<Token>,
    pub previous: Option<Token>,
    /// The chunk built so far.
    pub code: Seq<u8>,
    pub lines: Seq<usize>,
    pub constants: Seq<ValueView>,
    /// The strings interned so far.
    pub strings: Seq<Seq<u8>>,
    /// The live locals and the depth of the current scope.
    pub locals: Seq<Local>,
    pub depth: usize,
    /// Whether an error was found, whether further errors are being
    /// swallowed, and the complaints made.
    pub had_error: bool,
    pub panic_mode: bool,
    pub diagnostics: Seq<Diagnostic>,
}

/// The bytes that a token spans; none where there is no token or where it
/// does not lie within the text.
pub open spec fn lexeme(src: Seq<u8>, token: Option<Token>) -> Seq<u8> {
    match token {
        Some(t) => if t.position.start <= t.position.end <= src.len() {
            src.subrange(t.position.start as int, t.position.end as int)
        } else {
            Seq::empty()
        },
        None => Seq::empty(),
    }
}

/// The bytes between the first and the last byte of a token.
pub open spec fn string_contents(src: Seq<u8>, token: Option<Token>) -> Seq<u8> {
    match token {
        Some(t) => if t.position.start + 2 <= t.position.end <= src.len() {
            src.subrange(t.position.start + 1, t.position.end - 1)
        } else {
            Seq::empty()
        },
        None => Seq::empty(),
    }
}

/// The value of the first numeral, at or after index `from`, that starts at
/// the given offset.
pub open spec fn numeral_value(numerals: Seq<Numeral>, from: int, start: usize) -> Option<Number>
    decreases numerals.len() - from,
{
    if from < 0 || from >= numerals.len() {
        None
    } else if numerals[from].start == start {
        Some(numerals[from].value)
    } else {
        numeral_value(numerals, from + 1, start)
    }
}

/// The statement keywords at which error recovery stops.
pub open spec fn starts_statement(kind: TokenKind) -> bool {
    match kind {
        TokenKind::Keyword(k) => k == Keyword::Class || k == Keyword::Fun || k == Keyword::Let || k
            == Keyword::For || k == Keyword::If || k == Keyword::While || k == Keyword::Print || k
            == Keyword::Return,
        _ => false,
    }
}

/// The handler that a token has at the start of an expression, and the
/// precedence listed with it.
pub open spec fn prefix_rule(kind: TokenKind) -> ParseRule {
    match kind {
        TokenKind::LeftParen => ParseRule {
            function: Some(ParseFn::Grouping),
            precedence: Precedence::Call,
        },
        TokenKind::Dot => ParseRule { function: None, precedence: Precedence::Call },
        TokenKind::Minus => ParseRule {
            function: Some(ParseFn::Unary),
            precedence: Precedence::Term,
        },
        TokenKind::Plus => ParseRule { function: None, precedence: Precedence::Term },
        TokenKind::Slash => ParseRule { function: None, precedence: Precedence::Factor },
        TokenKind::Star => ParseRule { function: None, precedence: Precedence::Factor },
        TokenKind::Bang => ParseRule {
            function: Some(ParseFn::Unary),
            precedence: Precedence::Lowest,
        },
        TokenKind::BangEqual => ParseRule { function: None, precedence: Precedence::Equality },
        TokenKind::EqualEqual => ParseRule { function: None, precedence: Precedence::Equality },
        TokenKind::Less => ParseRule { function: None, precedence: Precedence::Comparison },
        TokenKind::LessEqual => ParseRule { function: None, precedence: Precedence::Comparison },
        TokenKind::Greater => ParseRule { function: None, precedence: Precedence::Comparison },
        TokenKind::GreaterEqual => ParseRule { function: None, precedence: Precedence::Comparison },
        TokenKind::Identifier => ParseRule {
            function: Some(ParseFn::Variable),
            precedence: Precedence::Lowest,
        },
        TokenKind::String => ParseRule {
            function: Some(ParseFn::String),
            precedence: Precedence::Lowest,
        },
        TokenKind::Number => ParseRule {
            function: Some(ParseFn::Number),
            precedence: Precedence::Lowest,
        },
        TokenKind::Keyword(keyword) => match keyword {
            Keyword::And => ParseRule { function: None, precedence: Precedence::And },
            Keyword::Or => ParseRule { function: None, precedence: Precedence::Or },
            Keyword::False | Keyword::Nil | Keyword::True => ParseRule {
                function: Some(ParseFn::Literal),
                precedence: Precedence::Lowest,
            },
            _ => ParseRule { function: None, precedence: Precedence::Lowest },
        },
        _ => ParseRule { function: None, precedence: Precedence::Lowest },
    }
}

/// The handler that a token has between two operands, and how strongly it
/// binds.
pub open spec fn infix_rule(kind: TokenKind) -> ParseRule {
    match kind {
        TokenKind::LeftParen => ParseRule { function: None, precedence: Precedence::Call },
        TokenKind::Dot => ParseRule { function: None, precedence: Precedence::Call },
        TokenKind::Minus | TokenKind::Plus => ParseRule {
            function: Some(ParseFn::Binary),
            precedence: Precedence::Term,
        },
        TokenKind::Slash | TokenKind::Star => ParseRule {
            function: Some(ParseFn::Binary),
            precedence: Precedence::Factor,
        },
        TokenKind::BangEqual | TokenKind::EqualEqual => ParseRule {
            function: Some(ParseFn::Binary),
            precedence: Precedence::Equality,
        },
        TokenKind::Less
        | TokenKind::LessEqual
        | TokenKind::Greater
        | TokenKind::GreaterEqual => ParseRule {
            function: Some(ParseFn::Binary),
            precedence: Precedence::Comparison,
        },
        TokenKind::Number => ParseRule {
            function: Some(ParseFn::Number),
            precedence: Precedence::Lowest,
        },
        TokenKind::Keyword(keyword) => match keyword {
            Keyword::And => ParseRule { function: None, precedence: Precedence::And },
            Keyword::Or => ParseRule { function: None, precedence: Precedence::Or },
            _ => ParseRule { function: None, precedence: Precedence::Lowest },
        },
        _ => ParseRule { function: None, precedence: Precedence::Lowest },
    }
}

impl CompilerState {
    /// The state before anything is read.
    pub open spec fn initial(src: Seq<u8>, numerals: Seq<Numeral>) -> CompilerState {
        CompilerState {
            src,
            numerals,
            offset: 0,
            line: 1,
            current: None,
            previous: None,
            code: Seq::empty(),
            lines: Seq::empty(),
            constants: Seq::empty(),
            strings: Seq::empty(),
            locals: Seq::empty(),
            depth: 0,
            had_error: false,
            panic_mode: false,
            diagnostics: Seq::empty(),
        }
    }

    /// Whether the next token is of the given kind.
    pub open spec fn at(self, kind: TokenKind) -> bool {
        self.current.is_some() && self.current.unwrap().ty.same(kind)
    }

    /// A measure of the input that is left: the bytes that the scanner has
    /// not read, and one more until the end of the text has been seen.
    pub open spec fn remaining(self) -> nat {
        let unread = if self.offset <= self.src.len() {
            self.src.len() - self.offset
        } else {
            0
        };
        if self.at(TokenKind::EOF) {
            unread as nat
        } else {
            (unread + 1) as nat
        }
    }

    /// The kind of the next token; `EOF` before anything is read.
    pub open spec fn current_kind(self) -> TokenKind {
        match self.current {
            Some(token) => token.ty,
            None => TokenKind::EOF,
        }
    }

    /// The kind of the token read last; `EOF` before two tokens are read.
    pub open spec fn previous_kind(self) -> TokenKind {
        match self.previous {
            Some(token) => token.ty,
            None => TokenKind::EOF,
        }
    }

    /// The line of the token read last, with which emitted code is tagged.
    pub open spec fn previous_line(self) -> usize {
        match self.previous {
            Some(token) => token.position.line,
            None => 0,
        }
    }

    /// Complains about a token. The first complaint starts panic mode, in
    /// which further complaints are swallowed.
    pub open spec fn error_at(self, token: Option<Token>, message: &'static str) -> CompilerState {
        if self.panic_mode {
            self
        } else {
            CompilerState {
                had_error: true,
                panic_mode: true,
                diagnostics: self.diagnostics.push(Diagnostic { token, message }),
                ..self
            }
        }
    }

    /// Complains about the next token.
    pub open spec fn error(self, message: &'static str) -> CompilerState {
        self.error_at(self.current, message)
    }

    /// Moves on by one token, complaining if the new token is a scanner
    /// error.
    pub open spec fn advance(self) -> CompilerState {
        let (token, offset, line) = scan(self.src, self.offset, self.line);
        let moved = CompilerState {
            previous: self.current,
            current: Some(token),
            offset,
            line,
            ..self
        };
        match token.ty {
            TokenKind::Error(message) => moved.error(message),
            _ => moved,
        }
    }

    /// Moves past the next token if it is of the given kind, and complains
    /// otherwise.
    pub open spec fn consume(self, kind: TokenKind, message: &'static str) -> CompilerState {
        if self.at(kind) {
            self.advance()
        } else {
            self.error(message)
        }
    }

    /// Moves past the next token if it is of the given kind.
    pub open spec fn try_consume(self, kind: TokenKind) -> CompilerState {
        if self.at(kind) {
            self.advance()
        } else {
            self
        }
    }

    /// Appends a byte of code, tagged with the line of the token read last.
    pub open spec fn emit_byte(self, byte: u8) -> CompilerState {
        CompilerState {
            code: self.code.push(byte),
            lines: self.lines.push(self.previous_line()),
            ..self
        }
    }

    /// Appends an instruction.
    pub open spec fn emit_op(self, op: Opcode) -> CompilerState {
        self.emit_byte(op.byte())
    }

    /// Appends two bytes of code.
    pub open spec fn emit_bytes(self, first: u8, second: u8) -> CompilerState {
        self.emit_byte(first).emit_byte(second)
    }

    /// Interns a string.
    pub open spec fn intern(self, text: Seq<u8>) -> CompilerState {
        CompilerState { strings: interned(self.strings, text), ..self }
    }

    /// Adds a constant to the pool and gives its index; complains, and gives
    /// 0, where the pool is full.
    pub open spec fn make_constant(self, value: ValueView) -> (CompilerState, u8) {
        if self.constants.len() < MAX_CONSTANTS {
            (
                CompilerState { constants: self.constants.push(value), ..self },
                self.constants.len() as u8,
            )
        } else {
            (self.error("Too many constants in one chunk."), 0u8)
        }
    }

    /// Adds a constant and emits the instruction that pushes it.
    pub open spec fn emit_constant(self, value: ValueView) -> CompilerState {
        let (made, index) = self.make_constant(value);
        made.emit_bytes(Opcode::Push.byte(), index)
    }

    /// Inside a block, declares the token read last as a local, not yet
    /// initialized; complains where 255 locals are live or the scope has
    /// the name already.
    pub open spec fn declare_variable(self) -> CompilerState {
        if self.depth == 0 {
            self
        } else {
            match self.previous {
                None => self,
                Some(name) => if self.locals.len() >= MAX_LOCALS {
                    self.error("Too many local variables in current function")
                } else if declared_in_scope(self.locals, self.depth, self.src, &name) {
                    self.error("Variable with this name already exists in this scope.")
                } else {
                    CompilerState {
                        locals: self.locals.push(Local { name, depth: UNINITIALIZED }),
                        ..self
                    }
                },
            }
        }
    }

    /// Reads the name of a variable being declared. Inside a block the name
    /// becomes a local; outside, it becomes a string constant, whose index
    /// is given.
    pub open spec fn parse_variable(self, message: &'static str) -> (CompilerState, u8) {
        let declared = self.consume(TokenKind::Identifier, message).declare_variable();
        if declared.depth > 0 {
            (declared, 0u8)
        } else {
            let name = lexeme(declared.src, declared.previous);
            declared.intern(name).make_constant(ValueView::Str(name))
        }
    }

    /// Ends a declaration: inside a block the local declared last counts as
    /// initialized; outside, the value on the stack is bound to the global
    /// name.
    pub open spec fn define_variable(self, global: u8) -> CompilerState {
        if self.depth > 0 {
            if self.locals.len() > 0 {
                CompilerState {
                    locals: self.locals.drop_last().push(
                        Local { name: self.locals.last().name, depth: self.depth },
                    ),
                    ..self
                }
            } else {
                self
            }
        } else {
            self.emit_bytes(Opcode::DefineGlobal.byte(), global)
        }
    }

    /// Emits `count` `POP` instructions.
    pub open spec fn pop_locals(self, count: nat) -> CompilerState
        decreases count,
    {
        if count == 0 {
            self
        } else {
            self.emit_op(Opcode::Pop).pop_locals((count - 1) as nat)
        }
    }

    /// Enters a block.
    pub open spec fn begin_scope(self) -> CompilerState {
        CompilerState { depth: (self.depth + 1) as usize, ..self }
    }

    /// Leaves a block: drops the locals of the block, and emits a `POP` for
    /// each so that the machine's stack follows.
    pub open spec fn end_scope(self) -> CompilerState {
        if self.depth == 0 {
            self
        } else {
            let outer = (self.depth - 1) as usize;
            let kept = trimmed(self.locals, outer);
            CompilerState { depth: outer, locals: kept, ..self }.pop_locals(
                (self.locals.len() - kept.len()) as nat,
            )
        }
    }

    /// Skips tokens up to a place where a statement may start: after a
    /// semicolon, or before a keyword that begins a statement. Panic mode
    /// ends.
    pub open spec fn synchronize(self) -> CompilerState {
        CompilerState { panic_mode: false, ..self }.skip_to_statement()
    }

    /// The skipping of `synchronize`.
    pub open spec fn skip_to_statement(self) -> CompilerState
        decreases self.remaining(),
    {
        if self.at(TokenKind::EOF) || self.current.is_none() {
            self
        } else if self.previous_kind().same(TokenKind::Semicolon) {
            self
        } else if starts_statement(self.current_kind()) {
            self
        } else {
            let next = self.advance();
            if next.remaining() < self.remaining() {
                next.skip_to_statement()
            } else {
                next
            }
        }
    }

    /// A literal: `true`, `false` or `nil`.
    pub open spec fn literal(self) -> CompilerState {
        match self.previous_kind() {
            TokenKind::Keyword(Keyword::True) => self.emit_op(Opcode::True),
            TokenKind::Keyword(Keyword::False) => self.emit_op(Opcode::False),
            TokenKind::Keyword(Keyword::Nil) => self.emit_op(Opcode::Nil),
            _ => self,
        }
    }

    /// A numeral: pushes its value as a constant. Complains where the
    /// numerals given hold none for its place.
    pub open spec fn number(self) -> CompilerState {
        match self.previous {
            None => self,
            Some(token) => match numeral_value(self.numerals, 0, token.position.start) {
                Some(value) => self.emit_constant(ValueView::Number(value)),
                None => self.error("No value is known for this numeral."),
            },
        }
    }

    /// A string: interns what stands between its quotes and pushes it as a
    /// constant.
    pub open spec fn string(self) -> CompilerState {
        let text = string_contents(self.src, self.previous);
        self.intern(text).emit_constant(ValueView::Str(text))
    }

    /// The instruction that ends a unary expression.
    pub open spec fn unary_op(self, operator: TokenKind) -> CompilerState {
        match operator {
            TokenKind::Minus => self.emit_op(Opcode::Neg),
            TokenKind::Bang => self.emit_op(Opcode::Not),
            _ => self,
        }
    }

    /// The instructions that end a binary expression.
    pub open spec fn binary_op(self, operator: TokenKind) -> CompilerState {
        match operator {
            TokenKind::Plus => self.emit_op(Opcode::Add),
            TokenKind::Minus => self.emit_op(Opcode::Sub),
            TokenKind::Star => self.emit_op(Opcode::Mul),
            TokenKind::Slash => self.emit_op(Opcode::Div),
            TokenKind::BangEqual => self.emit_bytes(Opcode::Eq.byte(), Opcode::Not.byte()),
            TokenKind::EqualEqual => self.emit_op(Opcode::Eq),
            TokenKind::GreaterEqual => self.emit_bytes(Opcode::Lt.byte(), Opcode::Not.byte()),
            TokenKind::Greater => self.emit_op(Opcode::Gt),
            TokenKind::LessEqual => self.emit_bytes(Opcode::Gt.byte(), Opcode::Not.byte()),
            TokenKind::Less => self.emit_op(Opcode::Lt),
            _ => self,
        }
    }

    /// How a variable named by the token read last is reached: the
    /// instructions that read and write it and their operand. A live local
    /// of that name is reached by its slot, and a complaint is made where it
    /// is not yet initialized; any other name is a global, reached by a
    /// string constant.
    pub open spec fn resolve_variable(self) -> (CompilerState, Opcode, Opcode, u8) {
        let name = lexeme(self.src, self.previous);
        let known = self.intern(name);
        match innermost(known.locals, known.src, name) {
            Some(slot) => {
                let checked = if known.locals[slot].depth == UNINITIALIZED {
                    known.error("Cannot read variable in own initializer.")
                } else {
                    known
                };
                (checked, Opcode::GetLocal, Opcode::SetLocal, slot as u8)
            },
            None => {
                let (made, index) = known.make_constant(ValueView::Str(name));
                (made, Opcode::GetGlobal, Opcode::SetGlobal, index)
            },
        }
    }
}

/// An expression whose operators bind at least as strongly as `precedence`.
/// Assignment is accepted only where `precedence` admits it.
pub open spec fn parse_precedence(s: CompilerState, precedence: Precedence) -> CompilerState
    decreases s.remaining(), 4nat,
{
    let s1 = s.advance();
    let can_assign = precedence.level() <= Precedence::Assignment.level();
    match prefix_rule(s1.previous_kind()).function {
        None => s1.error_at(s1.previous, "Expected expression."),
        Some(function) => if s1.remaining() < s.remaining() {
            let s2 = prefix(s1, function, can_assign);
            if s2.remaining() <= s1.remaining() {
                let s3 = infix_loop(s2, precedence);
                if can_assign && s3.at(TokenKind::Equal) && s3.remaining() <= s2.remaining() {
                    let s4 = s3.advance().error("Invalid assignment target.");
                    if s4.remaining() < s.remaining() {
                        expression(s4)
                    } else {
                        s4
                    }
                } else {
                    s3
                }
            } else {
                s2
            }
        } else {
            s1
        },
    }
}

/// The operators and right operands that follow a left operand, as long as
/// they bind at least as strongly as `precedence`.
pub open spec fn infix_loop(s: CompilerState, precedence: Precedence) -> CompilerState
    decreases s.remaining(), 9nat,
{
    if s.current.is_some() && precedence.level() <= infix_rule(
        s.current_kind(),
    ).precedence.level() {
        let s1 = s.advance();
        if s1.remaining() < s.remaining() {
            let s2 = match infix_rule(s1.previous_kind()).function {
                Some(function) => prefix(s1, function, false),
                None => s1,
            };
            if s2.remaining() <= s1.remaining() {
                infix_loop(s2, precedence)
            } else {
                s2
            }
        } else {
            s1
        }
    } else {
        s
    }
}

/// What a handler of the precedence table does, the token that selected it
/// having been read.
pub open spec fn prefix(s: CompilerState, function: ParseFn, can_assign: bool) -> CompilerState
    decreases s.remaining(), 9nat,
{
    match function {
        ParseFn::Grouping => grouping(s),
        ParseFn::Unary => unary(s),
        ParseFn::Binary => binary(s),
        ParseFn::Number => s.number(),
        ParseFn::Literal => s.literal(),
        ParseFn::String => s.string(),
        ParseFn::Variable => variable(s, can_assign),
    }
}

/// An expression in parentheses.
pub open spec fn grouping(s: CompilerState) -> CompilerState
    decreases s.remaining(), 8nat,
{
    expression(s).consume(TokenKind::RightParen, "Expected ')' after expression.")
}

/// The operand of a unary operator, then the operator's instruction.
pub open spec fn unary(s: CompilerState) -> CompilerState
    decreases s.remaining(), 5nat,
{
    parse_precedence(s, Precedence::Unary).unary_op(s.previous_kind())
}

/// The right operand of a binary operator, which binds more strongly than
/// the operator, then the operator's instructions.
pub open spec fn binary(s: CompilerState) -> CompilerState
    decreases s.remaining(), 5nat,
{
    let operator = s.previous_kind();
    parse_precedence(s, next_level(infix_rule(operator).precedence)).binary_op(operator)
}

/// The next stronger level.
pub open spec fn next_level(precedence: Precedence) -> Precedence {
    match Precedence::at_level(precedence.level() + 1) {
        Some(stronger) => stronger,
        None => precedence,
    }
}

/// A variable: read, or assigned where assignment is admitted and an equals
/// sign follows.
pub open spec fn variable(s: CompilerState, can_assign: bool) -> CompilerState
    decreases s.remaining(), 8nat,
{
    let (resolved, get_op, set_op, operand) = s.resolve_variable();
    if can_assign && resolved.at(TokenKind::Equal) {
        let s1 = resolved.advance();
        if s1.remaining() < s.remaining() {
            expression(s1).emit_bytes(set_op.byte(), operand)
        } else {
            s1
        }
    } else {
        resolved.emit_bytes(get_op.byte(), operand)
    }
}

/// An expression.
pub open spec fn expression(s: CompilerState) -> CompilerState
    decreases s.remaining(), 6nat,
{
    parse_precedence(s, Precedence::Assignment)
}

/// `print` and an expression: the value is printed.
pub open spec fn print_statement(s: CompilerState) -> CompilerState
    decreases s.remaining(), 10nat,
{
    expression(s).consume(TokenKind::Semicolon, "Expected ';' after expression.").emit_op(
        Opcode::Print,
    )
}

/// An expression as a statement: the value is dropped.
pub open spec fn expression_statement(s: CompilerState) -> CompilerState
    decreases s.remaining(), 10nat,
{
    expression(s).consume(TokenKind::Semicolon, "Expected ';' after expression.").emit_op(
        Opcode::Pop,
    )
}

/// The declarations of a block, up to its closing brace.
pub open spec fn block(s: CompilerState) -> CompilerState
    decreases s.remaining(), 16nat,
{
    if s.at(TokenKind::RightBrace) || s.at(TokenKind::EOF) || s.current.is_none() {
        s.consume(TokenKind::RightBrace, "Expected '}' after block.")
    } else {
        let s1 = declaration(s);
        if s1.remaining() < s.remaining() {
            block(s1)
        } else {
            s1
        }
    }
}

/// A statement: `print`, a block in a scope of its own, or an expression.
pub open spec fn statement(s: CompilerState) -> CompilerState
    decreases s.remaining(), 11nat,
{
    if s.at(TokenKind::Keyword(Keyword::Print)) {
        let s1 = s.advance();
        if s1.remaining() <= s.remaining() {
            print_statement(s1)
        } else {
            s1
        }
    } else if s.at(TokenKind::LeftBrace) {
        let s1 = s.advance();
        if s1.remaining() < s.remaining() {
            if s1.depth < usize::MAX - 1 {
                block(s1.begin_scope()).end_scope()
            } else {
                block(s1.error("Too many nested blocks."))
            }
        } else {
            s1
        }
    } else {
        expression_statement(s)
    }
}

/// `let`, a name, and an initializer, which defaults to `nil`.
pub open spec fn let_declaration(s: CompilerState) -> CompilerState
    decreases s.remaining(), 11nat,
{
    let (named, global) = s.parse_variable("Expected variable name");
    let valued = if named.at(TokenKind::Equal) {
        let s1 = named.advance();
        if s1.remaining() <= s.remaining() {
            expression(s1)
        } else {
            s1
        }
    } else {
        named.emit_op(Opcode::Nil)
    };
    valued.consume(
        TokenKind::Semicolon,
        "Expected ';' after variable declaration",
    ).define_variable(global)
}

/// A declaration or a statement. After an error, tokens are skipped up to
/// the next place where a statement may start.
pub open spec fn declaration(s: CompilerState) -> CompilerState
    decreases s.remaining(), 12nat,
{
    let done = if s.at(TokenKind::Keyword(Keyword::Let)) {
        let s1 = s.advance();
        if s1.remaining() <= s.remaining() {
            let_declaration(s1)
        } else {
            s1
        }
    } else {
        statement(s)
    };
    if done.panic_mode {
        done.synchronize()
    } else {
        done
    }
}

/// The declarations of a program, up to the end of the text.
pub open spec fn program(s: CompilerState) -> CompilerState
    decreases s.remaining(),
{
    if s.at(TokenKind::EOF) || s.current.is_none() {
        s.try_consume(TokenKind::EOF)
    } else {
        let s1 = declaration(s);
        if s1.remaining() < s.remaining() {
            program(s1)
        } else {
            s1
        }
    }
}

/// The state in which compiling a text ends: the whole program is read and
/// a final `RET` is emitted.
pub open spec fn compiled(src: Seq<u8>, numerals: Seq<Numeral>) -> CompilerState {
    program(CompilerState::initial(src, numerals).advance()).emit_op(Opcode::Ret)
}

} // verus!
