use crate::bytecode::chunk::Chunk;
use crate::bytecode::number::Number;
use crate::bytecode::opcode::Opcode;
use crate::bytecode::strings::{get_or_insert_string, InternMap};
use crate::bytecode::value::Value;
use crate::bytecode::variables::{LocalError, LocalMap};
use crate::compiler::grammar::{
    binary, block, compiled, declaration, expression, expression_statement, grouping, infix_loop,
    infix_rule, let_declaration, lexeme, numeral_value, parse_precedence, prefix, prefix_rule,
    print_statement, program, statement, string_contents, unary, variable, CompilerState,
    Diagnostic, Numeral,
};
use crate::compiler::parser::{ParseFn, ParseRule, Parser};
use crate::compiler::scanner::{lemma_scan_progress, Scanner};
use crate::compiler::source::Source;
use crate::compiler::token::{Keyword, Precedence, Token, TokenKind};
use crate::text::to_bytes;
use crate::vm::machine::ChunkView;
use vstd::prelude::*;
use vstd::slice::slice_subrange;

verus! {

/// Compiles a text to a chunk in a single pass over its tokens.
pub struct Compiler<'src> {
    source: Source<'src>,
    chunk: Chunk,
    scanner: Scanner<'src>,
    parser: Parser<'src>,
    strings: InternMap,
    locals: LocalMap,
    numerals: Vec<Numeral>,
    diagnostics: Vec<Diagnostic>,
    pub had_error: bool,
    pub panic_mode: bool,
}

/// The failure of a compilation, with the complaints made.
#[derive(Debug)]
pub struct CompileError {
    pub diagnostics: Vec<Diagnostic>,
}

pub type CompileResult = Result<(Chunk, InternMap, LocalMap), CompileError>;

/// Whether a result is the one that compilation ends with in the given
/// state: the chunk, the interned strings and the locals where no error was
/// found, the complaints otherwise.
pub open spec fn result_of(result: CompileResult, end: CompilerState) -> bool {
    match result {
        Ok((chunk, strings, locals)) => {
            &&& !end.had_error
            &&& chunk@ == (ChunkView { code: end.code, constants: end.constants, lines: end.lines })
            &&& strings@ == end.strings
            &&& locals.entries() == end.locals
            &&& locals.depth() == end.depth
        },
        Err(error) => end.had_error && error.diagnostics@ == end.diagnostics,
    }
}

impl<'src> View for Compiler<'src> {
    type V = CompilerState;

    closed spec fn view(&self) -> CompilerState {
        CompilerState {
            src: self.source.bytes(),
            numerals: self.numerals@,
            offset: self.scanner.offset() as int,
            line: self.scanner.line_number(),
            current: self.parser.current,
            previous: self.parser.previous,
            code: self.chunk.code@,
            lines: self.chunk.lines@,
            constants: self.chunk.constants@,
            strings: self.strings@,
            locals: self.locals.entries(),
            depth: self.locals.depth(),
            had_error: self.had_error,
            panic_mode: self.panic_mode,
            diagnostics: self.diagnostics@,
        }
    }
}

impl<'src> Compiler<'src> {
    /// The parts of the compiler fit together.
    pub closed spec fn inv(&self) -> bool {
        &&& self.scanner.wf()
        &&& self.scanner.bytes() == self.source.bytes()
        &&& self.chunk.wf()
        &&& self.locals.wf()
    }

    /// A compiler at the start of the text. `numerals` holds the value of
    /// each numeral of the text, with the offset at which it starts.
    pub fn new(source: Source<'src>, numerals: Vec<Numeral>) -> (compiler: Compiler<'src>)
        ensures
            compiler.inv(),
            compiler@ == CompilerState::initial(source.bytes(), numerals@),
    {
        Compiler {
            source,
            chunk: Chunk::new(),
            scanner: Scanner::new(source),
            parser: Parser::new(source),
            strings: InternMap::new(),
            locals: LocalMap::new(),
            numerals,
            diagnostics: Vec::new(),
            had_error: false,
            panic_mode: false,
        }
    }

    /// The complaints made so far.
    pub fn diagnostics(&self) -> (diagnostics: &Vec<Diagnostic>)
        ensures
            diagnostics@ == self@.diagnostics,
    {
        &self.diagnostics
    }

    /// Whether the next token is of the given kind.
    fn check(&self, token_kind: &TokenKind) -> (is_next: bool)
        ensures
            is_next == self@.at(*token_kind),
    {
        self.parser.check(token_kind)
    }

    /// Moves past the next token if it is of the given kind, and says
    /// whether it did.
    pub fn try_consume(&mut self, token_kind: &TokenKind) -> (consumed: bool)
        requires
            old(self).inv(),
        ensures
            final(self).inv(),
            consumed == old(self)@.at(*token_kind),
            final(self)@ == old(self)@.try_consume(*token_kind),
            final(self)@.remaining() <= old(self)@.remaining(),
            final(self)@.depth == old(self)@.depth,
            consumed && !old(self)@.at(TokenKind::EOF) ==> final(self)@.remaining() < old(
                self,
            )@.remaining(),
    {
        if self.check(token_kind) {
            self.advance();
            true
        } else {
            false
        }
    }

    /// Moves past the next token if it is of the given kind, and complains
    /// with the message otherwise.
    pub fn consume(&mut self, token_kind: &TokenKind, message: &'static str)
        requires
            old(self).inv(),
        ensures
            final(self).inv(),
            final(self)@ == old(self)@.consume(*token_kind, message),
            final(self)@.remaining() <= old(self)@.remaining(),
            final(self)@.depth == old(self)@.depth,
    {
        if self.check(token_kind) {
            self.advance();
        } else {
            self.do_error(message);
        }
    }

    /// Compiles the whole text. The compiler has to be fresh. The result is
    /// the chunk with the strings it interned and the locals left, or, where
    /// an error was found, the complaints.
    pub fn compile(self) -> (result: CompileResult)
        requires
            self.inv(),
            self@ == CompilerState::initial(self@.src, self@.numerals),
        ensures
            result_of(result, compiled(self@.src, self@.numerals)),
    {
        let mut compiler = self;
        let ghost start = compiler@;
        compiler.advance();
        while !(compiler.check(&TokenKind::EOF) || compiler.parser.current.is_none())
            invariant
                compiler.inv(),
                program(compiler@) == program(start.advance()),
            decreases compiler@.remaining(),
        {
            compiler.declaration();
        }
        compiler.try_consume(&TokenKind::EOF);
        compiler.emit_return();
        if compiler.had_error {
            Err(CompileError { diagnostics: compiler.diagnostics })
        } else {
            Ok((compiler.chunk, compiler.strings, compiler.locals))
        }
    }

    /// Compiles one declaration or statement.
    pub fn declaration(&mut self)
        requires
            old(self).inv(),
        ensures
            final(self).inv(),
            final(self)@ == declaration(old(self)@),
            final(self)@.remaining() <= old(self)@.remaining(),
            final(self)@.depth == old(self)@.depth,
            !old(self)@.at(TokenKind::EOF) ==> final(self)@.remaining() < old(self)@.remaining(),
        decreases old(self)@.remaining(), 12nat,
    {
        if self.check(&TokenKind::Keyword(Keyword::Let)) {
            self.advance();
            self.let_declaration();
        } else {
            self.statement();
        }
        if self.panic_mode {
            self.synchronize()
        }
    }

    fn let_declaration(&mut self)
        requires
            old(self).inv(),
        ensures
            final(self).inv(),
            final(self)@ == let_declaration(old(self)@),
            final(self)@.remaining() <= old(self)@.remaining(),
            final(self)@.depth == old(self)@.depth,
        decreases old(self)@.remaining(), 11nat,
    {
        let global: u8 = self.parse_variable("Expected variable name");
        if self.check(&TokenKind::Equal) {
            self.advance();
            self.expression();
        } else {
            self.emit_byte(Opcode::Nil.encode());
        }
        self.consume(&TokenKind::Semicolon, "Expected ';' after variable declaration");
        self.define_variable(global);
    }

    fn define_variable(&mut self, global: u8)
        requires
            old(self).inv(),
        ensures
            final(self).inv(),
            final(self)@ == old(self)@.define_variable(global),
            final(self)@.remaining() == old(self)@.remaining(),
            final(self)@.depth == old(self)@.depth,
    {
        if self.locals.in_scope() {
            self.locals.mark_initialized();
            return ;
        }
        self.emit_bytes(Opcode::DefineGlobal.encode(), global);
    }

    fn parse_variable(&mut self, error_message: &'static str) -> (global: u8)
        requires
            old(self).inv(),
        ensures
            final(self).inv(),
            (final(self)@, global) == old(self)@.parse_variable(error_message),
            final(self)@.remaining() <= old(self)@.remaining(),
            final(self)@.depth == old(self)@.depth,
    {
        self.consume(&TokenKind::Identifier, error_message);
        self.declare_variable();
        if self.locals.in_scope() {
            return 0;
        }
        let name: Vec<u8> = to_bytes(self.previous_lexeme());
        let identifier: Vec<u8> = get_or_insert_string(name.as_slice(), &mut self.strings);
        self.make_identifier_constant(identifier)
    }

    fn declare_variable(&mut self)
        requires
            old(self).inv(),
        ensures
            final(self).inv(),
            final(self)@ == old(self)@.declare_variable(),
            final(self)@.remaining() == old(self)@.remaining(),
            final(self)@.depth == old(self)@.depth,
    {
        if !self.locals.in_scope() {
            return ;
        }
        match self.parser.previous {
            None => {},
            Some(name) => {
                match self.locals.add(name, &self.source) {
                    Ok(()) => {},
                    Err(LocalError::TooMany) => {
                        self.do_error("Too many local variables in current function");
                    },
                    Err(LocalError::Duplicate) => {
                        self.do_error("Variable with this name already exists in this scope.");
                    },
                }
            },
        }
    }

    fn make_identifier_constant(&mut self, identifier: Vec<u8>) -> (index: u8)
        requires
            old(self).inv(),
        ensures
            final(self).inv(),
            (final(self)@, index) == old(self)@.make_constant(
                crate::bytecode::value::ValueView::Str(identifier@),
            ),
            final(self)@.remaining() == old(self)@.remaining(),
            final(self)@.depth == old(self)@.depth,
    {
        self.make_constant(Value::string(identifier.as_slice()))
    }

    fn statement(&mut self)
        requires
            old(self).inv(),
        ensures
            final(self).inv(),
            final(self)@ == statement(old(self)@),
            final(self)@.remaining() <= old(self)@.remaining(),
            final(self)@.depth == old(self)@.depth,
            !old(self)@.at(TokenKind::EOF) ==> final(self)@.remaining() < old(self)@.remaining(),
        decreases old(self)@.remaining(), 11nat,
    {
        if self.check(&TokenKind::Keyword(Keyword::Print)) {
            self.advance();
            self.print_statement();
        } else if self.check(&TokenKind::LeftBrace) {
            self.advance();
            if self.locals.scope_depth() < usize::MAX - 1 {
                self.locals.begin_scope();
                self.block();
                let num_pops: u8 = self.locals.end_scope();
                self.pop_locals(num_pops);
            } else {
                self.do_error("Too many nested blocks.");
                self.block();
            }
        } else {
            self.expression_statement();
        }
    }

    fn pop_locals(&mut self, num_pops: u8)
        requires
            old(self).inv(),
        ensures
            final(self).inv(),
            final(self)@ == old(self)@.pop_locals(num_pops as nat),
            final(self)@.remaining() == old(self)@.remaining(),
            final(self)@.depth == old(self)@.depth,
    {
        let mut left: u8 = num_pops;
        while left > 0
            invariant
                self.inv(),
                self@.pop_locals(left as nat) == old(self)@.pop_locals(num_pops as nat),
                self@.remaining() == old(self)@.remaining(),
                self@.depth == old(self)@.depth,
            decreases left,
        {
            self.emit_byte(Opcode::Pop.encode());
            left -= 1;
        }
    }

    fn block(&mut self)
        requires
            old(self).inv(),
        ensures
            final(self).inv(),
            final(self)@ == block(old(self)@),
            final(self)@.remaining() <= old(self)@.remaining(),
            final(self)@.depth == old(self)@.depth,
        decreases old(self)@.remaining(), 16nat,
    {
        while !(self.check(&TokenKind::RightBrace) || self.check(&TokenKind::EOF)
            || self.parser.current.is_none())
            invariant
                self.inv(),
                block(self@) == block(old(self)@),
                self@.remaining() <= old(self)@.remaining(),
                self@.depth == old(self)@.depth,
            decreases self@.remaining(),
        {
            self.declaration();
        }
        self.consume(&TokenKind::RightBrace, "Expected '}' after block.");
    }

    fn expression_statement(&mut self)
        requires
            old(self).inv(),
        ensures
            final(self).inv(),
            final(self)@ == expression_statement(old(self)@),
            final(self)@.remaining() <= old(self)@.remaining(),
            final(self)@.depth == old(self)@.depth,
            !old(self)@.at(TokenKind::EOF) ==> final(self)@.remaining() < old(self)@.remaining(),
        decreases old(self)@.remaining(), 10nat,
    {
        self.expression();
        self.consume(&TokenKind::Semicolon, "Expected ';' after expression.");
        self.emit_byte(Opcode::Pop.encode())
    }

    fn print_statement(&mut self)
        requires
            old(self).inv(),
        ensures
            final(self).inv(),
            final(self)@ == print_statement(old(self)@),
            final(self)@.remaining() <= old(self)@.remaining(),
            final(self)@.depth == old(self)@.depth,
        decreases old(self)@.remaining(), 10nat,
    {
        self.expression();
        self.consume(&TokenKind::Semicolon, "Expected ';' after expression.");
        self.emit_byte(Opcode::Print.encode());
    }

    /// The value that the numerals list for the numeral that starts at the
    /// given offset.
    fn find_numeral(&self, start: usize) -> (value: Option<Number>)
        ensures
            value == numeral_value(self.numerals@, 0, start),
    {
        let mut i: usize = 0;
        while i < self.numerals.len()
            invariant
                i <= self.numerals@.len(),
                numeral_value(self.numerals@, i as int, start) == numeral_value(
                    self.numerals@,
                    0,
                    start,
                ),
            decreases self.numerals@.len() - i,
        {
            if self.numerals[i].start == start {
                return Some(self.numerals[i].value);
            }
            i += 1;
        }
        None
    }

    fn number(&mut self)
        requires
            old(self).inv(),
        ensures
            final(self).inv(),
            final(self)@ == old(self)@.number(),
            final(self)@.remaining() == old(self)@.remaining(),
            final(self)@.depth == old(self)@.depth,
    {
        match self.parser.previous {
            None => {},
            Some(token) => {
                match self.find_numeral(token.position.start) {
                    Some(value) => self.emit_constant(Value::Number(value)),
                    None => self.do_error("No value is known for this numeral."),
                }
            },
        }
    }

    fn literal(&mut self)
        requires
            old(self).inv(),
        ensures
            final(self).inv(),
            final(self)@ == old(self)@.literal(),
            final(self)@.remaining() == old(self)@.remaining(),
            final(self)@.depth == old(self)@.depth,
    {
        match self.previous_kind() {
            TokenKind::Keyword(Keyword::True) => self.emit_byte(Opcode::True.encode()),
            TokenKind::Keyword(Keyword::False) => self.emit_byte(Opcode::False.encode()),
            TokenKind::Keyword(Keyword::Nil) => self.emit_byte(Opcode::Nil.encode()),
            _ => {},
        }
    }

    fn string(&mut self)
        requires
            old(self).inv(),
        ensures
            final(self).inv(),
            final(self)@ == old(self)@.string(),
            final(self)@.remaining() == old(self)@.remaining(),
            final(self)@.depth == old(self)@.depth,
    {
        let text: Vec<u8> = to_bytes(self.previous_string());
        let owned_string: Vec<u8> = get_or_insert_string(text.as_slice(), &mut self.strings);
        self.emit_constant(Value::string(owned_string.as_slice()))
    }

    fn variable(&mut self, can_assign: bool)
        requires
            old(self).inv(),
        ensures
            final(self).inv(),
            final(self)@ == variable(old(self)@, can_assign),
            final(self)@.remaining() <= old(self)@.remaining(),
            final(self)@.depth == old(self)@.depth,
        decreases old(self)@.remaining(), 8nat,
    {
        let (get_op, set_op, offset) = self.resolve_variable();
        if can_assign && self.check(&TokenKind::Equal) {
            self.advance();
            self.expression();
            self.emit_bytes(set_op.encode(), offset)
        } else {
            self.emit_bytes(get_op.encode(), offset);
        }
    }

    /// How the variable named by the token read last is reached.
    fn resolve_variable(&mut self) -> (reach: (Opcode, Opcode, u8))
        requires
            old(self).inv(),
        ensures
            final(self).inv(),
            (final(self)@, reach.0, reach.1, reach.2) == old(self)@.resolve_variable(),
            final(self)@.remaining() == old(self)@.remaining(),
            final(self)@.depth == old(self)@.depth,
    {
        let name: Vec<u8> = to_bytes(self.previous_lexeme());
        let identifier: Vec<u8> = get_or_insert_string(name.as_slice(), &mut self.strings);
        proof {
            crate::bytecode::variables::lemma_innermost(self@.locals, self@.src, name@);
        }
        match self.resolve_local(identifier.as_slice()) {
            Some(index) => {
                if !self.locals.is_initialized(index) {
                    self.do_error("Cannot read variable in own initializer.");
                }
                (Opcode::GetLocal, Opcode::SetLocal, index)
            },
            None => {
                let index: u8 = self.make_identifier_constant(identifier);
                (Opcode::GetGlobal, Opcode::SetGlobal, index)
            },
        }
    }

    fn resolve_local(&self, identifier: &[u8]) -> (slot: Option<u8>)
        requires
            self.inv(),
        ensures
            slot.is_some() <==> crate::bytecode::variables::innermost(
                self@.locals,
                self@.src,
                identifier@,
            ).is_some(),
            slot.is_some() ==> slot.unwrap() == crate::bytecode::variables::innermost(
                self@.locals,
                self@.src,
                identifier@,
            ).unwrap(),
    {
        self.locals.resolve(identifier, &self.source)
    }

    fn grouping(&mut self)
        requires
            old(self).inv(),
        ensures
            final(self).inv(),
            final(self)@ == grouping(old(self)@),
            final(self)@.remaining() <= old(self)@.remaining(),
            final(self)@.depth == old(self)@.depth,
        decreases old(self)@.remaining(), 8nat,
    {
        self.expression();
        self.consume(&TokenKind::RightParen, "Expected ')' after expression.");
    }

    fn unary(&mut self)
        requires
            old(self).inv(),
        ensures
            final(self).inv(),
            final(self)@ == unary(old(self)@),
            final(self)@.remaining() <= old(self)@.remaining(),
            final(self)@.depth == old(self)@.depth,
        decreases old(self)@.remaining(), 5nat,
    {
        let operator: TokenKind = self.previous_kind();
        self.parse_precendence(Precedence::Unary);
        match operator {
            TokenKind::Minus => self.emit_byte(Opcode::Neg.encode()),
            TokenKind::Bang => self.emit_byte(Opcode::Not.encode()),
            _ => {},
        }
    }

    fn binary(&mut self)
        requires
            old(self).inv(),
        ensures
            final(self).inv(),
            final(self)@ == binary(old(self)@),
            final(self)@.remaining() <= old(self)@.remaining(),
            final(self)@.depth == old(self)@.depth,
        decreases old(self)@.remaining(), 5nat,
    {
        let operator: TokenKind = self.previous_kind();
        let precedence: Precedence = self.get_infix_rule(&operator).precedence;
        let stronger: Precedence = match Precedence::of_rank(precedence.rank() + 1) {
            Some(stronger) => stronger,
            None => precedence,
        };
        self.parse_precendence(stronger);
        match operator {
            TokenKind::Plus => self.emit_byte(Opcode::Add.encode()),
            TokenKind::Minus => self.emit_byte(Opcode::Sub.encode()),
            TokenKind::Star => self.emit_byte(Opcode::Mul.encode()),
            TokenKind::Slash => self.emit_byte(Opcode::Div.encode()),
            TokenKind::BangEqual => self.emit_bytes(Opcode::Eq.encode(), Opcode::Not.encode()),
            TokenKind::EqualEqual => self.emit_byte(Opcode::Eq.encode()),
            TokenKind::GreaterEqual => self.emit_bytes(Opcode::Lt.encode(), Opcode::Not.encode()),
            TokenKind::Greater => self.emit_byte(Opcode::Gt.encode()),
            TokenKind::LessEqual => self.emit_bytes(Opcode::Gt.encode(), Opcode::Not.encode()),
            TokenKind::Less => self.emit_byte(Opcode::Lt.encode()),
            _ => {},
        };
    }

    /// The handler of a token at the start of an expression.
    fn get_prefix_rule(&self, token_kind: &TokenKind) -> (rule: ParseRule)
        ensures
            rule == prefix_rule(*token_kind),
    {
        match token_kind {
            TokenKind::LeftParen => ParseRule::new(Some(ParseFn::Grouping), Precedence::Call),
            TokenKind::RightParen => ParseRule::new(None, Precedence::Lowest),
            TokenKind::LeftBrace => ParseRule::new(None, Precedence::Lowest),
            TokenKind::RightBrace => ParseRule::new(None, Precedence::Lowest),
            TokenKind::Comma => ParseRule::new(None, Precedence::Lowest),
            TokenKind::Dot => ParseRule::new(None, Precedence::Call),
            TokenKind::Minus => ParseRule::new(Some(ParseFn::Unary), Precedence::Term),
            TokenKind::Plus => ParseRule::new(None, Precedence::Term),
            TokenKind::Semicolon => ParseRule::new(None, Precedence::Lowest),
            TokenKind::Slash => ParseRule::new(None, Precedence::Factor),
            TokenKind::Star => ParseRule::new(None, Precedence::Factor),
            TokenKind::Bang => ParseRule::new(Some(ParseFn::Unary), Precedence::Lowest),
            TokenKind::BangEqual => ParseRule::new(None, Precedence::Equality),
            TokenKind::Equal => ParseRule::new(None, Precedence::Lowest),
            TokenKind::EqualEqual => ParseRule::new(None, Precedence::Equality),
            TokenKind::Less => ParseRule::new(None, Precedence::Comparison),
            TokenKind::LessEqual => ParseRule::new(None, Precedence::Comparison),
            TokenKind::Greater => ParseRule::new(None, Precedence::Comparison),
            TokenKind::GreaterEqual => ParseRule::new(None, Precedence::Comparison),
            TokenKind::Identifier => ParseRule::new(Some(ParseFn::Variable), Precedence::Lowest),
            TokenKind::String => ParseRule::new(Some(ParseFn::String), Precedence::Lowest),
            TokenKind::Number => ParseRule::new(Some(ParseFn::Number), Precedence::Lowest),
            TokenKind::QuestionMark => ParseRule::new(None, Precedence::Lowest),
            TokenKind::Colon => ParseRule::new(None, Precedence::Lowest),
            TokenKind::Keyword(keyword) => match keyword {
                Keyword::And => ParseRule::new(None, Precedence::And),
                Keyword::Class => ParseRule::new(None, Precedence::Lowest),
                Keyword::Else => ParseRule::new(None, Precedence::Lowest),
                Keyword::False => ParseRule::new(Some(ParseFn::Literal), Precedence::Lowest),
                Keyword::Fun => ParseRule::new(None, Precedence::Lowest),
                Keyword::For => ParseRule::new(None, Precedence::Lowest),
                Keyword::If => ParseRule::new(None, Precedence::Lowest),
                Keyword::Nil => ParseRule::new(Some(ParseFn::Literal), Precedence::Lowest),
                Keyword::Or => ParseRule::new(None, Precedence::Or),
                Keyword::Print => ParseRule::new(None, Precedence::Lowest),
                Keyword::Return => ParseRule::new(None, Precedence::Lowest),
                Keyword::Super => ParseRule::new(None, Precedence::Lowest),
                Keyword::This => ParseRule::new(None, Precedence::Lowest),
                Keyword::True => ParseRule::new(Some(ParseFn::Literal), Precedence::Lowest),
                Keyword::Let => ParseRule::new(None, Precedence::Lowest),
                Keyword::While => ParseRule::new(None, Precedence::Lowest),
            },
            TokenKind::Error(_) => ParseRule::new(None, Precedence::Lowest),
            TokenKind::EOF => ParseRule::new(None, Precedence::Lowest),
        }
    }

    /// The handler of a token between two operands, and how strongly the
    /// token binds.
    fn get_infix_rule(&self, token_kind: &TokenKind) -> (rule: ParseRule)
        ensures
            rule == infix_rule(*token_kind),
    {
        match token_kind {
            TokenKind::LeftParen => ParseRule::new(None, Precedence::Call),
            TokenKind::RightParen => ParseRule::new(None, Precedence::Lowest),
            TokenKind::LeftBrace => ParseRule::new(None, Precedence::Lowest),
            TokenKind::RightBrace => ParseRule::new(None, Precedence::Lowest),
            TokenKind::Comma => ParseRule::new(None, Precedence::Lowest),
            TokenKind::Dot => ParseRule::new(None, Precedence::Call),
            TokenKind::Minus => ParseRule::new(Some(ParseFn::Binary), Precedence::Term),
            TokenKind::Plus => ParseRule::new(Some(ParseFn::Binary), Precedence::Term),
            TokenKind::Semicolon => ParseRule::new(None, Precedence::Lowest),
            TokenKind::Slash => ParseRule::new(Some(ParseFn::Binary), Precedence::Factor),
            TokenKind::Star => ParseRule::new(Some(ParseFn::Binary), Precedence::Factor),
            TokenKind::Bang => ParseRule::new(None, Precedence::Lowest),
            TokenKind::BangEqual => ParseRule::new(Some(ParseFn::Binary), Precedence::Equality),
            TokenKind::Equal => ParseRule::new(None, Precedence::Lowest),
            TokenKind::EqualEqual => ParseRule::new(Some(ParseFn::Binary), Precedence::Equality),
            TokenKind::Less => ParseRule::new(Some(ParseFn::Binary), Precedence::Comparison),
            TokenKind::LessEqual => ParseRule::new(Some(ParseFn::Binary), Precedence::Comparison),
            TokenKind::Greater => ParseRule::new(Some(ParseFn::Binary), Precedence::Comparison),
            TokenKind::GreaterEqual => ParseRule::new(
                Some(ParseFn::Binary),
                Precedence::Comparison,
            ),
            TokenKind::Identifier => ParseRule::new(None, Precedence::Lowest),
            TokenKind::String => ParseRule::new(None, Precedence::Lowest),
            TokenKind::Number => ParseRule::new(Some(ParseFn::Number), Precedence::Lowest),
            TokenKind::QuestionMark => ParseRule::new(None, Precedence::Lowest),
            TokenKind::Colon => ParseRule::new(None, Precedence::Lowest),
            TokenKind::Keyword(keyword) => match keyword {
                Keyword::And => ParseRule::new(None, Precedence::And),
                Keyword::Class => ParseRule::new(None, Precedence::Lowest),
                Keyword::Else => ParseRule::new(None, Precedence::Lowest),
                Keyword::False => ParseRule::new(None, Precedence::Lowest),
                Keyword::Fun => ParseRule::new(None, Precedence::Lowest),
                Keyword::For => ParseRule::new(None, Precedence::Lowest),
                Keyword::If => ParseRule::new(None, Precedence::Lowest),
                Keyword::Nil => ParseRule::new(None, Precedence::Lowest),
                Keyword::Or => ParseRule::new(None, Precedence::Or),
                Keyword::Print => ParseRule::new(None, Precedence::Lowest),
                Keyword::Return => ParseRule::new(None, Precedence::Lowest),
                Keyword::Super => ParseRule::new(None, Precedence::Lowest),
                Keyword::This => ParseRule::new(None, Precedence::Lowest),
                Keyword::True => ParseRule::new(None, Precedence::Lowest),
                Keyword::Let => ParseRule::new(None, Precedence::Lowest),
                Keyword::While => ParseRule::new(None, Precedence::Lowest),
            },
            TokenKind::Error(_) => ParseRule::new(None, Precedence::Lowest),
            TokenKind::EOF => ParseRule::new(None, Precedence::Lowest),
        }
    }

    fn expression(&mut self)
        requires
            old(self).inv(),
        ensures
            final(self).inv(),
            final(self)@ == expression(old(self)@),
            final(self)@.remaining() <= old(self)@.remaining(),
            final(self)@.depth == old(self)@.depth,
            !old(self)@.at(TokenKind::EOF) ==> final(self)@.remaining() < old(self)@.remaining(),
        decreases old(self)@.remaining(), 6nat,
    {
        self.parse_precendence(Precedence::Assignment);
    }

    /// Runs a handler of the precedence table.
    fn run_rule(&mut self, function: ParseFn, can_assign: bool)
        requires
            old(self).inv(),
        ensures
            final(self).inv(),
            final(self)@ == prefix(old(self)@, function, can_assign),
            final(self)@.remaining() <= old(self)@.remaining(),
            final(self)@.depth == old(self)@.depth,
        decreases old(self)@.remaining(), 9nat,
    {
        match function {
            ParseFn::Grouping => self.grouping(),
            ParseFn::Unary => self.unary(),
            ParseFn::Binary => self.binary(),
            ParseFn::Number => self.number(),
            ParseFn::Literal => self.literal(),
            ParseFn::String => self.string(),
            ParseFn::Variable => self.variable(can_assign),
        }
    }

    fn parse_precendence(&mut self, precedence: Precedence)
        requires
            old(self).inv(),
            precedence != Precedence::Lowest,
        ensures
            final(self).inv(),
            final(self)@ == parse_precedence(old(self)@, precedence),
            final(self)@.remaining() <= old(self)@.remaining(),
            final(self)@.depth == old(self)@.depth,
            !old(self)@.at(TokenKind::EOF) ==> final(self)@.remaining() < old(self)@.remaining(),
        decreases old(self)@.remaining(), 4nat,
    {
        self.advance();
        let ghost s1 = self@;
        let can_assign: bool = precedence.at_most(Precedence::Assignment);
        let previous: TokenKind = self.previous_kind();
        match self.get_prefix_rule(&previous).function {
            Some(prefix_rule) => {
                assert(!old(self)@.at(TokenKind::EOF));
                self.run_rule(prefix_rule, can_assign);
            },
            None => {
                let token: Option<Token> = self.parser.previous;
                self.error_at(token, "Expected expression.");
                return ;
            },
        }
        let ghost s2 = self@;
        self.infix_loop(precedence);
        if can_assign && self.check(&TokenKind::Equal) {
            self.advance();
            self.do_error("Invalid assignment target.");
            self.expression();
        }
    }

    /// The operators and right operands that follow a left operand.
    fn infix_loop(&mut self, precedence: Precedence)
        requires
            old(self).inv(),
            precedence != Precedence::Lowest,
        ensures
            final(self).inv(),
            final(self)@ == infix_loop(old(self)@, precedence),
            final(self)@.remaining() <= old(self)@.remaining(),
            final(self)@.depth == old(self)@.depth,
        decreases old(self)@.remaining(), 9nat,
    {
        let current: TokenKind = match self.parser.current {
            Some(token) => token.ty,
            None => {
                return ;
            },
        };
        if precedence.at_most(self.get_infix_rule(&current).precedence) {
            self.advance();
            let previous: TokenKind = self.previous_kind();
            if let Some(infix_rule) = self.get_infix_rule(&previous).function {
                self.run_rule(infix_rule, false);
            }
            self.infix_loop(precedence);
        }
    }

    /// The kind of the token read last; `EOF` before two tokens are read.
    fn previous_kind(&self) -> (kind: TokenKind)
        ensures
            kind == self@.previous_kind(),
    {
        match self.parser.previous {
            Some(token) => token.ty,
            None => TokenKind::EOF,
        }
    }

    /// The bytes of the token read last.
    fn previous_lexeme(&self) -> (text: &'src [u8])
        ensures
            text@ == lexeme(self@.src, self@.previous),
    {
        match self.parser.previous {
            Some(token) => match self.source.try_lexeme(&token) {
                Some(text) => text,
                None => slice_subrange(self.source.as_bytes(), 0, 0),
            },
            None => slice_subrange(self.source.as_bytes(), 0, 0),
        }
    }

    /// The bytes between the quotes of the string token read last.
    fn previous_string(&self) -> (text: &'src [u8])
        ensures
            text@ == string_contents(self@.src, self@.previous),
    {
        match self.parser.previous {
            Some(token) => {
                if token.position.start <= token.position.end && token.position.end
                    <= self.source.len() && token.position.end - token.position.start >= 2 {
                    self.source.get_string(&token)
                } else {
                    slice_subrange(self.source.as_bytes(), 0, 0)
                }
            },
            None => slice_subrange(self.source.as_bytes(), 0, 0),
        }
    }

    fn emit_byte(&mut self, byte: u8)
        requires
            old(self).inv(),
        ensures
            final(self).inv(),
            final(self)@ == old(self)@.emit_byte(byte),
            final(self)@.remaining() == old(self)@.remaining(),
            final(self)@.depth == old(self)@.depth,
    {
        let line: usize = match self.parser.previous {
            Some(token) => token.position.line,
            None => 0,
        };
        self.chunk.write(byte, line);
    }

    fn emit_bytes(&mut self, first: u8, second: u8)
        requires
            old(self).inv(),
        ensures
            final(self).inv(),
            final(self)@ == old(self)@.emit_bytes(first, second),
            final(self)@.remaining() == old(self)@.remaining(),
            final(self)@.depth == old(self)@.depth,
    {
        self.emit_byte(first);
        self.emit_byte(second);
    }

    fn emit_constant(&mut self, value: Value)
        requires
            old(self).inv(),
        ensures
            final(self).inv(),
            final(self)@ == old(self)@.emit_constant(value@),
            final(self)@.remaining() == old(self)@.remaining(),
            final(self)@.depth == old(self)@.depth,
    {
        let constant: u8 = self.make_constant(value);
        self.emit_bytes(Opcode::Push.encode(), constant);
    }

    fn make_constant(&mut self, value: Value) -> (index: u8)
        requires
            old(self).inv(),
        ensures
            final(self).inv(),
            (final(self)@, index) == old(self)@.make_constant(value@),
            final(self)@.remaining() == old(self)@.remaining(),
            final(self)@.depth == old(self)@.depth,
    {
        match self.chunk.add_constant(value) {
            Ok(constant_ptr) => constant_ptr,
            Err(_) => {
                self.do_error("Too many constants in one chunk.");
                0
            },
        }
    }

    fn emit_return(&mut self)
        requires
            old(self).inv(),
        ensures
            final(self).inv(),
            final(self)@ == old(self)@.emit_op(Opcode::Ret),
    {
        self.emit_byte(Opcode::Ret.encode());
    }

    fn advance(&mut self)
        requires
            old(self).inv(),
        ensures
            final(self).inv(),
            final(self)@ == old(self)@.advance(),
            final(self)@.remaining() <= old(self)@.remaining(),
            final(self)@.depth == old(self)@.depth,
            !old(self)@.at(TokenKind::EOF) ==> final(self)@.remaining() < old(self)@.remaining(),
    {
        let length: usize = self.source.len();
        proof {
            self.scanner.lemma_offset_in_text();
            lemma_scan_progress(
                self.scanner.bytes(),
                self.scanner.offset() as int,
                self.scanner.line_number(),
            );
        }
        if self.parser.advance(&mut self.scanner).is_err() {
            self.parser_error()
        }
    }

    /// Complains about the scanner error that is the next token.
    fn parser_error(&mut self)
        requires
            old(self).inv(),
            old(self)@.current.is_some(),
            old(self)@.current.unwrap().ty is Error,
        ensures
            final(self).inv(),
            final(self)@ == old(self)@.error(old(self)@.current.unwrap().ty->Error_0),
            final(self)@.remaining() == old(self)@.remaining(),
            final(self)@.depth == old(self)@.depth,
    {
        let message: &'static str = match self.parser.current {
            Some(token) => match token.ty.try_into_error() {
                Some(message) => message,
                None => "",
            },
            None => "",
        };
        self.do_error(message);
    }

    /// Complains about the next token.
    fn do_error(&mut self, error_message: &'static str)
        requires
            old(self).inv(),
        ensures
            final(self).inv(),
            final(self)@ == old(self)@.error(error_message),
            final(self)@.remaining() == old(self)@.remaining(),
            final(self)@.depth == old(self)@.depth,
    {
        let token: Option<Token> = self.parser.current;
        self.error_at(token, error_message);
    }

    /// Complains about a token, unless complaints are being swallowed.
    fn error_at(&mut self, token: Option<Token>, message: &'static str)
        requires
            old(self).inv(),
        ensures
            final(self).inv(),
            final(self)@ == old(self)@.error_at(token, message),
            final(self)@.remaining() == old(self)@.remaining(),
            final(self)@.depth == old(self)@.depth,
    {
        if self.panic_mode {
            return ;
        }
        self.panic_mode = true;
        self.had_error = true;
        self.diagnostics.push(Diagnostic { token, message });
    }

    fn synchronize(&mut self)
        requires
            old(self).inv(),
        ensures
            final(self).inv(),
            final(self)@ == old(self)@.synchronize(),
            final(self)@.remaining() <= old(self)@.remaining(),
            final(self)@.depth == old(self)@.depth,
    {
        self.panic_mode = false;
        let ghost start = self@;
        while !(self.check(&TokenKind::EOF) || self.parser.current.is_none())
            invariant
                self.inv(),
                start == (CompilerState { panic_mode: false, ..old(self)@ }),
                self@.skip_to_statement() == start.skip_to_statement(),
                self@.remaining() <= old(self)@.remaining(),
                self@.depth == old(self)@.depth,
            decreases self@.remaining(),
        {
            match self.previous_kind() {
                TokenKind::Semicolon => {
                    return ;
                },
                _ => {},
            }
            match self.parser.current {
                Some(token) => match token.ty {
                    TokenKind::Keyword(k) => match k {
                        Keyword::Class
                        | Keyword::Fun
                        | Keyword::Let
                        | Keyword::For
                        | Keyword::If
                        | Keyword::While
                        | Keyword::Print
                        | Keyword::Return => {
                            return ;
                        },
                        _ => {},
                    },
                    _ => {},
                },
                None => {},
            }
            self.advance();
        }
    }
}

} // verus!
