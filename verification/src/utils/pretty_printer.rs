use crate::bytecode::opcode::Opcode;
use crate::compiler::compiler::CompileError;
use crate::compiler::token::{Keyword, Token, TokenKind};
use crate::text::{push_bytes, str_bytes};
use crate::utils::format::{
    centered, decimal4, digits, hex4, left_aligned, push_centered, push_decimal,
    push_decimal4, push_hex4, push_left_aligned,
};
use crate::driver::InterpretError;
use crate::vm::errors::RuntimeError;
use vstd::prelude::*;
use vstd::string::StringSliceAdditionalSpecFns;
use vstd::utf8::encode_utf8;

verus! {

/// How a piece of text is shown on a terminal: a colour, given by its red,
/// green and blue parts, and whether the text is bold.
#[derive(Copy, Clone, Debug, PartialEq, Eq, Structural)]
pub struct Paint {
    pub red: u8,
    pub green: u8,
    pub blue: u8,
    pub bold: bool,
}

/// The escape sequence that switches a terminal to a paint: the bold
/// attribute where asked for, and the foreground colour.
pub open spec fn escape_start(paint: Paint) -> Seq<u8> {
    seq![0x1Bu8, '[' as u8] + (if paint.bold {
        seq!['1' as u8, ';' as u8]
    } else {
        Seq::<u8>::empty()
    }) + seq!['3' as u8, '8' as u8, ';' as u8, '2' as u8, ';' as u8] + digits(
        paint.red as nat,
        10,
    ) + seq![';' as u8] + digits(paint.green as nat, 10) + seq![';' as u8] + digits(
        paint.blue as nat,
        10,
    ) + seq!['m' as u8]
}

/// The escape sequence that resets a terminal.
pub open spec fn escape_end() -> Seq<u8> {
    seq![0x1Bu8, '[' as u8, '0' as u8, 'm' as u8]
}

/// A text between the escape sequences that paint it.
pub open spec fn painted(paint: Paint, text: Seq<u8>) -> Seq<u8> {
    escape_start(paint) + text + escape_end()
}

/// Paints bytes with `ansi_term`: builds the `Style` that has the paint's
/// colour as its foreground and its bold flag, calls `Style::paint` on the
/// bytes and collects what `ANSIByteString::write_to` writes. The contract
/// states the bytes that the crate writes for such a style: the prefix
/// `ESC [`, `1;` where bold, `38;2;` and the three colour parts in decimal
/// separated by `;`, then `m`; the bytes themselves; the reset `ESC [ 0 m`.
#[verifier::external_body]
fn paint(how: Paint, text: &[u8]) -> (out: Vec<u8>)
    ensures
        out@ == painted(how, text@),
{
    let style = ansi_term::Style {
        foreground: Some(ansi_term::Colour::RGB(how.red, how.green, how.blue)),
        is_bold: how.bold,
        ..ansi_term::Style::default()
    };
    let mut out: Vec<u8> = Vec::new();
    let _ = style.paint(text).write_to(&mut out);
    out
}

/// The paints of the parts of a listing.
#[derive(Copy, Clone, Debug, PartialEq, Eq, Structural)]
pub struct Palette {
    pub label: Paint,
    pub error: Paint,
    pub chunk_offset: Paint,
    pub line_number: Paint,
    pub opcode: Paint,
    pub offset: Paint,
    pub value: Paint,
    pub local: Paint,
    pub print_arrow: Paint,
    pub prompt: Paint,
}

impl Palette {
    /// The palette that listings use.
    pub open spec fn standard() -> Palette {
        Palette {
            label: Paint { red: 203, green: 75, blue: 22, bold: false },
            error: Paint { red: 220, green: 50, blue: 47, bold: true },
            chunk_offset: Paint { red: 101, green: 123, blue: 131, bold: false },
            line_number: Paint { red: 101, green: 123, blue: 131, bold: false },
            opcode: Paint { red: 211, green: 54, blue: 130, bold: true },
            offset: Paint { red: 131, green: 148, blue: 150, bold: false },
            value: Paint { red: 133, green: 153, blue: 0, bold: false },
            local: Paint { red: 108, green: 113, blue: 196, bold: true },
            print_arrow: Paint { red: 42, green: 161, blue: 152, bold: true },
            prompt: Paint { red: 38, green: 139, blue: 210, bold: true },
        }
    }
}

/// The heading of a chunk's listing.
pub open spec fn begin_chunk_text(palette: Palette, name: Seq<u8>) -> Seq<u8> {
    painted(palette.label, "===== ".spec_bytes() + centered(name, 12) + " =====".spec_bytes())
        + "\n".spec_bytes()
}

/// The mark of a byte that stands for no instruction.
pub open spec fn unknown_text(palette: Palette) -> Seq<u8> {
    painted(palette.error, "Bad opcode".spec_bytes())
}

/// An offset into the code.
pub open spec fn chunk_offset_text(palette: Palette, offset: usize) -> Seq<u8> {
    painted(palette.chunk_offset, hex4(offset as nat) + " ".spec_bytes())
}

/// The column of source lines: a line number, or a bar for the same line as
/// above.
pub open spec fn line_number_text(palette: Palette, line_number: Option<usize>) -> Seq<u8> {
    match line_number {
        Some(line) => painted(palette.line_number, decimal4(line as nat) + "     ".spec_bytes()),
        None => painted(palette.line_number, "   |     ".spec_bytes()),
    }
}

/// The bytes of an instruction's mnemonic.
pub open spec fn mnemonic_bytes(opcode: Opcode) -> Seq<u8> {
    encode_utf8(opcode.mnemonic())
}

/// The column of instructions.
pub open spec fn opcode_text(palette: Palette, opcode: Opcode) -> Seq<u8> {
    painted(palette.opcode, left_aligned(mnemonic_bytes(opcode), 4) + "    ".spec_bytes())
}

/// An index into the constant pool, or an offset, with an arrow to what it
/// refers to.
pub open spec fn pointer_text(palette: Palette, pointer: usize) -> Seq<u8> {
    painted(palette.offset, hex4(pointer as nat) + " -> ".spec_bytes())
}

/// A value, given by its text.
pub open spec fn value_text(palette: Palette, text: Seq<u8>) -> Seq<u8> {
    painted(palette.value, text + " ".spec_bytes())
}

/// A stack slot.
pub open spec fn local_text(palette: Palette, slot: u8) -> Seq<u8> {
    painted(palette.local, hex4(slot as nat) + " ".spec_bytes())
}

/// The values of a stack, each in brackets.
pub open spec fn stack_items(palette: Palette, values: Seq<Seq<u8>>) -> Seq<u8>
    decreases values.len(),
{
    if values.len() == 0 {
        Seq::empty()
    } else {
        stack_items(palette, values.drop_last()) + "[ ".spec_bytes() + value_text(
            palette,
            values.last(),
        ) + " ]".spec_bytes()
    }
}

/// A stack, given by the texts of its values, bottom first.
pub open spec fn stack_text(palette: Palette, values: Seq<Seq<u8>>) -> Seq<u8> {
    "    { ".spec_bytes() + stack_items(palette, values) + " }".spec_bytes()
}

/// The prompt of an interactive session.
pub open spec fn prompt_text(palette: Palette) -> Seq<u8> {
    painted(palette.prompt, "> ".spec_bytes())
}

/// The name of a reserved word.
pub open spec fn keyword_name(keyword: Keyword) -> Seq<u8> {
    match keyword {
        Keyword::And => "And".spec_bytes(),
        Keyword::Class => "Class".spec_bytes(),
        Keyword::Else => "Else".spec_bytes(),
        Keyword::False => "False".spec_bytes(),
        Keyword::Fun => "Fun".spec_bytes(),
        Keyword::For => "For".spec_bytes(),
        Keyword::If => "If".spec_bytes(),
        Keyword::Nil => "Nil".spec_bytes(),
        Keyword::Or => "Or".spec_bytes(),
        Keyword::Print => "Print".spec_bytes(),
        Keyword::Return => "Return".spec_bytes(),
        Keyword::Super => "Super".spec_bytes(),
        Keyword::This => "This".spec_bytes(),
        Keyword::True => "True".spec_bytes(),
        Keyword::Let => "Let".spec_bytes(),
        Keyword::While => "While".spec_bytes(),
    }
}

/// The name of a kind of token. A reserved word is shown as
/// `Keyword(..)`, a scanner error as `Error("..")` with its message.
pub open spec fn kind_name(kind: TokenKind) -> Seq<u8> {
    match kind {
        TokenKind::LeftParen => "LeftParen".spec_bytes(),
        TokenKind::RightParen => "RightParen".spec_bytes(),
        TokenKind::LeftBrace => "LeftBrace".spec_bytes(),
        TokenKind::RightBrace => "RightBrace".spec_bytes(),
        TokenKind::Comma => "Comma".spec_bytes(),
        TokenKind::Dot => "Dot".spec_bytes(),
        TokenKind::Minus => "Minus".spec_bytes(),
        TokenKind::Plus => "Plus".spec_bytes(),
        TokenKind::Semicolon => "Semicolon".spec_bytes(),
        TokenKind::Slash => "Slash".spec_bytes(),
        TokenKind::Star => "Star".spec_bytes(),
        TokenKind::QuestionMark => "QuestionMark".spec_bytes(),
        TokenKind::Colon => "Colon".spec_bytes(),
        TokenKind::Bang => "Bang".spec_bytes(),
        TokenKind::BangEqual => "BangEqual".spec_bytes(),
        TokenKind::Equal => "Equal".spec_bytes(),
        TokenKind::EqualEqual => "EqualEqual".spec_bytes(),
        TokenKind::Greater => "Greater".spec_bytes(),
        TokenKind::GreaterEqual => "GreaterEqual".spec_bytes(),
        TokenKind::Less => "Less".spec_bytes(),
        TokenKind::LessEqual => "LessEqual".spec_bytes(),
        TokenKind::Identifier => "Identifier".spec_bytes(),
        TokenKind::String => "String".spec_bytes(),
        TokenKind::Number => "Number".spec_bytes(),
        TokenKind::Keyword(keyword) => "Keyword(".spec_bytes() + keyword_name(keyword)
            + ")".spec_bytes(),
        TokenKind::Error(message) => "Error(\"".spec_bytes() + message.spec_bytes()
            + "\")".spec_bytes(),
        TokenKind::EOF => "EOF".spec_bytes(),
    }
}

/// A token, shown by the name of its kind.
pub open spec fn token_text(palette: Palette, token: Token) -> Seq<u8> {
    painted(palette.opcode, kind_name(token.ty))
}

/// A printed value, after an arrow.
pub open spec fn print_print_text(palette: Palette, text: Seq<u8>) -> Seq<u8> {
    painted(palette.print_arrow, "\u{27f6}\t".spec_bytes() + text + " ".spec_bytes())
        + "\n".spec_bytes()
}

/// Where a complaint of the compiler points: at the end of the text, at
/// nothing for a scanner error, else at the token's bytes.
pub open spec fn error_place(kind: TokenKind, lexeme: Seq<u8>) -> Seq<u8> {
    match kind {
        TokenKind::EOF => "Error at end".spec_bytes(),
        TokenKind::Error(_) => "Error".spec_bytes(),
        _ => "Error at ".spec_bytes() + lexeme + ":".spec_bytes(),
    }
}

/// A complaint of the compiler: the line in brackets, the place, the
/// message.
pub open spec fn parse_error_text(
    palette: Palette,
    token: Token,
    lexeme: Seq<u8>,
    message: Seq<u8>,
) -> Seq<u8> {
    painted(
        palette.line_number,
        "[".spec_bytes() + digits(token.position.line as nat, 10) + "]".spec_bytes(),
    ) + " ".spec_bytes() + error_place(token.ty, lexeme) + " ".spec_bytes() + painted(
        palette.error,
        message,
    )
}

/// A runtime error: the line in brackets and the message.
pub open spec fn runtime_error_text(palette: Palette, line: usize, message: Seq<u8>) -> Seq<u8> {
    "[".spec_bytes() + digits(line as nat, 10) + "] ".spec_bytes() + painted(
        palette.error,
        message,
    )
}

/// Builds coloured diagnostics text in a buffer.
pub struct PrettyPrinter {
    pub string: Vec<u8>,
    pub palette: Palette,
}

impl PrettyPrinter {
    /// A printer that appends to the given text, with the standard palette.
    pub fn new(string: Vec<u8>) -> (printer: PrettyPrinter)
        ensures
            printer.string == string,
            printer.palette == Palette::standard(),
    {
        PrettyPrinter {
            string,
            palette: Palette {
                label: Paint { red: 203, green: 75, blue: 22, bold: false },
                error: Paint { red: 220, green: 50, blue: 47, bold: true },
                chunk_offset: Paint { red: 101, green: 123, blue: 131, bold: false },
                line_number: Paint { red: 101, green: 123, blue: 131, bold: false },
                opcode: Paint { red: 211, green: 54, blue: 130, bold: true },
                offset: Paint { red: 131, green: 148, blue: 150, bold: false },
                value: Paint { red: 133, green: 153, blue: 0, bold: false },
                local: Paint { red: 108, green: 113, blue: 196, bold: true },
                print_arrow: Paint { red: 42, green: 161, blue: 152, bold: true },
                prompt: Paint { red: 38, green: 139, blue: 210, bold: true },
            },
        }
    }

    /// Appends painted text.
    fn write_painted(&mut self, how: Paint, text: &[u8])
        ensures
            final(self).palette == old(self).palette,
            final(self).string@ == old(self).string@ + painted(how, text@),
    {
        let coloured: Vec<u8> = paint(how, text);
        push_bytes(&mut self.string, coloured.as_slice());
    }

    /// Appends plain text.
    fn write_plain(&mut self, text: &str)
        ensures
            final(self).palette == old(self).palette,
            final(self).string@ == old(self).string@ + text.spec_bytes(),
    {
        push_bytes(&mut self.string, text.as_bytes());
    }

    pub fn begin_chunk(&mut self, chunk_name: &[u8])
        ensures
            final(self).palette == old(self).palette,
            final(self).string@ == old(self).string@ + begin_chunk_text(
                old(self).palette,
                chunk_name@,
            ),
    {
        let mut format: Vec<u8> = str_bytes("===== ");
        push_centered(&mut format, chunk_name, 12);
        push_bytes(&mut format, " =====".as_bytes());
        self.write_painted(self.palette.label, format.as_slice());
        self.write_plain("\n");
        assert(self.string@ =~= old(self).string@ + begin_chunk_text(
            old(self).palette,
            chunk_name@,
        ));
    }

    pub fn unknown(&mut self)
        ensures
            final(self).palette == old(self).palette,
            final(self).string@ == old(self).string@ + unknown_text(old(self).palette),
    {
        self.write_painted(self.palette.error, "Bad opcode".as_bytes());
    }

    pub fn chunk_offset(&mut self, offset: usize)
        ensures
            final(self).palette == old(self).palette,
            final(self).string@ == old(self).string@ + chunk_offset_text(
                old(self).palette,
                offset,
            ),
    {
        let mut format: Vec<u8> = Vec::new();
        push_hex4(&mut format, offset);
        push_bytes(&mut format, " ".as_bytes());
        assert(format@ =~= hex4(offset as nat) + " ".spec_bytes());
        self.write_painted(self.palette.chunk_offset, format.as_slice());
    }

    pub fn line_number(&mut self, line_number: Option<usize>)
        ensures
            final(self).palette == old(self).palette,
            final(self).string@ == old(self).string@ + line_number_text(
                old(self).palette,
                line_number,
            ),
    {
        let mut format: Vec<u8> = Vec::new();
        match line_number {
            Some(line) => {
                push_decimal4(&mut format, line);
                push_bytes(&mut format, "     ".as_bytes());
                assert(format@ =~= decimal4(line as nat) + "     ".spec_bytes());
            },
            None => {
                push_bytes(&mut format, "   |     ".as_bytes());
                assert(format@ =~= "   |     ".spec_bytes());
            },
        }
        self.write_painted(self.palette.line_number, format.as_slice());
    }

    pub fn opcode(&mut self, opcode: Opcode)
        ensures
            final(self).palette == old(self).palette,
            final(self).string@ == old(self).string@ + opcode_text(old(self).palette, opcode),
    {
        let mut format: Vec<u8> = Vec::new();
        push_left_aligned(&mut format, opcode.name().as_bytes(), 4);
        push_bytes(&mut format, "    ".as_bytes());
        assert(format@ =~= left_aligned(mnemonic_bytes(opcode), 4) + "    ".spec_bytes());
        self.write_painted(self.palette.opcode, format.as_slice());
    }

    pub fn newline(&mut self)
        ensures
            final(self).palette == old(self).palette,
            final(self).string@ == old(self).string@ + "\n".spec_bytes(),
    {
        self.write_plain("\n");
    }

    pub fn pointer(&mut self, pointer: usize)
        ensures
            final(self).palette == old(self).palette,
            final(self).string@ == old(self).string@ + pointer_text(old(self).palette, pointer),
    {
        let mut format: Vec<u8> = Vec::new();
        push_hex4(&mut format, pointer);
        push_bytes(&mut format, " -> ".as_bytes());
        assert(format@ =~= hex4(pointer as nat) + " -> ".spec_bytes());
        self.write_painted(self.palette.offset, format.as_slice());
    }

    /// Appends a value, given by its text.
    pub fn value(&mut self, value: &[u8])
        ensures
            final(self).palette == old(self).palette,
            final(self).string@ == old(self).string@ + value_text(old(self).palette, value@),
    {
        let mut format: Vec<u8> = Vec::new();
        push_bytes(&mut format, value);
        push_bytes(&mut format, " ".as_bytes());
        assert(format@ =~= value@ + " ".spec_bytes());
        self.write_painted(self.palette.value, format.as_slice());
    }

    pub fn local(&mut self, slot: u8)
        ensures
            final(self).palette == old(self).palette,
            final(self).string@ == old(self).string@ + local_text(old(self).palette, slot),
    {
        let mut format: Vec<u8> = Vec::new();
        push_hex4(&mut format, slot as usize);
        push_bytes(&mut format, " ".as_bytes());
        assert(format@ =~= hex4(slot as nat) + " ".spec_bytes());
        self.write_painted(self.palette.local, format.as_slice());
    }

    /// The text built so far.
    pub fn result(&self) -> (text: &Vec<u8>)
        ensures
            text == self.string,
    {
        &self.string
    }

    pub fn clear(&mut self)
        ensures
            final(self).palette == old(self).palette,
            final(self).string@ == Seq::<u8>::empty(),
    {
        self.string.clear();
    }

    /// Hands out the text built so far, for printing, and starts afresh.
    pub fn take(&mut self) -> (text: Vec<u8>)
        ensures
            final(self).palette == old(self).palette,
            final(self).string@ == Seq::<u8>::empty(),
            text@ == old(self).string@,
    {
        let mut text: Vec<u8> = Vec::new();
        push_bytes(&mut text, self.string.as_slice());
        self.string.clear();
        assert(text@ =~= old(self).string@);
        text
    }

    /// Appends a stack, given by the texts of its values, bottom first.
    pub fn stack(&mut self, stack: &Vec<Vec<u8>>)
        ensures
            final(self).palette == old(self).palette,
            final(self).string@ == old(self).string@ + stack_text(
                old(self).palette,
                stack@.map_values(|text: Vec<u8>| text@),
            ),
    {
        let ghost values = stack@.map_values(|text: Vec<u8>| text@);
        self.write_plain("    { ");
        let mut i: usize = 0;
        assert(values.subrange(0, 0) =~= Seq::<Seq<u8>>::empty());
        while i < stack.len()
            invariant
                i <= stack@.len(),
                values == stack@.map_values(|text: Vec<u8>| text@),
                self.palette == old(self).palette,
                self.string@ == old(self).string@ + "    { ".spec_bytes() + stack_items(
                    self.palette,
                    values.subrange(0, i as int),
                ),
            decreases stack@.len() - i,
        {
            let ghost before = self.string@;
            self.write_plain("[ ");
            self.value(stack[i].as_slice());
            self.write_plain(" ]");
            proof {
                let next = values.subrange(0, i + 1);
                assert(next.drop_last() =~= values.subrange(0, i as int));
                assert(next.last() == stack@[i as int]@);
                assert(self.string@ =~= old(self).string@ + "    { ".spec_bytes() + stack_items(
                    self.palette,
                    next,
                ));
            }
            i += 1;
        }
        self.write_plain(" }");
        proof {
            assert(values.subrange(0, i as int) =~= values);
            assert(self.string@ =~= old(self).string@ + stack_text(old(self).palette, values));
        }
    }

    pub fn prompt(&mut self)
        ensures
            final(self).palette == old(self).palette,
            final(self).string@ == old(self).string@ + prompt_text(old(self).palette),
    {
        self.write_painted(self.palette.prompt, "> ".as_bytes());
    }

    /// The name of a reserved word.
    fn keyword_text(keyword: Keyword) -> (name: &'static str)
        ensures
            name.spec_bytes() == keyword_name(keyword),
    {
        match keyword {
            Keyword::And => "And",
            Keyword::Class => "Class",
            Keyword::Else => "Else",
            Keyword::False => "False",
            Keyword::Fun => "Fun",
            Keyword::For => "For",
            Keyword::If => "If",
            Keyword::Nil => "Nil",
            Keyword::Or => "Or",
            Keyword::Print => "Print",
            Keyword::Return => "Return",
            Keyword::Super => "Super",
            Keyword::This => "This",
            Keyword::True => "True",
            Keyword::Let => "Let",
            Keyword::While => "While",
        }
    }

    /// The name of a kind of token.
    fn kind_text(kind: TokenKind) -> (name: Vec<u8>)
        ensures
            name@ == kind_name(kind),
    {
        match kind {
            TokenKind::LeftParen => str_bytes("LeftParen"),
            TokenKind::RightParen => str_bytes("RightParen"),
            TokenKind::LeftBrace => str_bytes("LeftBrace"),
            TokenKind::RightBrace => str_bytes("RightBrace"),
            TokenKind::Comma => str_bytes("Comma"),
            TokenKind::Dot => str_bytes("Dot"),
            TokenKind::Minus => str_bytes("Minus"),
            TokenKind::Plus => str_bytes("Plus"),
            TokenKind::Semicolon => str_bytes("Semicolon"),
            TokenKind::Slash => str_bytes("Slash"),
            TokenKind::Star => str_bytes("Star"),
            TokenKind::QuestionMark => str_bytes("QuestionMark"),
            TokenKind::Colon => str_bytes("Colon"),
            TokenKind::Bang => str_bytes("Bang"),
            TokenKind::BangEqual => str_bytes("BangEqual"),
            TokenKind::Equal => str_bytes("Equal"),
            TokenKind::EqualEqual => str_bytes("EqualEqual"),
            TokenKind::Greater => str_bytes("Greater"),
            TokenKind::GreaterEqual => str_bytes("GreaterEqual"),
            TokenKind::Less => str_bytes("Less"),
            TokenKind::LessEqual => str_bytes("LessEqual"),
            TokenKind::Identifier => str_bytes("Identifier"),
            TokenKind::String => str_bytes("String"),
            TokenKind::Number => str_bytes("Number"),
            TokenKind::Keyword(keyword) => {
                let mut name: Vec<u8> = str_bytes("Keyword(");
                push_bytes(&mut name, Self::keyword_text(keyword).as_bytes());
                push_bytes(&mut name, ")".as_bytes());
                name
            },
            TokenKind::Error(message) => {
                let mut name: Vec<u8> = str_bytes("Error(\"");
                push_bytes(&mut name, message.as_bytes());
                push_bytes(&mut name, "\")".as_bytes());
                name
            },
            TokenKind::EOF => str_bytes("EOF"),
        }
    }

    pub fn token(&mut self, token: &Token)
        ensures
            final(self).palette == old(self).palette,
            final(self).string@ == old(self).string@ + token_text(old(self).palette, *token),
    {
        let format: Vec<u8> = Self::kind_text(token.ty);
        self.write_painted(self.palette.opcode, format.as_slice());
    }

    /// Appends a printed value, given by its text, after an arrow.
    pub fn print_print(&mut self, value: &[u8])
        ensures
            final(self).palette == old(self).palette,
            final(self).string@ == old(self).string@ + print_print_text(
                old(self).palette,
                value@,
            ),
    {
        let mut format: Vec<u8> = str_bytes("\u{27f6}\t");
        push_bytes(&mut format, value);
        push_bytes(&mut format, " ".as_bytes());
        self.write_painted(self.palette.print_arrow, format.as_slice());
        self.write_plain("\n");
        assert(self.string@ =~= old(self).string@ + print_print_text(old(self).palette, value@));
    }

    pub fn parse_error(&mut self, token: &Token, lexeme: &[u8], message: &str)
        ensures
            final(self).palette == old(self).palette,
            final(self).string@ == old(self).string@ + parse_error_text(
                old(self).palette,
                *token,
                lexeme@,
                message.spec_bytes(),
            ),
    {
        let mut line: Vec<u8> = str_bytes("[");
        push_decimal(&mut line, token.position.line);
        push_bytes(&mut line, "]".as_bytes());
        let mut error_pos: Vec<u8> = Vec::new();
        match token.ty {
            TokenKind::EOF => {
                push_bytes(&mut error_pos, "Error at end".as_bytes());
            },
            TokenKind::Error(_) => {
                push_bytes(&mut error_pos, "Error".as_bytes());
            },
            _ => {
                push_bytes(&mut error_pos, "Error at ".as_bytes());
                push_bytes(&mut error_pos, lexeme);
                push_bytes(&mut error_pos, ":".as_bytes());
            },
        }
        assert(error_pos@ =~= error_place(token.ty, lexeme@));
        self.write_painted(self.palette.line_number, line.as_slice());
        self.write_plain(" ");
        push_bytes(&mut self.string, error_pos.as_slice());
        self.write_plain(" ");
        self.write_painted(self.palette.error, message.as_bytes());
        assert(self.string@ =~= old(self).string@ + parse_error_text(
            old(self).palette,
            *token,
            lexeme@,
            message.spec_bytes(),
        ));
    }

    pub fn runtime_error(&mut self, error: &RuntimeError)
        ensures
            final(self).palette == old(self).palette,
            final(self).string@ == old(self).string@ + runtime_error_text(
                old(self).palette,
                error.line,
                error.message@,
            ),
    {
        self.write_plain("[");
        push_decimal(&mut self.string, error.line);
        self.write_plain("] ");
        self.write_painted(self.palette.error, error.message.as_slice());
        assert(self.string@ =~= old(self).string@ + runtime_error_text(
            old(self).palette,
            error.line,
            error.message@,
        ));
    }

    /// A compile error adds nothing: its diagnostics were shown as they
    /// were found.
    pub fn compilation_error(&mut self, error: &CompileError)
        ensures
            *final(self) == *old(self),
    {
    }

    /// Shows why a text could not be run to its end.
    pub fn interpret_error(&mut self, error: &InterpretError)
        ensures
            final(self).palette == old(self).palette,
            final(self).string@ == old(self).string@ + interpret_error_text(
                old(self).palette,
                error,
            ),
    {
        match error {
            InterpretError::CompileError(err) => {
                self.compilation_error(err);
                assert(self.string@ =~= old(self).string@ + Seq::<u8>::empty());
            },
            InterpretError::RuntimeError(err) => {
                self.runtime_error(err);
            },
        }
    }
}

/// What is shown of a failed run: of a runtime error its line and its
/// message, of a compile error nothing.
pub open spec fn interpret_error_text(palette: Palette, error: &InterpretError) -> Seq<u8> {
    match error {
        InterpretError::CompileError(_) => Seq::empty(),
        InterpretError::RuntimeError(err) => runtime_error_text(palette, err.line, err.message@),
    }
}

} // verus!
