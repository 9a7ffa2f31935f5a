use ansi_term::{Colour, Style};
use rlox::bytecode::{Chunk, Number, Opcode, Value};
use rlox::compiler::{Keyword, Position, Token, TokenKind};
use rlox::debug::Disassembler;
use rlox::front::{AstPrinter, Parser, Scanner};
use rlox::utils::format::{number_digits, push_centered, push_left_aligned};
use rlox::utils::{Paint, Palette, PrettyPrinter};
use rlox::vm::RuntimeError;

fn text(printer: &PrettyPrinter) -> String {
    String::from_utf8(printer.result().clone()).unwrap()
}

fn plain(r: u8, g: u8, b: u8) -> Style {
    Colour::RGB(r, g, b).normal()
}

fn bold(r: u8, g: u8, b: u8) -> Style {
    Colour::RGB(r, g, b).bold()
}

#[test]
fn painting_wraps_text_in_escape_sequences() {
    let mut printer = PrettyPrinter::new(Vec::new());
    printer.prompt();
    assert_eq!(text(&printer), "\u{1b}[1;38;2;38;139;210m> \u{1b}[0m");
    assert_eq!(text(&printer), bold(38, 139, 210).paint("> ").to_string());
    printer.clear();
    printer.value(b"v");
    assert_eq!(text(&printer), "\u{1b}[38;2;133;153;0mv \u{1b}[0m");
}

#[test]
fn the_parts_of_a_listing_are_laid_out_in_columns() {
    let mut printer = PrettyPrinter::new(b"kept".to_vec());
    printer.chunk_offset(255);
    printer.line_number(Some(7));
    printer.line_number(None);
    printer.opcode(Opcode::Add);
    printer.opcode(Opcode::DefineGlobal);
    printer.pointer(4096);
    printer.local(9);
    printer.unknown();
    printer.newline();
    let expected = format!(
        "kept{}{}{}{}{}{}{}{}\n",
        plain(101, 123, 131).paint(format!("{:04X} ", 255)),
        plain(101, 123, 131).paint(format!("{:4}{:4} ", 7, "")),
        plain(101, 123, 131).paint("   |     "),
        bold(211, 54, 130).paint(format!("{:4}{:4}", "ADD", "")),
        bold(211, 54, 130).paint(format!("{:4}{:4}", "DEF_GLOBAL", "")),
        plain(131, 148, 150).paint(format!("{:04X} -> ", 4096)),
        bold(108, 113, 196).paint(format!("{:04X} ", 9)),
        bold(220, 50, 47).paint("Bad opcode"),
    );
    assert_eq!(text(&printer), expected);
    assert_eq!(printer.take(), expected.into_bytes());
    assert!(printer.result().is_empty());
}

#[test]
fn a_heading_centres_the_name() {
    for name in ["", "odd", "even", "exactly12345", "longer than twelve"] {
        let mut printer = PrettyPrinter::new(Vec::new());
        printer.begin_chunk(name.as_bytes());
        let expected = format!("{}\n", plain(203, 75, 22).paint(format!("===== {:^12} =====", name)));
        assert_eq!(text(&printer), expected);
    }
}

#[test]
fn numbers_and_text_are_formatted_as_the_standard_library_does() {
    for n in [0usize, 9, 10, 15, 16, 255, 256, 4095, 65535, 65536, 1234567] {
        assert_eq!(number_digits(n, 10), format!("{}", n).into_bytes());
        assert_eq!(number_digits(n, 16), format!("{:X}", n).into_bytes());
    }
    let mut buffer = Vec::new();
    push_left_aligned(&mut buffer, b"ab", 4);
    push_centered(&mut buffer, b"abc", 6);
    push_left_aligned(&mut buffer, b"toolong", 4);
    assert_eq!(buffer, format!("{:4}{:^6}{:4}", "ab", "abc", "toolong").into_bytes());
}

#[test]
fn errors_and_tokens_are_shown() {
    let token = Token::new(TokenKind::Identifier, Position::new(0, 1, 3));
    let mut printer = PrettyPrinter::new(Vec::new());
    printer.parse_error(&token, b"x", "Expected ';'");
    assert_eq!(
        text(&printer),
        format!("{} Error at x: {}", plain(101, 123, 131).paint("[3]"), bold(220, 50, 47).paint("Expected ';'"))
    );
    printer.clear();
    printer.parse_error(&Token::new(TokenKind::EOF, Position::new(1, 1, 4)), b"", "m");
    assert!(text(&printer).contains(" Error at end "));
    printer.clear();
    printer.parse_error(&Token::new(TokenKind::Error("bad"), Position::new(1, 2, 4)), b"@", "bad");
    assert!(text(&printer).contains("m Error \u{1b}"));
    printer.clear();
    printer.runtime_error(&RuntimeError::new(12, "boom"));
    assert_eq!(text(&printer), format!("[12] {}", bold(220, 50, 47).paint("boom")));
    printer.clear();
    printer.token(&Token::new(TokenKind::Keyword(Keyword::Let), Position::new(0, 3, 1)));
    printer.token(&Token::new(TokenKind::Error("oops"), Position::new(0, 3, 1)));
    printer.token(&token);
    assert_eq!(
        text(&printer),
        format!(
            "{}{}{}",
            bold(211, 54, 130).paint("Keyword(Let)"),
            bold(211, 54, 130).paint("Error(\"oops\")"),
            bold(211, 54, 130).paint("Identifier")
        )
    );
    printer.clear();
    printer.print_print(b"3");
    assert_eq!(text(&printer), format!("{}\n", bold(42, 161, 152).paint("\u{27f6}\t3 ")));
    printer.clear();
    printer.stack(&vec![b"1".to_vec(), b"two".to_vec()]);
    assert_eq!(
        text(&printer),
        format!("    {{ [ {} ][ {} ] }}", plain(133, 153, 0).paint("1 "), plain(133, 153, 0).paint("two "))
    );
    assert_eq!(printer.palette.error, Paint { red: 220, green: 50, blue: 47, bold: true });
    let palette: Palette = printer.palette;
    assert!(!palette.label.bold);
}

#[test]
fn a_chunk_is_listed_instruction_by_instruction() {
    let mut chunk = Chunk::new();
    let constant = chunk.add_constant(Value::Number(Number::new(1.5f64.to_bits()))).unwrap();
    chunk.write_opcode(Opcode::Push, 1);
    chunk.write(constant, 1);
    chunk.write_opcode(Opcode::GetLocal, 2);
    chunk.write(3, 2);
    chunk.write_opcode(Opcode::JZ, 2);
    chunk.write(0, 2);
    chunk.write(1, 2);
    chunk.write_opcode(Opcode::LOOP, 3);
    chunk.write(0, 3);
    chunk.write(10, 3);
    chunk.write(99, 3);
    chunk.write_opcode(Opcode::Ret, 3);
    chunk.write_opcode(Opcode::Push, 4);
    let values = vec![b"1.5".to_vec()];

    let mut disassembler = Disassembler::new();
    assert_eq!(disassembler.disassemble_instruction(&chunk, 0, &values), 2);
    assert_eq!(disassembler.disassemble_instruction(&chunk, 2, &values), 4);
    assert_eq!(disassembler.disassemble_instruction(&chunk, 4, &values), 7);
    assert_eq!(disassembler.disassemble_instruction(&chunk, 7, &values), 10);
    assert_eq!(disassembler.disassemble_instruction(&chunk, 10, &values), 11);
    assert_eq!(disassembler.disassemble_instruction(&chunk, 12, &values), 13);
    disassembler.clear();

    disassembler.disassemble_chunk(&chunk, b"demo", &values);
    let offset = |n: usize| plain(101, 123, 131).paint(format!("{:04X} ", n)).to_string();
    let line = |n: Option<usize>| match n {
        Some(n) => plain(101, 123, 131).paint(format!("{:4}{:4} ", n, "")).to_string(),
        None => plain(101, 123, 131).paint("   |     ").to_string(),
    };
    let op = |name: &str| bold(211, 54, 130).paint(format!("{:4}{:4}", name, "")).to_string();
    let pointer = |n: usize| plain(131, 148, 150).paint(format!("{:04X} -> ", n)).to_string();
    let bad = bold(220, 50, 47).paint("Bad opcode").to_string();
    let expected = [
        format!("{}\n", plain(203, 75, 22).paint(format!("===== {:^12} =====", "demo"))),
        format!("{}{}{}{}{}\n", offset(0), line(Some(1)), op("PUSH"), pointer(0), plain(133, 153, 0).paint("1.5 ")),
        format!("{}{}{}{}\n", offset(2), line(Some(2)), op("GET_LOCAL"), bold(108, 113, 196).paint("0003 ")),
        format!("{}{}{}{}{}\n", offset(4), line(None), op("JZ"), pointer(4), offset(8)),
        format!("{}{}{}{}{}\n", offset(7), line(Some(3)), op("LOOP"), pointer(7), offset(0)),
        format!("{}{}{}\n", offset(10), line(None), bad),
        format!("{}{}{}\n", offset(11), line(None), op("RET")),
        format!("{}{}{}{}\n", offset(12), line(Some(4)), op("PUSH"), bad),
    ]
    .concat();
    assert_eq!(String::from_utf8(disassembler.result().clone()).unwrap(), expected);

    disassembler.clear();
    disassembler.print_value(b"v");
    disassembler.print_stack(&vec![]);
    assert_eq!(
        String::from_utf8(disassembler.result().clone()).unwrap(),
        format!("{}\n    {{  }}\n", plain(133, 153, 0).paint("v "))
    );
}

#[test]
fn an_expression_is_shown_with_its_operations_in_front() {
    let show_number = |n: Number| format!("{}", f64::from_bits(n.bits)).into_bytes();
    let statements = {
        let source = "a = -b + 1.5 * (c ? \"s\" : nil); f(x, true).y;";
        let numerals = rlox::compiler::numerals_of(rlox::compiler::Source::new(source), &|t: &[u8]| {
            Number::new(std::str::from_utf8(t).unwrap().parse::<f64>().unwrap().to_bits())
        });
        let mut scanner = Scanner::new(source, numerals);
        Parser::new(scanner.scan_tokens()).parse()
    };
    let shown: Vec<String> = statements
        .iter()
        .map(|s| match s {
            rlox::front::Stmt::Expression(e) => {
                String::from_utf8(AstPrinter::new().print(e, &show_number)).unwrap()
            }
            other => panic!("{:?}", other),
        })
        .collect();
    assert_eq!(
        shown,
        vec!["(a :=  (+ (- b) (* 1.5 (group (ternary c s Nil)))))", "(get (call f x true) y)"]
    );
    assert_eq!(AstPrinter::parenthesize(b"op", &vec![]), b"(op)".to_vec());
}

#[test]
fn a_failed_run_shows_its_runtime_error_and_nothing_of_a_compile_error() {
    let mut printer = PrettyPrinter::new(Vec::new());
    printer.interpret_error(&rlox::driver::InterpretError::RuntimeError(RuntimeError::new(3, "bad")));
    assert_eq!(text(&printer), format!("[3] {}", bold(220, 50, 47).paint("bad")));
    printer.clear();
    let failed = rlox::compiler::CompileError { diagnostics: Vec::new() };
    printer.compilation_error(&failed);
    printer.interpret_error(&rlox::driver::InterpretError::CompileError(failed));
    assert_eq!(text(&printer), "");
}
