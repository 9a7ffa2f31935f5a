use rlox::bytecode::{Chunk, Number, Opcode, Value};
use rlox::compiler::{compile, scan_all, Compiler, Keyword, Source, TokenKind};
use rlox::driver::{interpret, InterpretError};

fn parse_number(text: &[u8]) -> Number {
    let text = std::str::from_utf8(text).expect("a numeral is ASCII");
    Number::new(text.parse::<f64>().expect("a numeral").to_bits())
}

fn arithmetic(op: Opcode, left: Number, right: Number) -> Number {
    let l = f64::from_bits(left.bits);
    let r = f64::from_bits(right.bits);
    let result = match op {
        Opcode::Add => l + r,
        Opcode::Sub => l - r,
        Opcode::Mul => l * r,
        Opcode::Div => l / r,
        _ => unreachable!(),
    };
    Number::new(result.to_bits())
}

fn number(value: f64) -> Value {
    Value::Number(Number::new(value.to_bits()))
}

fn run(text: &str) -> Result<Vec<Value>, InterpretError> {
    interpret(text, &parse_number, &arithmetic, 100_000)
}

fn printed(text: &str) -> Vec<Value> {
    run(text).expect("the program runs")
}

fn runtime_message(text: &str) -> (usize, String) {
    match run(text) {
        Err(InterpretError::RuntimeError(error)) => {
            (error.line, String::from_utf8(error.message).unwrap())
        }
        other => panic!("expected a runtime error, got {:?}", other),
    }
}

fn compile_messages(text: &str) -> Vec<&'static str> {
    match compile(text, &parse_number) {
        Err(error) => error.diagnostics.iter().map(|d| d.message).collect(),
        Ok(_) => panic!("expected a compile error"),
    }
}

fn code_of(text: &str) -> Chunk {
    compile(text, &parse_number).expect("the text compiles").0
}

#[test]
fn one_plus_two_is_three() {
    assert_eq!(printed("print 1 + 2;"), vec![number(3.0)]);
}

#[test]
fn strings_concatenate() {
    assert_eq!(printed("print \"a\" + \"b\";"), vec![Value::string(b"ab")]);
}

#[test]
fn number_plus_string_is_a_runtime_error() {
    let (line, message) = runtime_message("print 1 + \"a\";");
    assert_eq!(line, 1);
    assert_eq!(message, "Expected two numbers or two strings on the stack");
}

#[test]
fn operands_keep_their_order() {
    assert_eq!(printed("print 7 - 2;"), vec![number(5.0)]);
    assert_eq!(printed("print 8 / 2;"), vec![number(4.0)]);
    assert_eq!(printed("print \"left\" + \"right\";"), vec![Value::string(b"leftright")]);
    assert_eq!(printed("print 1 < 2;"), vec![Value::Bool(true)]);
    assert_eq!(printed("print 1 > 2;"), vec![Value::Bool(false)]);
    assert_eq!(printed("print 2 >= 2;"), vec![Value::Bool(true)]);
    assert_eq!(printed("print 3 <= 2;"), vec![Value::Bool(false)]);
}

#[test]
fn precedence_and_grouping() {
    assert_eq!(printed("print 1 + 2 * 3;"), vec![number(7.0)]);
    assert_eq!(printed("print (1 + 2) * 3;"), vec![number(9.0)]);
    assert_eq!(printed("print 10 - 4 - 3;"), vec![number(3.0)]);
    assert_eq!(printed("print -(1 + 2);"), vec![number(-3.0)]);
    assert_eq!(printed("print !(1 == 2);"), vec![Value::Bool(true)]);
    assert_eq!(printed("print 1 != 2;"), vec![Value::Bool(true)]);
}

#[test]
fn inner_local_shadows_without_clobbering() {
    assert_eq!(
        printed("{ let a = 1; { let a = 2; print a; } print a; }"),
        vec![number(2.0), number(1.0)]
    );
}

#[test]
fn locals_are_read_and_assigned_by_slot() {
    assert_eq!(
        printed("{ let a = 1; let b = 2; a = a + b; print a; print b; }"),
        vec![number(3.0), number(2.0)]
    );
}

#[test]
fn reading_a_local_in_its_own_initializer_is_a_compile_error() {
    assert_eq!(
        compile_messages("{ let a = a; }"),
        vec!["Cannot read variable in own initializer."]
    );
}

#[test]
fn declaring_a_local_twice_in_one_scope_is_a_compile_error() {
    assert_eq!(
        compile_messages("{ let a = 1; let a = 2; }"),
        vec!["Variable with this name already exists in this scope."]
    );
    assert!(compile("{ let a = 1; { let a = 2; } }", &parse_number).is_ok());
}

#[test]
fn globals_are_defined_read_and_assigned() {
    assert_eq!(
        printed("let a = 1; let b; print b; a = a + 1; print a;"),
        vec![Value::Nil, number(2.0)]
    );
}

#[test]
fn undefined_globals_are_runtime_errors() {
    let (_, message) = runtime_message("print missing;");
    assert_eq!(message, "Tried to get value of undefined variable 'missing'");
    let (line, message) = runtime_message("\n\nmissing = 1;");
    assert_eq!(line, 3);
    assert_eq!(message, "Tried to assign to undefined variable 'missing'");
}

#[test]
fn negating_a_non_number_is_a_runtime_error() {
    let (_, message) = runtime_message("print -\"a\";");
    assert_eq!(message, "Operand must be a number");
}

#[test]
fn comparing_non_numbers_is_a_runtime_error() {
    let (_, message) = runtime_message("print 1 < \"a\";");
    assert_eq!(message, "Expected two numbers on the stack");
    let (_, message) = runtime_message("print \"a\" - \"b\";");
    assert_eq!(message, "Expected two numbers on the stack");
}

#[test]
fn zero_counts_as_false_in_the_machine() {
    assert_eq!(printed("print !0;"), vec![Value::Bool(true)]);
    assert_eq!(printed("print !(0 - 0);"), vec![Value::Bool(true)]);
    assert_eq!(printed("print !1;"), vec![Value::Bool(false)]);
    assert_eq!(printed("print !nil;"), vec![Value::Bool(true)]);
    assert_eq!(printed("print !false;"), vec![Value::Bool(true)]);
    assert_eq!(printed("print !\"\";"), vec![Value::Bool(false)]);
}

#[test]
fn equality_is_by_kind_and_value() {
    assert_eq!(printed("print 1 == 1;"), vec![Value::Bool(true)]);
    assert_eq!(printed("print 1 == \"1\";"), vec![Value::Bool(false)]);
    assert_eq!(printed("print nil == nil;"), vec![Value::Bool(true)]);
    assert_eq!(printed("print nil == false;"), vec![Value::Bool(false)]);
    assert_eq!(printed("print \"a\" + \"b\" == \"ab\";"), vec![Value::Bool(true)]);
    assert_eq!(printed("print (0 / 0) == (0 / 0);"), vec![Value::Bool(false)]);
}

#[test]
fn a_simple_expression_compiles_to_the_expected_code() {
    let chunk = code_of("print 1 + 2;");
    assert_eq!(
        chunk.code,
        vec![
            Opcode::Push.encode(),
            0,
            Opcode::Push.encode(),
            1,
            Opcode::Add.encode(),
            Opcode::Print.encode(),
            Opcode::Ret.encode()
        ]
    );
    assert_eq!(chunk.lines, vec![1; 7]);
    assert_eq!(chunk.constants.values, vec![number(1.0), number(2.0)]);
}

#[test]
fn a_block_pops_its_locals() {
    let chunk = code_of("{\n let a = 1;\n let b = 2;\n}");
    assert_eq!(
        chunk.code,
        vec![
            Opcode::Push.encode(),
            0,
            Opcode::Push.encode(),
            1,
            Opcode::Pop.encode(),
            Opcode::Pop.encode(),
            Opcode::Ret.encode()
        ]
    );
    assert_eq!(chunk.lines, vec![2, 2, 3, 3, 4, 4, 4]);
}

#[test]
fn global_names_become_string_constants() {
    let (chunk, strings, locals) = compile("let answer = 42; print answer;", &parse_number)
        .expect("the text compiles");
    assert_eq!(
        chunk.code,
        vec![
            Opcode::Push.encode(),
            1,
            Opcode::DefineGlobal.encode(),
            0,
            Opcode::GetGlobal.encode(),
            2,
            Opcode::Print.encode(),
            Opcode::Ret.encode()
        ]
    );
    assert_eq!(
        chunk.constants.values,
        vec![Value::string(b"answer"), number(42.0), Value::string(b"answer")]
    );
    assert_eq!(strings.len(), 1);
    assert_eq!(locals.len(), 0);
}

#[test]
fn assignment_needs_a_target() {
    assert_eq!(compile_messages("let a = 1; let b = 2; a + b = 3;"), vec!["Invalid assignment target."]);
}

#[test]
fn a_missing_semicolon_is_a_compile_error() {
    assert_eq!(compile_messages("print 1"), vec!["Expected ';' after expression."]);
    assert_eq!(compile_messages("let a = 1"), vec!["Expected ';' after variable declaration"]);
    assert_eq!(compile_messages("{ print 1;"), vec!["Expected '}' after block."]);
    assert_eq!(compile_messages("print (1;"), vec!["Expected ')' after expression."]);
    assert_eq!(compile_messages("let 1 = 2;"), vec!["Expected variable name"]);
    assert_eq!(compile_messages("print ;"), vec!["Expected expression."]);
}

#[test]
fn errors_after_the_first_are_swallowed_until_a_statement_starts() {
    assert_eq!(
        compile_messages("print 1 + ; print 2 print 3; let = 4;"),
        vec!["Expected expression.", "Expected ';' after expression.", "Expected variable name"]
    );
}

#[test]
fn scanner_errors_are_compile_errors() {
    assert_eq!(compile_messages("print @;"), vec!["Invalid character"]);
    assert_eq!(compile_messages("print \"open"), vec!["Unterminated String"]);
}

#[test]
fn a_chunk_with_an_error_is_not_run() {
    match run("print 1; print") {
        Err(InterpretError::CompileError(error)) => assert_eq!(error.diagnostics.len(), 1),
        other => panic!("expected a compile error, got {:?}", other),
    }
}

#[test]
fn too_many_constants_is_a_compile_error() {
    let mut text = String::new();
    for i in 0..257 {
        text.push_str(&format!("print {};", i));
    }
    assert_eq!(compile_messages(&text), vec!["Too many constants in one chunk."]);
}

#[test]
fn too_many_locals_is_a_compile_error() {
    let mut text = String::from("{");
    for i in 0..256 {
        text.push_str(&format!("let v{} = nil;", i));
    }
    text.push('}');
    assert_eq!(compile_messages(&text), vec!["Too many local variables in current function"]);
}

#[test]
fn running_out_of_steps_is_reported() {
    match interpret("print 1; print 2;", &parse_number, &arithmetic, 2) {
        Err(InterpretError::RuntimeError(error)) => {
            assert_eq!(error.message, b"Step limit reached".to_vec())
        }
        other => panic!("expected the step limit, got {:?}", other),
    }
}

#[test]
fn a_fresh_compiler_compiles_with_given_numerals() {
    let source = Source::new("print 12.5;");
    let numerals = rlox::compiler::numerals_of(source, &parse_number);
    assert_eq!(numerals.len(), 1);
    assert_eq!(numerals[0].start, 6);
    assert_eq!(f64::from_bits(numerals[0].value.bits), 12.5);
    let (chunk, _, _) = Compiler::new(source, numerals).compile().expect("the text compiles");
    assert_eq!(chunk.constants.values, vec![number(12.5)]);
    let without = Compiler::new(source, Vec::new()).compile();
    assert_eq!(
        without.err().expect("no numeral is known").diagnostics[0].message,
        "No value is known for this numeral."
    );
}

#[test]
fn tokens_carry_kind_span_and_line() {
    let tokens = scan_all(Source::new("let x = 10.5;\n// note\nprint \"hi\" /* a\nb */ >= x"));
    let kinds: Vec<TokenKind> = tokens.iter().map(|t| t.ty).collect();
    assert_eq!(
        kinds,
        vec![
            TokenKind::Keyword(Keyword::Let),
            TokenKind::Identifier,
            TokenKind::Equal,
            TokenKind::Number,
            TokenKind::Semicolon,
            TokenKind::Keyword(Keyword::Print),
            TokenKind::String,
            TokenKind::GreaterEqual,
            TokenKind::Identifier,
            TokenKind::EOF
        ]
    );
    assert_eq!((tokens[3].position.start, tokens[3].position.end, tokens[3].position.line), (8, 12, 1));
    assert_eq!(tokens[5].position.line, 3);
    assert_eq!(tokens[7].position.line, 4);
    let source = Source::new("let x = 10.5;");
    assert_eq!(source.get_lexeme(&tokens[3]), b"10.5");
}

#[test]
fn a_number_ends_before_a_point_without_digits() {
    let tokens = scan_all(Source::new("1.x 2. 3.4.5"));
    let spans: Vec<(usize, usize)> =
        tokens.iter().map(|t| (t.position.start, t.position.end)).collect();
    assert_eq!(
        spans,
        vec![(0, 1), (1, 2), (2, 3), (4, 5), (5, 6), (7, 10), (10, 11), (11, 12), (12, 12)]
    );
}

#[test]
fn an_unterminated_string_and_a_stray_byte_are_error_tokens() {
    let tokens = scan_all(Source::new("#\"abc\n"));
    assert_eq!(tokens[0].ty.try_into_error(), Some("Invalid character"));
    assert_eq!(tokens[1].ty.try_into_error(), Some("Unterminated String"));
    assert_eq!(tokens[1].position.line, 2);
    assert_eq!(tokens[2].ty, TokenKind::EOF);
    assert_eq!(tokens[0].ty, TokenKind::error_type());
}

#[test]
fn a_string_token_spans_its_quotes() {
    let source = Source::new("\"two\nlines\"");
    let tokens = scan_all(source);
    assert_eq!(tokens[0].ty, TokenKind::String);
    assert_eq!(source.get_string(&tokens[0]), b"two\nlines");
    assert_eq!(tokens[0].position.line, 2);
}
