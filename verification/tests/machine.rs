use rlox::bytecode::{
    get_or_insert_string, Chunk, GlobalMap, InternMap, Local, LocalError, LocalMap, Number,
    Opcode, Value, ValueArray,
};
use rlox::compiler::{Position, Precedence, Source, Token, TokenKind};
use rlox::vm::{Signal, VM};

fn number(value: f64) -> Value {
    Value::Number(Number::new(value.to_bits()))
}

fn chunk_of(code: &[u8], constants: Vec<Value>) -> Chunk {
    let mut chunk = Chunk::new();
    for (i, byte) in code.iter().enumerate() {
        chunk.write(*byte, i + 1);
    }
    for constant in constants {
        chunk.add_constant(constant).unwrap();
    }
    chunk
}

fn machine(chunk: &Chunk) -> VM<'_> {
    VM::new(chunk, InternMap::new(), LocalMap::new())
}

#[test]
fn a_forward_jump_lands_after_its_operand_plus_offset() {
    let jmp = Opcode::JMP.encode();
    let nil = Opcode::Nil.encode();
    let chunk = chunk_of(&[jmp, 0, 2, nil, nil, Opcode::True.encode(), Opcode::Ret.encode()], vec![]);
    let mut vm = machine(&chunk);
    assert!(matches!(vm.step(), Ok(Signal::Continue)));
    assert_eq!(vm.ip(), 5);
    assert!(matches!(vm.step(), Ok(Signal::Continue)));
    assert_eq!(vm.stack(), &vec![Value::Bool(true)]);
}

#[test]
fn a_two_byte_offset_is_read_high_byte_first() {
    let mut code = vec![Opcode::JMP.encode(), 1, 4];
    code.resize(3 + 260, Opcode::Nil.encode());
    code.push(Opcode::Ret.encode());
    let chunk = chunk_of(&code, vec![]);
    let mut vm = machine(&chunk);
    assert!(matches!(vm.step(), Ok(Signal::Continue)));
    assert_eq!(vm.ip(), 3 + 260);
    assert!(matches!(vm.step(), Ok(Signal::Halt)));
}

#[test]
fn jz_peeks_and_jumps_only_on_a_falsey_top() {
    let jz = Opcode::JZ.encode();
    let chunk = chunk_of(&[Opcode::False.encode(), jz, 0, 1, Opcode::Nil.encode(), Opcode::Ret.encode()], vec![]);
    let mut vm = machine(&chunk);
    vm.step().unwrap();
    vm.step().unwrap();
    assert_eq!(vm.ip(), 5);
    assert_eq!(vm.stack(), &vec![Value::Bool(false)]);

    let chunk = chunk_of(&[Opcode::True.encode(), jz, 0, 1, Opcode::Nil.encode(), Opcode::Ret.encode()], vec![]);
    let mut vm = machine(&chunk);
    vm.step().unwrap();
    vm.step().unwrap();
    assert_eq!(vm.ip(), 4);
    assert_eq!(vm.stack(), &vec![Value::Bool(true)]);
}

#[test]
fn loop_jumps_back_to_the_recorded_instruction() {
    // 0: TRUE  1: JZ -> 9  4: NIL  5: POP  6: LOOP -> 1  9: RET
    // The condition is looked at again at offset 1 = 6 + 3 - 8.
    let chunk = chunk_of(
        &[
            Opcode::True.encode(),
            Opcode::JZ.encode(),
            0,
            5,
            Opcode::Nil.encode(),
            Opcode::Pop.encode(),
            Opcode::LOOP.encode(),
            0,
            8,
            Opcode::Ret.encode(),
        ],
        vec![],
    );
    let mut vm = machine(&chunk);
    vm.step().unwrap();
    vm.step().unwrap();
    assert_eq!(vm.ip(), 4);
    vm.step().unwrap();
    vm.step().unwrap();
    assert_eq!(vm.ip(), 6);
    vm.step().unwrap();
    assert_eq!(vm.ip(), 1);
    // An endless loop uses up any number of steps and reports that it can go on.
    assert!(matches!(vm.interpret(1000), Ok(Signal::Continue)));
    assert_eq!(vm.stack(), &vec![Value::Bool(true)]);
}

#[test]
fn jumps_out_of_the_code_fail() {
    let chunk = chunk_of(&[Opcode::JMP.encode(), 0, 9], vec![]);
    let error = machine(&chunk).step().unwrap_err();
    assert_eq!(error.message, b"Jump out of range".to_vec());
    assert_eq!(error.line, 1);
    let chunk = chunk_of(&[Opcode::LOOP.encode(), 0, 4], vec![]);
    let error = machine(&chunk).step().unwrap_err();
    assert_eq!(error.message, b"Jump out of range".to_vec());
}

#[test]
fn an_unknown_byte_is_a_decode_failure() {
    let chunk = chunk_of(&[Opcode::Nil.encode(), 200], vec![]);
    let mut vm = machine(&chunk);
    let error = vm.interpret(10).unwrap_err();
    assert_eq!(error.message, b"Couldn't decode opcode".to_vec());
    assert_eq!(error.line, 2);
}

#[test]
fn a_missing_operand_fails() {
    let chunk = chunk_of(&[Opcode::Push.encode()], vec![number(1.0)]);
    let error = machine(&chunk).step().unwrap_err();
    assert_eq!(error.message, b"Instruction lacks its operand".to_vec());
    let chunk = chunk_of(&[Opcode::Push.encode(), 3], vec![number(1.0)]);
    let error = machine(&chunk).step().unwrap_err();
    assert_eq!(error.message, b"Constant index out of range".to_vec());
}

#[test]
fn an_empty_stack_fails_instead_of_panicking() {
    for op in [Opcode::Pop, Opcode::Print, Opcode::Not, Opcode::Neg] {
        let chunk = chunk_of(&[op.encode()], vec![]);
        let error = machine(&chunk).step().unwrap_err();
        assert_eq!(error.message, b"Expected at least one item on the stack".to_vec());
    }
    for op in [Opcode::Add, Opcode::Sub, Opcode::Eq, Opcode::Lt] {
        let chunk = chunk_of(&[Opcode::Nil.encode(), op.encode()], vec![]);
        let mut vm = machine(&chunk);
        vm.step().unwrap();
        let error = vm.step().unwrap_err();
        assert_eq!(error.message, b"Expected at least two items on the stack".to_vec());
        assert_eq!(vm.stack(), &vec![Value::Nil]);
    }
}

#[test]
fn arithmetic_hands_out_left_and_right_and_takes_the_answer() {
    let chunk = chunk_of(
        &[Opcode::Push.encode(), 0, Opcode::Push.encode(), 1, Opcode::Sub.encode(), Opcode::Print.encode(), Opcode::Ret.encode()],
        vec![number(7.0), number(2.0)],
    );
    let mut vm = machine(&chunk);
    match vm.interpret(10) {
        Ok(Signal::Arithmetic { op, left, right }) => {
            assert_eq!(op, Opcode::Sub);
            assert_eq!(f64::from_bits(left.bits), 7.0);
            assert_eq!(f64::from_bits(right.bits), 2.0);
        }
        other => panic!("expected a request, got {:?}", other),
    }
    assert!(vm.stack().is_empty());
    vm.supply(Number::new(5.0f64.to_bits()));
    match vm.interpret(10) {
        Ok(Signal::Print(value)) => assert_eq!(value, number(5.0)),
        other => panic!("expected a print, got {:?}", other),
    }
    assert!(matches!(vm.interpret(10), Ok(Signal::Halt)));
    assert!(matches!(vm.interpret(10), Ok(Signal::Halt)));
}

#[test]
fn locals_are_addressed_from_the_bottom_of_the_stack() {
    let chunk = chunk_of(
        &[
            Opcode::True.encode(),
            Opcode::Nil.encode(),
            Opcode::GetLocal.encode(),
            0,
            Opcode::SetLocal.encode(),
            1,
            Opcode::GetLocal.encode(),
            7,
        ],
        vec![],
    );
    let mut vm = machine(&chunk);
    for _ in 0..4 {
        vm.step().unwrap();
    }
    assert_eq!(vm.stack(), &vec![Value::Bool(true), Value::Bool(true), Value::Bool(true)]);
    assert_eq!(vm.step().unwrap_err().message, b"Local slot out of range".to_vec());
}

#[test]
fn globals_need_a_string_constant_for_their_name() {
    let chunk = chunk_of(&[Opcode::Nil.encode(), Opcode::DefineGlobal.encode(), 0], vec![number(1.0)]);
    let mut vm = machine(&chunk);
    vm.step().unwrap();
    assert_eq!(
        vm.step().unwrap_err().message,
        b"Expected a string constant naming the variable".to_vec()
    );
    let chunk = chunk_of(&[Opcode::True.encode(), Opcode::DefineGlobal.encode(), 0], vec![Value::string(b"on")]);
    let mut vm = machine(&chunk);
    vm.step().unwrap();
    vm.step().unwrap();
    assert_eq!(vm.global(b"on"), Some(&Value::Bool(true)));
    assert_eq!(vm.global(b"off"), None);
}

#[test]
fn the_pool_takes_256_constants_and_no_more() {
    let mut chunk = Chunk::new();
    for i in 0..256 {
        assert_eq!(chunk.add_constant(number(i as f64)), Ok(i as u8));
    }
    assert_eq!(chunk.add_constant(Value::Nil), Err(()));
    assert_eq!(chunk.constants.values.len(), 256);
    assert_eq!(chunk.constants.values[255], number(255.0));
    let mut array = ValueArray::new();
    assert_eq!(array.write(Value::Nil), Ok(0));
    assert_eq!(array.len(), 1);
}

#[test]
fn numbers_compare_as_doubles() {
    let samples = [
        0.0,
        -0.0,
        1.0,
        -1.0,
        0.5,
        -0.5,
        1e300,
        -1e300,
        5e-324,
        -5e-324,
        f64::INFINITY,
        f64::NEG_INFINITY,
        f64::NAN,
        -f64::NAN,
        f64::MAX,
        f64::MIN,
    ];
    for a in samples {
        for b in samples {
            let (l, r) = (Number::new(a.to_bits()), Number::new(b.to_bits()));
            assert_eq!(l.equals(&r), a == b, "{} == {}", a, b);
            assert_eq!(l.less_than(&r), a < b, "{} < {}", a, b);
        }
        let n = Number::new(a.to_bits());
        assert_eq!(n.is_nan(), a.is_nan());
        assert_eq!(n.is_zero(), a == 0.0);
        assert_eq!(n.negate().bits, (-a).to_bits());
        assert_eq!(number(a).is_falsey(), a == 0.0);
    }
}

#[test]
fn values_are_equal_by_kind_and_content() {
    assert_eq!(Value::Nil, Value::Nil);
    assert_ne!(Value::Nil, Value::Bool(false));
    assert_eq!(Value::string(b"ab"), Value::string(b"ab"));
    assert_ne!(Value::string(b"ab"), Value::string(b"abc"));
    assert_ne!(number(f64::NAN), number(f64::NAN));
    assert_eq!(number(0.0), number(-0.0));
    assert!(Value::Nil.is_falsey());
    assert!(Value::Bool(false).is_falsey());
    assert!(!Value::Bool(true).is_falsey());
    assert!(!Value::string(b"").is_falsey());
    assert_eq!(number(2.5).try_into_number().map(|n| n.bits), Ok(2.5f64.to_bits()));
    assert!(Value::Nil.try_into_number().is_err());
}

#[test]
fn a_value_shows_as_text() {
    let show = |n: Number| format!("{}", f64::from_bits(n.bits)).into_bytes();
    assert_eq!(Value::Nil.to_text(&show), b"Nil".to_vec());
    assert_eq!(Value::Bool(true).to_text(&show), b"true".to_vec());
    assert_eq!(Value::Bool(false).to_text(&show), b"false".to_vec());
    assert_eq!(Value::string(b"hi").to_text(&show), b"hi".to_vec());
    assert_eq!(number(1.5).to_text(&show), b"1.5".to_vec());
}

#[test]
fn equal_strings_are_interned_once() {
    let mut table = InternMap::new();
    assert_eq!(get_or_insert_string(b"a", &mut table), b"a".to_vec());
    assert_eq!(get_or_insert_string(b"b", &mut table), b"b".to_vec());
    assert_eq!(get_or_insert_string(b"a", &mut table), b"a".to_vec());
    assert_eq!(table.len(), 2);
    assert_eq!(table.find(b"b"), Some(1));
    assert_eq!(table.find(b"c"), None);
}

#[test]
fn globals_are_defined_overwritten_and_assigned() {
    let mut globals = GlobalMap::new();
    globals.define(b"a".to_vec(), number(1.0));
    globals.define(b"a".to_vec(), number(2.0));
    assert_eq!(globals.len(), 1);
    assert_eq!(globals.get(b"a"), Some(&number(2.0)));
    assert!(globals.set(b"a", Value::Nil));
    assert!(!globals.set(b"b", Value::Nil));
    assert_eq!(globals.get(b"a"), Some(&Value::Nil));
    assert_eq!(globals.get(b"b"), None);
}

fn name_at(start: usize, end: usize) -> Token {
    Token::new(TokenKind::Identifier, Position::new(start, end, 1))
}

#[test]
fn leaving_a_scope_drops_its_locals() {
    let source = Source::new("a b c a");
    let mut locals = LocalMap::new();
    assert!(!locals.in_scope());
    locals.begin_scope();
    assert_eq!(locals.add(name_at(0, 1), &source), Ok(()));
    locals.mark_initialized();
    locals.begin_scope();
    assert_eq!(locals.add(name_at(2, 3), &source), Ok(()));
    locals.mark_initialized();
    assert_eq!(locals.add(name_at(4, 5), &source), Ok(()));
    assert!(locals.is_initialized(1));
    assert!(!locals.is_initialized(2));
    assert_eq!(locals.resolve(b"c", &source), Some(2));
    assert_eq!(locals.end_scope(), 2);
    assert_eq!(locals.len(), 1);
    assert_eq!(locals.scope_depth(), 1);
    assert_eq!(locals.resolve(b"a", &source), Some(0));
    assert_eq!(locals.resolve(b"b", &source), None);
    assert_eq!(locals.end_scope(), 1);
    assert_eq!(locals.len(), 0);
}

#[test]
fn the_innermost_local_of_a_name_wins() {
    let source = Source::new("a b c a");
    let mut locals = LocalMap::new();
    locals.begin_scope();
    locals.add(name_at(0, 1), &source).unwrap();
    locals.mark_initialized();
    assert_eq!(locals.add(name_at(6, 7), &source), Err(LocalError::Duplicate));
    locals.begin_scope();
    assert_eq!(locals.add(name_at(6, 7), &source), Ok(()));
    assert_eq!(locals.resolve(b"a", &source), Some(1));
    let local = Local::new(name_at(0, 1), 3);
    assert_eq!(local.depth, 3);
}

#[test]
fn at_most_255_locals_are_live() {
    let text: String = (0..300).map(|i| format!("v{:03} ", i)).collect();
    let source = Source::new(&text);
    let mut locals = LocalMap::new();
    locals.begin_scope();
    for i in 0..255 {
        assert_eq!(locals.add(name_at(i * 5, i * 5 + 4), &source), Ok(()));
        locals.mark_initialized();
    }
    assert_eq!(locals.add(name_at(255 * 5, 255 * 5 + 4), &source), Err(LocalError::TooMany));
    assert_eq!(locals.end_scope(), 255);
}

#[test]
fn precedence_levels_are_ordered() {
    assert_eq!(Precedence::Lowest.rank(), 0);
    assert_eq!(Precedence::Primary.rank(), 10);
    assert_eq!(Precedence::of_rank(6), Some(Precedence::Term));
    assert_eq!(Precedence::of_rank(11), None);
    assert_eq!(Precedence::Term.next(), Precedence::Factor);
    assert_eq!(Precedence::Primary.next(), Precedence::Primary);
    assert!(Precedence::Assignment.at_most(Precedence::Or));
    assert!(!Precedence::Unary.at_most(Precedence::Term));
}

#[test]
fn a_source_hands_out_lexemes_within_its_text() {
    let source = Source::new("print x;");
    assert_eq!(source.len(), 8);
    assert_eq!(source.try_lexeme(&name_at(6, 7)), Some(&b"x"[..]));
    assert_eq!(source.try_lexeme(&name_at(6, 9)), None);
    assert_eq!(source.try_lexeme(&name_at(7, 6)), None);
}
