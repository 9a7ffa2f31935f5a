use crate::bytecode::chunk::Chunk;
use crate::bytecode::number::Number;
use crate::bytecode::opcode::Opcode;
use crate::bytecode::strings::{get_or_insert_string, InternMap};
use crate::bytecode::value::{values_view, Value, ValueView};
use crate::bytecode::variables::{GlobalMap, LocalMap};
use crate::text::concat_bytes;
use crate::vm::errors::{quoting, RuntimeError};
use vstd::prelude::*;
use vstd::string::StringSliceAdditionalSpecFns;

verus! {

/// The operand stack.
pub type Stack = Vec<Value>;

/// What a chunk holds.
pub struct ChunkView {
    pub code: Seq<u8>,
    pub constants: Seq<ValueView>,
    pub lines: Seq<usize>,
}

impl View for Chunk {
    type V = ChunkView;

    open spec fn view(&self) -> ChunkView {
        ChunkView { code: self.code@, constants: self.constants@, lines: self.lines@ }
    }
}

/// The state of the machine: the offset of the next instruction, the operand
/// stack with its top last, the global variables and the interned strings.
pub struct Machine {
    pub ip: int,
    pub stack: Seq<ValueView>,
    pub globals: Map<Seq<u8>, ValueView>,
    pub strings: Seq<Seq<u8>>,
}

/// How a step, or a run, ended.
pub enum Outcome {
    /// Nothing to report: the program goes on.
    Continue,
    /// The program has ended.
    Halt,
    /// The program prints a value.
    Print(ValueView),
    /// The program needs the sum, difference, product or quotient of two
    /// numbers, which is to be pushed before it goes on.
    Arithmetic { op: Opcode, left: Number, right: Number },
    /// The program failed.
    Fault { line: usize, message: Seq<u8> },
}

/// What the machine asks of its caller when it stops.
#[derive(Debug)]
pub enum Signal {
    /// The steps granted are used up; the program can go on.
    Continue,
    /// The program has ended.
    Halt,
    /// The value is to be printed; then the program can go on.
    Print(Value),
    /// The result of the operation on the two numbers is to be supplied;
    /// then the program can go on.
    Arithmetic { op: Opcode, left: Number, right: Number },
}

pub type VMResult = Result<Signal, RuntimeError>;

/// The outcome that a result stands for.
pub open spec fn outcome_of(result: VMResult) -> Outcome {
    match result {
        Ok(Signal::Continue) => Outcome::Continue,
        Ok(Signal::Halt) => Outcome::Halt,
        Ok(Signal::Print(value)) => Outcome::Print(value@),
        Ok(Signal::Arithmetic { op, left, right }) => Outcome::Arithmetic { op, left, right },
        Err(error) => Outcome::Fault { line: error.line, message: error.message@ },
    }
}

/// The source line of the code byte at an offset; 0 where none is recorded.
pub open spec fn line_at(chunk: ChunkView, offset: int) -> usize {
    if 0 <= offset < chunk.lines.len() {
        chunk.lines[offset]
    } else {
        0
    }
}

/// A failure of the instruction at the machine's offset, which leaves the
/// machine as it is.
pub open spec fn fault(chunk: ChunkView, m: Machine, message: Seq<u8>) -> (Machine, Outcome) {
    (m, Outcome::Fault { line: line_at(chunk, m.ip), message })
}

/// The strings with `text` among them.
pub open spec fn interned(strings: Seq<Seq<u8>>, text: Seq<u8>) -> Seq<Seq<u8>> {
    if strings.contains(text) {
        strings
    } else {
        strings.push(text)
    }
}

/// The one-byte operand of the instruction at the machine's offset.
pub open spec fn operand(chunk: ChunkView, m: Machine) -> u8 {
    chunk.code[m.ip + 1]
}

/// The two-byte operand of the instruction at the machine's offset, high
/// byte first.
pub open spec fn wide_operand(chunk: ChunkView, m: Machine) -> int {
    chunk.code[m.ip + 1] as int * 256 + chunk.code[m.ip + 2] as int
}

/// The machine with its offset moved on by `by` bytes.
pub open spec fn moved(m: Machine, by: int) -> Machine {
    Machine { ip: m.ip + by, ..m }
}

/// The machine with another stack.
pub open spec fn with_stack(m: Machine, stack: Seq<ValueView>) -> Machine {
    Machine { stack, ..m }
}

pub open spec fn msg_decode() -> Seq<u8> {
    "Couldn't decode opcode".spec_bytes()
}

pub open spec fn msg_truncated() -> Seq<u8> {
    "Instruction lacks its operand".spec_bytes()
}

pub open spec fn msg_constant() -> Seq<u8> {
    "Constant index out of range".spec_bytes()
}

pub open spec fn msg_name() -> Seq<u8> {
    "Expected a string constant naming the variable".spec_bytes()
}

pub open spec fn msg_slot() -> Seq<u8> {
    "Local slot out of range".spec_bytes()
}

pub open spec fn msg_jump() -> Seq<u8> {
    "Jump out of range".spec_bytes()
}

pub open spec fn msg_one_item() -> Seq<u8> {
    "Expected at least one item on the stack".spec_bytes()
}

pub open spec fn msg_two_items() -> Seq<u8> {
    "Expected at least two items on the stack".spec_bytes()
}

pub open spec fn msg_number() -> Seq<u8> {
    "Operand must be a number".spec_bytes()
}

pub open spec fn msg_two_numbers() -> Seq<u8> {
    "Expected two numbers on the stack".spec_bytes()
}

pub open spec fn msg_numbers_or_strings() -> Seq<u8> {
    "Expected two numbers or two strings on the stack".spec_bytes()
}

/// `PUSH`: pushes the constant that the operand names.
pub open spec fn exec_push(chunk: ChunkView, m: Machine) -> (Machine, Outcome) {
    let index = operand(chunk, m) as int;
    if index < chunk.constants.len() {
        (moved(with_stack(m, m.stack.push(chunk.constants[index])), 2), Outcome::Continue)
    } else {
        fault(chunk, m, msg_constant())
    }
}

/// `NEG`: replaces the number on top by its negation.
pub open spec fn exec_neg(chunk: ChunkView, m: Machine) -> (Machine, Outcome) {
    if m.stack.len() == 0 {
        fault(chunk, m, msg_one_item())
    } else {
        match m.stack.last() {
            ValueView::Number(n) => (
                moved(with_stack(m, m.stack.drop_last().push(ValueView::Number(n.negated()))), 1),
                Outcome::Continue,
            ),
            _ => fault(chunk, m, msg_number()),
        }
    }
}

/// `ADD`, `SUB`, `MUL`, `DIV`: takes the right operand, then the left, off
/// the stack. Two numbers are handed out for the operation. `ADD` of two
/// strings pushes their concatenation, interned.
pub open spec fn exec_arithmetic(chunk: ChunkView, m: Machine, op: Opcode) -> (Machine, Outcome) {
    if m.stack.len() < 2 {
        fault(chunk, m, msg_two_items())
    } else {
        let right = m.stack[m.stack.len() - 1];
        let left = m.stack[m.stack.len() - 2];
        let rest = m.stack.subrange(0, m.stack.len() - 2);
        match (left, right) {
            (ValueView::Number(l), ValueView::Number(r)) => (
                moved(with_stack(m, rest), 1),
                Outcome::Arithmetic { op, left: l, right: r },
            ),
            (ValueView::Str(l), ValueView::Str(r)) => if op == Opcode::Add {
                (
                    Machine {
                        ip: m.ip + 1,
                        stack: rest.push(ValueView::Str(l + r)),
                        globals: m.globals,
                        strings: interned(m.strings, l + r),
                    },
                    Outcome::Continue,
                )
            } else {
                fault(chunk, m, msg_two_numbers())
            },
            _ => if op == Opcode::Add {
                fault(chunk, m, msg_numbers_or_strings())
            } else {
                fault(chunk, m, msg_two_numbers())
            },
        }
    }
}

/// `TRUE`, `FALSE`, `NIL`: pushes the value.
pub open spec fn exec_literal(m: Machine, value: ValueView) -> (Machine, Outcome) {
    (moved(with_stack(m, m.stack.push(value)), 1), Outcome::Continue)
}

/// `NOT`: replaces the top by whether it counts as false.
pub open spec fn exec_not(chunk: ChunkView, m: Machine) -> (Machine, Outcome) {
    if m.stack.len() == 0 {
        fault(chunk, m, msg_one_item())
    } else {
        (
            moved(
                with_stack(m, m.stack.drop_last().push(ValueView::Bool(m.stack.last().falsey()))),
                1,
            ),
            Outcome::Continue,
        )
    }
}

/// `EQ`: replaces the two values on top by whether they are equal.
pub open spec fn exec_eq(chunk: ChunkView, m: Machine) -> (Machine, Outcome) {
    if m.stack.len() < 2 {
        fault(chunk, m, msg_two_items())
    } else {
        let right = m.stack[m.stack.len() - 1];
        let left = m.stack[m.stack.len() - 2];
        let rest = m.stack.subrange(0, m.stack.len() - 2);
        (moved(with_stack(m, rest.push(ValueView::Bool(right.equal(left)))), 1), Outcome::Continue)
    }
}

/// `GT`, `LT`: replaces the two numbers on top by whether the left one is
/// above, or below, the right one.
pub open spec fn exec_compare(chunk: ChunkView, m: Machine, op: Opcode) -> (Machine, Outcome) {
    if m.stack.len() < 2 {
        fault(chunk, m, msg_two_items())
    } else {
        let right = m.stack[m.stack.len() - 1];
        let left = m.stack[m.stack.len() - 2];
        let rest = m.stack.subrange(0, m.stack.len() - 2);
        match (left, right) {
            (ValueView::Number(l), ValueView::Number(r)) => {
                let holds = if op == Opcode::Gt {
                    r.ieee_lt(l)
                } else {
                    l.ieee_lt(r)
                };
                (moved(with_stack(m, rest.push(ValueView::Bool(holds))), 1), Outcome::Continue)
            },
            _ => fault(chunk, m, msg_two_numbers()),
        }
    }
}

/// `PRINT`: takes the top off the stack and hands it out for printing.
pub open spec fn exec_print(chunk: ChunkView, m: Machine) -> (Machine, Outcome) {
    if m.stack.len() == 0 {
        fault(chunk, m, msg_one_item())
    } else {
        (moved(with_stack(m, m.stack.drop_last()), 1), Outcome::Print(m.stack.last()))
    }
}

/// `POP`: drops the top.
pub open spec fn exec_pop(chunk: ChunkView, m: Machine) -> (Machine, Outcome) {
    if m.stack.len() == 0 {
        fault(chunk, m, msg_one_item())
    } else {
        (moved(with_stack(m, m.stack.drop_last()), 1), Outcome::Continue)
    }
}

/// The name that the operand's constant spells, if the constant is a string.
pub open spec fn global_name(chunk: ChunkView, m: Machine) -> Option<Seq<u8>> {
    let index = operand(chunk, m) as int;
    if index < chunk.constants.len() {
        match chunk.constants[index] {
            ValueView::Str(name) => Some(name),
            _ => None,
        }
    } else {
        None
    }
}

/// The failure of an instruction whose operand names no variable.
pub open spec fn name_fault(chunk: ChunkView, m: Machine) -> (Machine, Outcome) {
    if operand(chunk, m) < chunk.constants.len() {
        fault(chunk, m, msg_name())
    } else {
        fault(chunk, m, msg_constant())
    }
}

/// `DEF_GLOBAL`: takes the top off the stack and binds the name to it.
pub open spec fn exec_define_global(chunk: ChunkView, m: Machine) -> (Machine, Outcome) {
    match global_name(chunk, m) {
        None => name_fault(chunk, m),
        Some(name) => if m.stack.len() == 0 {
            fault(chunk, m, msg_one_item())
        } else {
            (
                Machine {
                    ip: m.ip + 2,
                    stack: m.stack.drop_last(),
                    globals: m.globals.insert(name, m.stack.last()),
                    strings: m.strings,
                },
                Outcome::Continue,
            )
        },
    }
}

/// `GET_GLOBAL`: pushes the value bound to the name; fails on a name that
/// is not bound.
pub open spec fn exec_get_global(chunk: ChunkView, m: Machine) -> (Machine, Outcome) {
    match global_name(chunk, m) {
        None => name_fault(chunk, m),
        Some(name) => if m.globals.dom().contains(name) {
            (moved(with_stack(m, m.stack.push(m.globals[name])), 2), Outcome::Continue)
        } else {
            fault(chunk, m, quoting("Tried to get value of undefined variable '", name))
        },
    }
}

/// `SET_GLOBAL`: binds the name to the top of the stack, which stays; fails
/// on a name that is not bound.
pub open spec fn exec_set_global(chunk: ChunkView, m: Machine) -> (Machine, Outcome) {
    match global_name(chunk, m) {
        None => name_fault(chunk, m),
        Some(name) => if !m.globals.dom().contains(name) {
            fault(chunk, m, quoting("Tried to assign to undefined variable '", name))
        } else if m.stack.len() == 0 {
            fault(chunk, m, msg_one_item())
        } else {
            (
                Machine {
                    ip: m.ip + 2,
                    stack: m.stack,
                    globals: m.globals.insert(name, m.stack.last()),
                    strings: m.strings,
                },
                Outcome::Continue,
            )
        },
    }
}

/// `GET_LOCAL`: pushes the value in the stack slot that the operand names.
pub open spec fn exec_get_local(chunk: ChunkView, m: Machine) -> (Machine, Outcome) {
    let slot = operand(chunk, m) as int;
    if slot < m.stack.len() {
        (moved(with_stack(m, m.stack.push(m.stack[slot])), 2), Outcome::Continue)
    } else {
        fault(chunk, m, msg_slot())
    }
}

/// `SET_LOCAL`: stores the top of the stack, which stays, in the stack slot
/// that the operand names.
pub open spec fn exec_set_local(chunk: ChunkView, m: Machine) -> (Machine, Outcome) {
    let slot = operand(chunk, m) as int;
    if slot < m.stack.len() {
        (moved(with_stack(m, m.stack.update(slot, m.stack.last())), 2), Outcome::Continue)
    } else {
        fault(chunk, m, msg_slot())
    }
}

/// Where a forward jump from the instruction at `ip` lands: `offset` bytes
/// after the end of its two-byte operand.
pub open spec fn forward_target(ip: int, offset: int) -> int {
    ip + 3 + offset
}

/// Where a backward jump from the instruction at `ip` lands: `offset` bytes
/// before the end of its two-byte operand.
pub open spec fn backward_target(ip: int, offset: int) -> int {
    ip + 3 - offset
}

/// `JMP`: jumps forward.
pub open spec fn exec_jmp(chunk: ChunkView, m: Machine) -> (Machine, Outcome) {
    let target = forward_target(m.ip, wide_operand(chunk, m));
    if target <= chunk.code.len() {
        (Machine { ip: target, ..m }, Outcome::Continue)
    } else {
        fault(chunk, m, msg_jump())
    }
}

/// `JZ`: jumps forward if the top of the stack, which stays, counts as
/// false.
pub open spec fn exec_jz(chunk: ChunkView, m: Machine) -> (Machine, Outcome) {
    if m.stack.len() == 0 {
        fault(chunk, m, msg_one_item())
    } else if m.stack.last().falsey() {
        exec_jmp(chunk, m)
    } else {
        (moved(m, 3), Outcome::Continue)
    }
}

/// `LOOP`: jumps backward.
pub open spec fn exec_loop(chunk: ChunkView, m: Machine) -> (Machine, Outcome) {
    let target = backward_target(m.ip, wide_operand(chunk, m));
    if target >= 0 {
        (Machine { ip: target, ..m }, Outcome::Continue)
    } else {
        fault(chunk, m, msg_jump())
    }
}

/// `RET`: drops the top of the stack, if there is one, and ends the program:
/// the offset moves to the end of the code.
pub open spec fn exec_ret(chunk: ChunkView, m: Machine) -> (Machine, Outcome) {
    let stack = if m.stack.len() > 0 {
        m.stack.drop_last()
    } else {
        m.stack
    };
    (Machine { ip: chunk.code.len() as int, stack, globals: m.globals, strings: m.strings }, Outcome::Halt)
}

/// What an instruction whose operand is in the code does.
pub open spec fn execute(chunk: ChunkView, m: Machine, op: Opcode) -> (Machine, Outcome) {
    match op {
        Opcode::Ret => exec_ret(chunk, m),
        Opcode::Push => exec_push(chunk, m),
        Opcode::Neg => exec_neg(chunk, m),
        Opcode::Add | Opcode::Sub | Opcode::Mul | Opcode::Div => exec_arithmetic(chunk, m, op),
        Opcode::True => exec_literal(m, ValueView::Bool(true)),
        Opcode::False => exec_literal(m, ValueView::Bool(false)),
        Opcode::Nil => exec_literal(m, ValueView::Nil),
        Opcode::Not => exec_not(chunk, m),
        Opcode::Eq => exec_eq(chunk, m),
        Opcode::Gt | Opcode::Lt => exec_compare(chunk, m, op),
        Opcode::Print => exec_print(chunk, m),
        Opcode::Pop => exec_pop(chunk, m),
        Opcode::DefineGlobal => exec_define_global(chunk, m),
        Opcode::GetGlobal => exec_get_global(chunk, m),
        Opcode::SetGlobal => exec_set_global(chunk, m),
        Opcode::GetLocal => exec_get_local(chunk, m),
        Opcode::SetLocal => exec_set_local(chunk, m),
        Opcode::JZ => exec_jz(chunk, m),
        Opcode::JMP => exec_jmp(chunk, m),
        Opcode::LOOP => exec_loop(chunk, m),
    }
}

/// One step of the machine. At or beyond the end of the code the program has
/// ended. A byte that stands for no instruction, and an instruction whose
/// operand the code does not hold, fail.
pub open spec fn step(chunk: ChunkView, m: Machine) -> (Machine, Outcome) {
    if m.ip < 0 || m.ip >= chunk.code.len() {
        (m, Outcome::Halt)
    } else {
        match Opcode::of_byte(chunk.code[m.ip]) {
            None => fault(chunk, m, msg_decode()),
            Some(op) => if m.ip + 1 + op.operand_len() > chunk.code.len() {
                fault(chunk, m, msg_truncated())
            } else {
                execute(chunk, m, op)
            },
        }
    }
}

/// Up to `fuel` steps of the machine, ending with the first step that has
/// something to report.
pub open spec fn run(chunk: ChunkView, m: Machine, fuel: nat) -> (Machine, Outcome)
    decreases fuel,
{
    if fuel == 0 {
        (m, Outcome::Continue)
    } else {
        let (next, outcome) = step(chunk, m);
        if outcome is Continue {
            run(chunk, next, (fuel - 1) as nat)
        } else {
            (next, outcome)
        }
    }
}

/// The view of a stack with one value more.
pub proof fn lemma_view_push(stack: Seq<Value>, value: Value)
    ensures
        values_view(stack.push(value)) == values_view(stack).push(value@),
{
    assert(values_view(stack.push(value)) =~= values_view(stack).push(value@));
}

/// The view of a stack without its top.
pub proof fn lemma_view_drop_last(stack: Seq<Value>)
    requires
        stack.len() > 0,
    ensures
        values_view(stack.drop_last()) == values_view(stack).drop_last(),
        values_view(stack).last() == stack.last()@,
{
    assert(values_view(stack.drop_last()) =~= values_view(stack).drop_last());
}

/// The view of a stack with one slot changed.
pub proof fn lemma_view_update(stack: Seq<Value>, slot: int, value: Value)
    requires
        0 <= slot < stack.len(),
    ensures
        values_view(stack.update(slot, value)) == values_view(stack).update(slot, value@),
{
    assert(values_view(stack.update(slot, value)) =~= values_view(stack).update(slot, value@));
}

/// The machine that runs one chunk.
pub struct VM<'chunk> {
    chunk: &'chunk Chunk,
    ip: usize,
    stack: Stack,
    globals: GlobalMap,
    strings: InternMap,
    locals: LocalMap,
}

impl<'chunk> View for VM<'chunk> {
    type V = Machine;

    closed spec fn view(&self) -> Machine {
        Machine {
            ip: self.ip as int,
            stack: values_view(self.stack@),
            globals: self.globals@,
            strings: self.strings@,
        }
    }
}

impl<'chunk> VM<'chunk> {
    /// The chunk that the machine runs.
    pub closed spec fn program(&self) -> ChunkView {
        self.chunk@
    }

    /// The tables of the machine are in order, and the offset lies within the
    /// code or at its end.
    pub closed spec fn wf(&self) -> bool {
        &&& self.globals.wf()
        &&& self.ip <= self.chunk.code@.len()
    }

    /// A machine at the start of the chunk, with an empty stack and no
    /// global variable, that interns into the given strings.
    pub fn new(chunk: &'chunk Chunk, strings: InternMap, locals: LocalMap) -> (vm: VM<'chunk>)
        ensures
            vm.wf(),
            vm.program() == chunk@,
            vm@ == (Machine {
                ip: 0,
                stack: Seq::<ValueView>::empty(),
                globals: Map::<Seq<u8>, ValueView>::empty(),
                strings: strings@,
            }),
    {
        let vm = VM { chunk, ip: 0, stack: Vec::new(), globals: GlobalMap::new(), strings, locals };
        assert(values_view(vm.stack@) =~= Seq::<ValueView>::empty());
        vm
    }

    /// The offset of the next instruction.
    pub fn ip(&self) -> (ip: usize)
        ensures
            ip == self@.ip,
    {
        self.ip
    }

    /// The operand stack, top last.
    pub fn stack(&self) -> (stack: &Stack)
        ensures
            values_view(stack@) == self@.stack,
    {
        &self.stack
    }

    /// The value of a global variable, if the name is bound.
    pub fn global(&self, name: &[u8]) -> (value: Option<&Value>)
        requires
            self.wf(),
        ensures
            value.is_some() <==> self@.globals.dom().contains(name@),
            value.is_some() ==> value.unwrap()@ == self@.globals[name@],
    {
        self.globals.get(name)
    }

    /// Pushes a number: the answer to an `Arithmetic` signal.
    pub fn supply(&mut self, number: Number)
        requires
            old(self).wf(),
        ensures
            final(self).wf(),
            final(self).program() == old(self).program(),
            final(self)@ == with_stack(old(self)@, old(self)@.stack.push(ValueView::Number(number))),
    {
        proof {
            lemma_view_push(self.stack@, Value::Number(number));
        }
        self.stack.push(Value::Number(number));
    }

    /// Runs the program for at most `fuel` steps, up to the first step that
    /// has something to report. `Continue` says that the steps are used up.
    pub fn interpret(&mut self, fuel: usize) -> (result: VMResult)
        requires
            old(self).wf(),
        ensures
            final(self).wf(),
            final(self).program() == old(self).program(),
            (final(self)@, outcome_of(result)) == run(
                old(self).program(),
                old(self)@,
                fuel as nat,
            ),
    {
        let mut left: usize = fuel;
        while left > 0
            invariant
                self.wf(),
                self.program() == old(self).program(),
                run(self.program(), self@, left as nat) == run(
                    old(self).program(),
                    old(self)@,
                    fuel as nat,
                ),
            decreases left,
        {
            let result: VMResult = self.step();
            match result {
                Ok(Signal::Continue) => {},
                _ => {
                    return result;
                },
            }
            left -= 1;
        }
        Ok(Signal::Continue)
    }

    /// Runs one instruction.
    pub fn step(&mut self) -> (result: VMResult)
        requires
            old(self).wf(),
        ensures
            final(self).wf(),
            final(self).program() == old(self).program(),
            (final(self)@, outcome_of(result)) == step(old(self).program(), old(self)@),
    {
        if self.ip >= self.chunk.code.len() {
            return Ok(Signal::Halt);
        }
        let instruction: u8 = self.chunk.code[self.ip];
        let opcode: Opcode = match Opcode::decode(instruction) {
            Ok(opcode) => opcode,
            Err(_) => {
                return Err(self.error("Couldn't decode opcode"));
            },
        };
        if opcode.operand_width() > self.chunk.code.len() - self.ip - 1 {
            return Err(self.error("Instruction lacks its operand"));
        }
        match opcode {
            Opcode::Ret => {
                if self.stack.len() > 0 {
                    proof {
                        lemma_view_drop_last(self.stack@);
                    }
                    self.stack.pop();
                }
                self.ip = self.chunk.code.len();
                Ok(Signal::Halt)
            },
            Opcode::Push => {
                match self.read_constant() {
                    Some(constant) => {
                        proof {
                            lemma_view_push(self.stack@, constant);
                        }
                        self.stack.push(constant);
                        self.ip += 2;
                        Ok(Signal::Continue)
                    },
                    None => Err(self.error("Constant index out of range")),
                }
            },
            Opcode::Neg => self.negate(),
            Opcode::Add => self.add(),
            Opcode::Sub => self.binary_op(Opcode::Sub),
            Opcode::Mul => self.binary_op(Opcode::Mul),
            Opcode::Div => self.binary_op(Opcode::Div),
            Opcode::True => self.literal(Value::Bool(true)),
            Opcode::False => self.literal(Value::Bool(false)),
            Opcode::Nil => self.literal(Value::Nil),
            Opcode::Not => {
                if self.stack.len() == 0 {
                    return Err(self.error("Expected at least one item on the stack"));
                }
                proof {
                    lemma_view_drop_last(self.stack@);
                }
                let value: Value = self.stack.pop().unwrap();
                let negated: Value = Value::Bool(value.is_falsey());
                proof {
                    lemma_view_push(self.stack@, negated);
                }
                self.stack.push(negated);
                self.ip += 1;
                Ok(Signal::Continue)
            },
            Opcode::Eq => {
                if self.stack.len() < 2 {
                    return Err(self.error("Expected at least two items on the stack"));
                }
                let (left, right) = self.pop_two();
                let same: Value = Value::Bool(right == left);
                proof {
                    lemma_view_push(self.stack@, same);
                }
                self.stack.push(same);
                self.ip += 1;
                Ok(Signal::Continue)
            },
            Opcode::Gt => self.compare(Opcode::Gt),
            Opcode::Lt => self.compare(Opcode::Lt),
            Opcode::Print => {
                if self.stack.len() == 0 {
                    return Err(self.error("Expected at least one item on the stack"));
                }
                proof {
                    lemma_view_drop_last(self.stack@);
                }
                let value: Value = self.stack.pop().unwrap();
                self.ip += 1;
                Ok(Signal::Print(value))
            },
            Opcode::Pop => {
                if self.stack.len() == 0 {
                    return Err(self.error("Expected at least one item on the stack"));
                }
                proof {
                    lemma_view_drop_last(self.stack@);
                }
                self.stack.pop();
                self.ip += 1;
                Ok(Signal::Continue)
            },
            Opcode::DefineGlobal => self.define_global(),
            Opcode::GetGlobal => self.get_global(),
            Opcode::SetGlobal => self.set_global(),
            Opcode::GetLocal => {
                let slot: usize = self.chunk.code[self.ip + 1] as usize;
                if slot >= self.stack.len() {
                    return Err(self.error("Local slot out of range"));
                }
                let value: Value = self.stack[slot].clone();
                proof {
                    lemma_view_push(self.stack@, value);
                }
                self.stack.push(value);
                self.ip += 2;
                Ok(Signal::Continue)
            },
            Opcode::SetLocal => {
                let slot: usize = self.chunk.code[self.ip + 1] as usize;
                if slot >= self.stack.len() {
                    return Err(self.error("Local slot out of range"));
                }
                let value: Value = self.stack[self.stack.len() - 1].clone();
                proof {
                    lemma_view_update(self.stack@, slot as int, value);
                }
                self.stack[slot] = value;
                self.ip += 2;
                Ok(Signal::Continue)
            },
            Opcode::JZ => {
                if self.stack.len() == 0 {
                    return Err(self.error("Expected at least one item on the stack"));
                }
                if self.stack[self.stack.len() - 1].is_falsey() {
                    self.jump_forward()
                } else {
                    self.ip += 3;
                    Ok(Signal::Continue)
                }
            },
            Opcode::JMP => self.jump_forward(),
            Opcode::LOOP => {
                let offset: usize = self.read_short() as usize;
                if offset > self.ip + 3 {
                    return Err(self.error("Jump out of range"));
                }
                self.ip = self.ip + 3 - offset;
                Ok(Signal::Continue)
            },
        }
    }

    /// An error at the line of the instruction about to run.
    fn error(&self, message: &str) -> (error: RuntimeError)
        ensures
            error.line == line_at(self.chunk@, self.ip as int),
            error.message@ == message.spec_bytes(),
    {
        RuntimeError::new(self.chunk.line_at(self.ip), message)
    }

    /// The two-byte operand of the instruction about to run.
    fn read_short(&self) -> (operand: u16)
        requires
            self.ip + 2 < self.chunk.code@.len(),
        ensures
            operand == wide_operand(self.chunk@, self@),
    {
        let length: usize = self.chunk.code.len();
        let top: u16 = self.chunk.code[self.ip + 1] as u16;
        let bottom: u16 = self.chunk.code[self.ip + 2] as u16;
        assert(top * 256 + bottom <= 0xffff) by {
            assert(top <= 255 && bottom <= 255);
        }
        top * 256 + bottom
    }

    /// A copy of the constant that the operand names, if the pool has it.
    fn read_constant(&self) -> (constant: Option<Value>)
        requires
            self.ip + 1 < self.chunk.code@.len(),
        ensures
            constant.is_some() <==> operand(self.chunk@, self@) < self.chunk@.constants.len(),
            constant.is_some() ==> constant.unwrap()@ == self.chunk@.constants[operand(
                self.chunk@,
                self@,
            ) as int],
    {
        let length: usize = self.chunk.code.len();
        let index: usize = self.chunk.code[self.ip + 1] as usize;
        match self.chunk.constants.get(index) {
            Some(value) => Some(value.clone()),
            None => None,
        }
    }

    /// The name that the operand's constant spells, or the failure of an
    /// operand that names no variable.
    fn read_string(&self) -> (name: Result<Vec<u8>, RuntimeError>)
        requires
            self.ip + 1 < self.chunk.code@.len(),
        ensures
            name.is_ok() <==> global_name(self.chunk@, self@).is_some(),
            name.is_ok() ==> Some(name.unwrap()@) == global_name(self.chunk@, self@),
            name.is_err() ==> (self@, outcome_of(Err(name.unwrap_err()))) == name_fault(
                self.chunk@,
                self@,
            ),
    {
        match self.read_constant() {
            Some(Value::Obj(obj)) => Ok(crate::text::to_bytes(obj.as_bytes().as_slice())),
            Some(_) => Err(self.error("Expected a string constant naming the variable")),
            None => Err(self.error("Constant index out of range")),
        }
    }

    /// Takes the two values on top off the stack: the right one, then the
    /// left one.
    fn pop_two(&mut self) -> (pair: (Value, Value))
        requires
            old(self).stack@.len() >= 2,
        ensures
            final(self).chunk == old(self).chunk,
            final(self).ip == old(self).ip,
            final(self).globals == old(self).globals,
            final(self).strings == old(self).strings,
            final(self).locals == old(self).locals,
            final(self).stack@ == old(self).stack@.subrange(0, old(self).stack@.len() - 2),
            values_view(final(self).stack@) == old(self)@.stack.subrange(
                0,
                old(self)@.stack.len() - 2,
            ),
            pair.0@ == old(self)@.stack[old(self)@.stack.len() - 2],
            pair.1@ == old(self)@.stack[old(self)@.stack.len() - 1],
    {
        let right: Value = self.stack.pop().unwrap();
        let left: Value = self.stack.pop().unwrap();
        proof {
            assert(self.stack@ =~= old(self).stack@.subrange(0, old(self).stack@.len() - 2));
            assert(values_view(self.stack@) =~= old(self)@.stack.subrange(
                0,
                old(self)@.stack.len() - 2,
            ));
        }
        (left, right)
    }

    /// `TRUE`, `FALSE`, `NIL`.
    fn literal(&mut self, value: Value) -> (result: VMResult)
        requires
            old(self).wf(),
            old(self).ip < old(self).chunk.code@.len(),
        ensures
            final(self).wf(),
            final(self).program() == old(self).program(),
            (final(self)@, outcome_of(result)) == exec_literal(old(self)@, value@),
    {
        let length: usize = self.chunk.code.len();
        proof {
            lemma_view_push(self.stack@, value);
        }
        self.stack.push(value);
        self.ip += 1;
        Ok(Signal::Continue)
    }

    /// `NEG`.
    fn negate(&mut self) -> (result: VMResult)
        requires
            old(self).wf(),
            old(self).ip < old(self).chunk.code@.len(),
        ensures
            final(self).wf(),
            final(self).program() == old(self).program(),
            (final(self)@, outcome_of(result)) == exec_neg(old(self).program(), old(self)@),
    {
        let length: usize = self.chunk.code.len();
        if self.stack.len() == 0 {
            return Err(self.error("Expected at least one item on the stack"));
        }
        let number: Number = match &self.stack[self.stack.len() - 1] {
            Value::Number(n) => *n,
            _ => {
                return Err(self.error("Operand must be a number"));
            },
        };
        proof {
            lemma_view_drop_last(self.stack@);
        }
        self.stack.pop();
        let negated: Value = Value::Number(number.negate());
        proof {
            lemma_view_push(self.stack@, negated);
        }
        self.stack.push(negated);
        self.ip += 1;
        Ok(Signal::Continue)
    }

    /// `SUB`, `MUL`, `DIV`.
    fn binary_op(&mut self, op: Opcode) -> (result: VMResult)
        requires
            old(self).wf(),
            old(self).ip < old(self).chunk.code@.len(),
            op == Opcode::Sub || op == Opcode::Mul || op == Opcode::Div,
        ensures
            final(self).wf(),
            final(self).program() == old(self).program(),
            (final(self)@, outcome_of(result)) == exec_arithmetic(
                old(self).program(),
                old(self)@,
                op,
            ),
    {
        let length: usize = self.chunk.code.len();
        if self.stack.len() < 2 {
            return Err(self.error("Expected at least two items on the stack"));
        }
        let len: usize = self.stack.len();
        match (&self.stack[len - 2], &self.stack[len - 1]) {
            (Value::Number(left), Value::Number(right)) => {
                let left: Number = *left;
                let right: Number = *right;
                self.pop_two();
                self.ip += 1;
                Ok(Signal::Arithmetic { op, left, right })
            },
            _ => Err(self.error("Expected two numbers on the stack")),
        }
    }

    /// `ADD`.
    fn add(&mut self) -> (result: VMResult)
        requires
            old(self).wf(),
            old(self).ip < old(self).chunk.code@.len(),
        ensures
            final(self).wf(),
            final(self).program() == old(self).program(),
            (final(self)@, outcome_of(result)) == exec_arithmetic(
                old(self).program(),
                old(self)@,
                Opcode::Add,
            ),
    {
        let length: usize = self.chunk.code.len();
        if self.stack.len() < 2 {
            return Err(self.error("Expected at least two items on the stack"));
        }
        let len: usize = self.stack.len();
        match (&self.stack[len - 2], &self.stack[len - 1]) {
            (Value::Number(left), Value::Number(right)) => {
                let left: Number = *left;
                let right: Number = *right;
                self.pop_two();
                self.ip += 1;
                Ok(Signal::Arithmetic { op: Opcode::Add, left, right })
            },
            (Value::Obj(first), Value::Obj(second)) => {
                let concat: Vec<u8> = concat_bytes(
                    first.as_bytes().as_slice(),
                    second.as_bytes().as_slice(),
                );
                self.pop_two();
                self.concatenate_strings(concat);
                self.ip += 1;
                Ok(Signal::Continue)
            },
            _ => Err(self.error("Expected two numbers or two strings on the stack")),
        }
    }

    /// Interns the string and pushes it.
    fn concatenate_strings(&mut self, concat: Vec<u8>)
        ensures
            final(self).chunk == old(self).chunk,
            final(self).ip == old(self).ip,
            final(self).globals == old(self).globals,
            final(self).locals == old(self).locals,
            final(self).strings@ == interned(old(self).strings@, concat@),
            values_view(final(self).stack@) == values_view(old(self).stack@).push(
                ValueView::Str(concat@),
            ),
    {
        let shared: Vec<u8> = get_or_insert_string(concat.as_slice(), &mut self.strings);
        let value: Value = Value::string(shared.as_slice());
        proof {
            lemma_view_push(self.stack@, value);
        }
        self.stack.push(value);
    }

    /// `GT`, `LT`.
    fn compare(&mut self, op: Opcode) -> (result: VMResult)
        requires
            old(self).wf(),
            old(self).ip < old(self).chunk.code@.len(),
            op == Opcode::Gt || op == Opcode::Lt,
        ensures
            final(self).wf(),
            final(self).program() == old(self).program(),
            (final(self)@, outcome_of(result)) == exec_compare(
                old(self).program(),
                old(self)@,
                op,
            ),
    {
        let length: usize = self.chunk.code.len();
        if self.stack.len() < 2 {
            return Err(self.error("Expected at least two items on the stack"));
        }
        let len: usize = self.stack.len();
        match (&self.stack[len - 2], &self.stack[len - 1]) {
            (Value::Number(left), Value::Number(right)) => {
                let holds: bool = match op {
                    Opcode::Gt => right.less_than(left),
                    _ => left.less_than(right),
                };
                self.pop_two();
                let value: Value = Value::Bool(holds);
                proof {
                    lemma_view_push(self.stack@, value);
                }
                self.stack.push(value);
                self.ip += 1;
                Ok(Signal::Continue)
            },
            _ => Err(self.error("Expected two numbers on the stack")),
        }
    }

    /// `DEF_GLOBAL`.
    fn define_global(&mut self) -> (result: VMResult)
        requires
            old(self).wf(),
            old(self).ip + 1 < old(self).chunk.code@.len(),
        ensures
            final(self).wf(),
            final(self).program() == old(self).program(),
            (final(self)@, outcome_of(result)) == exec_define_global(
                old(self).program(),
                old(self)@,
            ),
    {
        let length: usize = self.chunk.code.len();
        let name: Vec<u8> = match self.read_string() {
            Ok(name) => name,
            Err(error) => {
                return Err(error);
            },
        };
        if self.stack.len() == 0 {
            return Err(self.error("Expected at least one item on the stack"));
        }
        proof {
            lemma_view_drop_last(self.stack@);
        }
        let value: Value = self.stack.pop().unwrap();
        self.globals.define(name, value);
        self.ip += 2;
        Ok(Signal::Continue)
    }

    /// `GET_GLOBAL`.
    fn get_global(&mut self) -> (result: VMResult)
        requires
            old(self).wf(),
            old(self).ip + 1 < old(self).chunk.code@.len(),
        ensures
            final(self).wf(),
            final(self).program() == old(self).program(),
            (final(self)@, outcome_of(result)) == exec_get_global(old(self).program(), old(self)@),
    {
        let length: usize = self.chunk.code.len();
        let name: Vec<u8> = match self.read_string() {
            Ok(name) => name,
            Err(error) => {
                return Err(error);
            },
        };
        let value: Value = match self.globals.get(name.as_slice()) {
            Some(value) => value.clone(),
            None => {
                return Err(
                    RuntimeError::naming(
                        self.chunk.line_at(self.ip),
                        "Tried to get value of undefined variable '",
                        name.as_slice(),
                    ),
                );
            },
        };
        proof {
            lemma_view_push(self.stack@, value);
        }
        self.stack.push(value);
        self.ip += 2;
        Ok(Signal::Continue)
    }

    /// `SET_GLOBAL`.
    fn set_global(&mut self) -> (result: VMResult)
        requires
            old(self).wf(),
            old(self).ip + 1 < old(self).chunk.code@.len(),
        ensures
            final(self).wf(),
            final(self).program() == old(self).program(),
            (final(self)@, outcome_of(result)) == exec_set_global(old(self).program(), old(self)@),
    {
        let length: usize = self.chunk.code.len();
        let name: Vec<u8> = match self.read_string() {
            Ok(name) => name,
            Err(error) => {
                return Err(error);
            },
        };
        if self.globals.get(name.as_slice()).is_none() {
            return Err(
                RuntimeError::naming(
                    self.chunk.line_at(self.ip),
                    "Tried to assign to undefined variable '",
                    name.as_slice(),
                ),
            );
        }
        if self.stack.len() == 0 {
            return Err(self.error("Expected at least one item on the stack"));
        }
        let value: Value = self.stack[self.stack.len() - 1].clone();
        self.globals.define(name, value);
        self.ip += 2;
        Ok(Signal::Continue)
    }

    /// `JMP`, and `JZ` on a value that counts as false.
    fn jump_forward(&mut self) -> (result: VMResult)
        requires
            old(self).wf(),
            old(self).ip + 2 < old(self).chunk.code@.len(),
        ensures
            final(self).wf(),
            final(self).program() == old(self).program(),
            (final(self)@, outcome_of(result)) == exec_jmp(old(self).program(), old(self)@),
    {
        let offset: usize = self.read_short() as usize;
        if offset > self.chunk.code.len() - self.ip - 3 {
            return Err(self.error("Jump out of range"));
        }
        self.ip = self.ip + 3 + offset;
        Ok(Signal::Continue)
    }
}

/// A forward jump lands its offset after the end of its operand, and a
/// backward jump of the same offset lands as far before it: the two targets
/// lie symmetric about the byte after the operand.
pub proof fn lemma_jump_arithmetic(chunk: ChunkView, m: Machine)
    requires
        0 <= m.ip,
        m.ip + 2 < chunk.code.len(),
    ensures
        0 <= wide_operand(chunk, m) <= 0xffff,
        Opcode::of_byte(chunk.code[m.ip]) == Some(Opcode::JMP) && step(chunk, m).1 is Continue
            ==> step(chunk, m).0.ip == m.ip + 3 + wide_operand(chunk, m),
        Opcode::of_byte(chunk.code[m.ip]) == Some(Opcode::LOOP) && step(chunk, m).1 is Continue
            ==> step(chunk, m).0.ip == m.ip + 3 - wide_operand(chunk, m),
        Opcode::of_byte(chunk.code[m.ip]) == Some(Opcode::JZ) && step(chunk, m).1 is Continue
            ==> step(chunk, m).0.ip == if m.stack.last().falsey() {
            m.ip + 3 + wide_operand(chunk, m)
        } else {
            m.ip + 3
        },
        forward_target(m.ip, wide_operand(chunk, m)) + backward_target(
            m.ip,
            wide_operand(chunk, m),
        ) == 2 * (m.ip + 3),
{
}

/// A run that reports something before its steps are used up reports the
/// same with any more steps.
pub proof fn lemma_run_more_fuel(chunk: ChunkView, m: Machine, fuel: nat, more: nat)
    requires
        !(run(chunk, m, fuel).1 is Continue),
    ensures
        run(chunk, m, fuel + more) == run(chunk, m, fuel),
    decreases fuel,
{
    if fuel > 0 {
        let (next, outcome) = step(chunk, m);
        if outcome is Continue {
            lemma_run_more_fuel(chunk, next, (fuel - 1) as nat, more);
        }
    }
}

/// Running in two parts is running at once: where the first part uses up
/// its steps, the second goes on from where it stopped.
pub proof fn lemma_run_split(chunk: ChunkView, m: Machine, first: nat, second: nat)
    requires
        run(chunk, m, first).1 is Continue,
    ensures
        run(chunk, m, first + second) == run(chunk, run(chunk, m, first).0, second),
    decreases first,
{
    if first > 0 {
        let (next, outcome) = step(chunk, m);
        lemma_run_split(chunk, next, (first - 1) as nat, second);
    }
}

} // verus!
