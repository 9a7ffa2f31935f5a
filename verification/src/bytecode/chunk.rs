use crate::bytecode::opcode::Opcode;
use crate::bytecode::value::{ConstantPointer, Value, ValueArray, ValueView, MAX_CONSTANTS};
use vstd::prelude::*;

verus! {

/// The instruction bytes of a chunk.
pub type Code = Vec<u8>;

/// For each byte of code, the source line it came from.
pub type LineInfoArray = Vec<usize>;

/// A compiled unit: code, the constants it refers to, and the source line of
/// every code byte.
pub struct Chunk {
    pub code: Code,
    pub constants: ValueArray,
    pub lines: LineInfoArray,
}

impl Chunk {
    /// Every code byte has its line, and the pool is within its bound.
    pub open spec fn wf(&self) -> bool {
        &&& self.lines@.len() == self.code@.len()
        &&& self.constants@.len() <= MAX_CONSTANTS
    }

    /// An empty chunk.
    pub fn new() -> (chunk: Chunk)
        ensures
            chunk.wf(),
            chunk.code@ == Seq::<u8>::empty(),
            chunk.lines@ == Seq::<usize>::empty(),
            chunk.constants@ == Seq::<ValueView>::empty(),
    {
        Chunk { code: Vec::new(), constants: ValueArray::new(), lines: Vec::new() }
    }

    /// Appends a byte of code that came from the given line.
    pub fn write(&mut self, byte: u8, line: usize)
        ensures
            final(self).code@ == old(self).code@.push(byte),
            final(self).lines@ == old(self).lines@.push(line),
            final(self).constants == old(self).constants,
            old(self).wf() ==> final(self).wf(),
    {
        self.code.push(byte);
        self.lines.push(line);
    }

    /// Appends an instruction that came from the given line.
    pub fn write_opcode(&mut self, opcode: Opcode, line: usize)
        ensures
            final(self).code@ == old(self).code@.push(opcode.byte()),
            final(self).lines@ == old(self).lines@.push(line),
            final(self).constants == old(self).constants,
            old(self).wf() ==> final(self).wf(),
    {
        self.write(opcode.encode(), line);
    }

    /// Adds a constant to the pool and returns its index. Fails, leaving the
    /// chunk as it was, when the pool already holds 256 constants.
    pub fn add_constant(&mut self, value: Value) -> (index: Result<ConstantPointer, ()>)
        ensures
            final(self).code == old(self).code,
            final(self).lines == old(self).lines,
            index.is_ok() <==> old(self).constants@.len() < MAX_CONSTANTS,
            index.is_ok() ==> index.unwrap() == old(self).constants@.len()
                && final(self).constants@ == old(self).constants@.push(value@),
            index.is_err() ==> final(self).constants@ == old(self).constants@,
            old(self).wf() ==> final(self).wf(),
    {
        self.constants.write(value)
    }

    /// The number of code bytes.
    pub fn len(&self) -> (len: usize)
        ensures
            len == self.code@.len(),
    {
        self.code.len()
    }

    /// The source line of the code byte at `offset`; 0 where the chunk
    /// records none.
    pub fn line_at(&self, offset: usize) -> (line: usize)
        ensures
            line == self.line_of(offset as int),
    {
        if offset < self.lines.len() {
            self.lines[offset]
        } else {
            0
        }
    }

    /// The source line of the code byte at `offset`; 0 where the chunk
    /// records none.
    pub open spec fn line_of(&self, offset: int) -> usize {
        if 0 <= offset < self.lines@.len() {
            self.lines@[offset]
        } else {
            0
        }
    }
}

} // verus!
