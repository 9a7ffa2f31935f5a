use crate::bytecode::chunk::Chunk;
use crate::bytecode::opcode::Opcode;
use crate::utils::pretty_printer::{
    begin_chunk_text, chunk_offset_text, line_number_text, local_text, opcode_text, pointer_text,
    stack_text, unknown_text, value_text, Palette, PrettyPrinter,
};
use crate::vm::machine::ChunkView;
use vstd::prelude::*;
use vstd::string::StringSliceAdditionalSpecFns;

verus! {

/// The two-byte operand of the instruction at `offset`, high byte first.
pub open spec fn jump_operand(chunk: ChunkView, offset: int) -> int {
    chunk.code[offset + 1] as int * 256 + chunk.code[offset + 2] as int
}

/// The columns that start every line of a listing: the offset, and the
/// source line, or a bar where it is that of the byte before.
pub open spec fn line_start(palette: Palette, chunk: ChunkView, offset: int) -> Seq<u8> {
    chunk_offset_text(palette, offset as usize) + if offset > 0 && chunk.lines[offset]
        == chunk.lines[offset - 1] {
        line_number_text(palette, None)
    } else {
        line_number_text(palette, Some(chunk.lines[offset]))
    }
}

/// An instruction with its operand, as a listing shows it. `values` holds
/// the text of each constant of the chunk.
pub open spec fn operation_text(
    palette: Palette,
    chunk: ChunkView,
    offset: int,
    opcode: Opcode,
    values: Seq<Seq<u8>>,
) -> Seq<u8> {
    if offset + 1 + opcode.operand_len() > chunk.code.len() {
        opcode_text(palette, opcode) + unknown_text(palette)
    } else {
        match opcode {
            Opcode::Push | Opcode::DefineGlobal | Opcode::GetGlobal | Opcode::SetGlobal => {
                let pointer = chunk.code[offset + 1];
                opcode_text(palette, opcode) + pointer_text(palette, pointer as usize)
                    + if pointer < values.len() {
                    value_text(palette, values[pointer as int])
                } else {
                    unknown_text(palette)
                }
            },
            Opcode::GetLocal | Opcode::SetLocal => opcode_text(palette, opcode) + local_text(
                palette,
                chunk.code[offset + 1],
            ),
            Opcode::JZ | Opcode::JMP => {
                let target = offset + 3 + jump_operand(chunk, offset);
                opcode_text(palette, opcode) + pointer_text(palette, offset as usize)
                    + if target <= usize::MAX {
                    chunk_offset_text(palette, target as usize)
                } else {
                    unknown_text(palette)
                }
            },
            Opcode::LOOP => {
                let target = offset + 3 - jump_operand(chunk, offset);
                opcode_text(palette, opcode) + pointer_text(palette, offset as usize)
                    + if target >= 0 {
                    chunk_offset_text(palette, target as usize)
                } else {
                    unknown_text(palette)
                }
            },
            _ => opcode_text(palette, opcode),
        }
    }
}

/// The line of a listing for the instruction at `offset`.
pub open spec fn instruction_text(
    palette: Palette,
    chunk: ChunkView,
    offset: int,
    values: Seq<Seq<u8>>,
) -> Seq<u8> {
    line_start(palette, chunk, offset) + match Opcode::of_byte(chunk.code[offset]) {
        Some(opcode) => operation_text(palette, chunk, offset, opcode, values),
        None => unknown_text(palette),
    }
}

/// The offset of the instruction after the one at `offset`: beyond its
/// operand, or the end of the code where the operand is cut short. A byte
/// that stands for no instruction counts as one byte.
pub open spec fn next_offset(chunk: ChunkView, offset: int) -> int {
    match Opcode::of_byte(chunk.code[offset]) {
        Some(opcode) => if offset + 1 + opcode.operand_len() > chunk.code.len() {
            chunk.code.len() as int
        } else {
            offset + 1 + opcode.operand_len()
        },
        None => offset + 1,
    }
}

/// The lines of a listing from the instruction at `offset` on.
pub open spec fn listing_from(
    palette: Palette,
    chunk: ChunkView,
    offset: int,
    values: Seq<Seq<u8>>,
) -> Seq<u8>
    decreases chunk.code.len() - offset,
{
    if offset < 0 || offset >= chunk.code.len() {
        Seq::empty()
    } else {
        let next = next_offset(chunk, offset);
        instruction_text(palette, chunk, offset, values) + "\n".spec_bytes() + if offset < next {
            listing_from(palette, chunk, next, values)
        } else {
            Seq::empty()
        }
    }
}

/// The listing of a chunk: a heading and a line for every instruction.
pub open spec fn listing(
    palette: Palette,
    chunk: ChunkView,
    name: Seq<u8>,
    values: Seq<Seq<u8>>,
) -> Seq<u8> {
    begin_chunk_text(palette, name) + listing_from(palette, chunk, 0, values)
}

/// The view of each text of a sequence.
pub open spec fn texts_view(texts: Seq<Vec<u8>>) -> Seq<Seq<u8>> {
    texts.map_values(|text: Vec<u8>| text@)
}

/// Lists the instructions of a chunk in readable form.
pub struct Disassembler {
    pub pretty_printer: PrettyPrinter,
}

impl Disassembler {
    pub fn new() -> (disassembler: Disassembler)
        ensures
            disassembler.pretty_printer.string@ == Seq::<u8>::empty(),
            disassembler.pretty_printer.palette == Palette::standard(),
    {
        Disassembler { pretty_printer: PrettyPrinter::new(Vec::new()) }
    }

    /// The text built so far.
    pub fn result(&self) -> (text: &Vec<u8>)
        ensures
            text == self.pretty_printer.string,
    {
        self.pretty_printer.result()
    }

    pub fn clear(&mut self)
        ensures
            final(self).pretty_printer.palette == old(self).pretty_printer.palette,
            final(self).pretty_printer.string@ == Seq::<u8>::empty(),
    {
        self.pretty_printer.clear();
    }

    /// Appends the listing of a chunk. `values` holds the text of each
    /// constant of the chunk.
    pub fn disassemble_chunk(&mut self, chunk: &Chunk, name: &[u8], values: &Vec<Vec<u8>>)
        requires
            chunk.wf(),
        ensures
            final(self).pretty_printer.palette == old(self).pretty_printer.palette,
            final(self).pretty_printer.string@ == old(self).pretty_printer.string@ + listing(
                old(self).pretty_printer.palette,
                chunk@,
                name@,
                texts_view(values@),
            ),
    {
        let ghost palette = self.pretty_printer.palette;
        self.pretty_printer.begin_chunk(name);
        let ghost headed = self.pretty_printer.string@;
        let mut offset: usize = 0;
        while offset < chunk.code.len()
            invariant
                chunk.wf(),
                offset <= chunk.code@.len(),
                self.pretty_printer.palette == palette,
                self.pretty_printer.string@ + listing_from(
                    palette,
                    chunk@,
                    offset as int,
                    texts_view(values@),
                ) == headed + listing_from(palette, chunk@, 0, texts_view(values@)),
            decreases chunk.code@.len() - offset,
        {
            let ghost before = self.pretty_printer.string@;
            let ghost rest = listing_from(palette, chunk@, offset as int, texts_view(values@));
            let ghost line = instruction_text(palette, chunk@, offset as int, texts_view(values@));
            let next: usize = self.disassemble_instruction(chunk, offset, values);
            self.pretty_printer.newline();
            proof {
                let tail = listing_from(palette, chunk@, next as int, texts_view(values@));
                assert(rest == line + "\n".spec_bytes() + tail);
                assert(self.pretty_printer.string@ + tail =~= before + rest);
            }
            offset = next;
        }
        proof {
            assert(listing_from(palette, chunk@, offset as int, texts_view(values@))
                =~= Seq::<u8>::empty());
            assert(self.pretty_printer.string@ =~= old(self).pretty_printer.string@ + listing(
                palette,
                chunk@,
                name@,
                texts_view(values@),
            ));
        }
    }

    /// Appends the line for the instruction at `offset` and returns the
    /// offset of the instruction after it. `offset` has to lie within the
    /// code.
    pub fn disassemble_instruction(
        &mut self,
        chunk: &Chunk,
        offset: usize,
        values: &Vec<Vec<u8>>,
    ) -> (next: usize)
        requires
            chunk.wf(),
            offset < chunk.code@.len(),
        ensures
            final(self).pretty_printer.palette == old(self).pretty_printer.palette,
            final(self).pretty_printer.string@ == old(self).pretty_printer.string@
                + instruction_text(
                old(self).pretty_printer.palette,
                chunk@,
                offset as int,
                texts_view(values@),
            ),
            next == next_offset(chunk@, offset as int),
            offset < next <= chunk.code@.len(),
    {
        let ghost palette = self.pretty_printer.palette;
        let ghost start = self.pretty_printer.string@;
        let length: usize = chunk.code.len();
        self.pretty_printer.chunk_offset(offset);
        if offset > 0 && chunk.lines[offset] == chunk.lines[offset - 1] {
            self.pretty_printer.line_number(None);
        } else {
            self.pretty_printer.line_number(Some(chunk.lines[offset]));
        }
        assert(self.pretty_printer.string@ =~= start + line_start(palette, chunk@, offset as int));
        let ghost lined = self.pretty_printer.string@;
        let instruction: u8 = chunk.code[offset];
        let next: usize = match Opcode::decode(instruction) {
            Ok(opcode) => self.operation(opcode, chunk, offset, values),
            Err(_) => {
                self.pretty_printer.unknown();
                offset + 1
            },
        };
        proof {
            let shown = match Opcode::of_byte(chunk@.code[offset as int]) {
                Some(opcode) => operation_text(
                    palette,
                    chunk@,
                    offset as int,
                    opcode,
                    texts_view(values@),
                ),
                None => unknown_text(palette),
            };
            assert(self.pretty_printer.string@ == lined + shown);
            assert(lined + shown =~= start + (line_start(palette, chunk@, offset as int) + shown));
        }
        next
    }

    /// Appends an instruction with its operand.
    fn operation(&mut self, opcode: Opcode, chunk: &Chunk, offset: usize, values: &Vec<Vec<u8>>) -> (next:
        usize)
        requires
            offset < chunk.code@.len(),
        ensures
            final(self).pretty_printer.palette == old(self).pretty_printer.palette,
            final(self).pretty_printer.string@ == old(self).pretty_printer.string@ + operation_text(
                old(self).pretty_printer.palette,
                chunk@,
                offset as int,
                opcode,
                texts_view(values@),
            ),
            next == if offset + 1 + opcode.operand_len() > chunk.code@.len() {
                chunk.code@.len() as int
            } else {
                offset + 1 + opcode.operand_len()
            },
    {
        let length: usize = chunk.code.len();
        if opcode.operand_width() > length - offset - 1 {
            let ghost before = self.pretty_printer.string@;
            self.pretty_printer.opcode(opcode);
            self.pretty_printer.unknown();
            assert(self.pretty_printer.string@ =~= before + (opcode_text(
                old(self).pretty_printer.palette,
                opcode,
            ) + unknown_text(old(self).pretty_printer.palette)));
            length
        } else {
            match opcode {
                Opcode::Push
                | Opcode::DefineGlobal
                | Opcode::GetGlobal
                | Opcode::SetGlobal => self.offset(opcode, chunk, offset, values),
                Opcode::GetLocal | Opcode::SetLocal => self.byte(opcode, chunk, offset),
                Opcode::JZ | Opcode::JMP => self.jump(opcode, true, chunk, offset),
                Opcode::LOOP => self.jump(opcode, false, chunk, offset),
                _ => self.simple(opcode, offset),
            }
        }
    }

    /// An instruction without an operand.
    fn simple(&mut self, opcode: Opcode, offset: usize) -> (next: usize)
        requires
            offset < usize::MAX,
        ensures
            final(self).pretty_printer.palette == old(self).pretty_printer.palette,
            final(self).pretty_printer.string@ == old(self).pretty_printer.string@ + opcode_text(
                old(self).pretty_printer.palette,
                opcode,
            ),
            next == offset + 1,
    {
        self.pretty_printer.opcode(opcode);
        offset + 1
    }

    /// An instruction whose operand names a constant.
    fn offset(&mut self, opcode: Opcode, chunk: &Chunk, offset: usize, values: &Vec<Vec<u8>>) -> (next:
        usize)
        requires
            offset + 1 < chunk.code@.len(),
        ensures
            final(self).pretty_printer.palette == old(self).pretty_printer.palette,
            final(self).pretty_printer.string@ == old(self).pretty_printer.string@ + (opcode_text(
                old(self).pretty_printer.palette,
                opcode,
            ) + pointer_text(old(self).pretty_printer.palette, chunk@.code[offset + 1] as usize)
                + if chunk@.code[offset + 1] < values@.len() {
                value_text(
                    old(self).pretty_printer.palette,
                    texts_view(values@)[chunk@.code[offset + 1] as int],
                )
            } else {
                unknown_text(old(self).pretty_printer.palette)
            }),
            next == offset + 2,
    {
        let length: usize = chunk.code.len();
        let pointer: usize = chunk.code[offset + 1] as usize;
        let ghost start = self.pretty_printer.string@;
        let ghost palette = self.pretty_printer.palette;
        self.pretty_printer.opcode(opcode);
        self.pretty_printer.pointer(pointer);
        let ghost middle = self.pretty_printer.string@;
        if pointer < values.len() {
            self.pretty_printer.value(values[pointer].as_slice());
        } else {
            self.pretty_printer.unknown();
        }
        proof {
            let a = opcode_text(palette, opcode);
            let b = pointer_text(palette, pointer);
            let c = if pointer < values@.len() {
                value_text(palette, texts_view(values@)[pointer as int])
            } else {
                unknown_text(palette)
            };
            assert(middle == start + a + b);
            assert(self.pretty_printer.string@ == middle + c);
            assert(start + a + b + c =~= start + (a + b + c));
        }
        offset + 2
    }

    /// A jump: where it stands and where it lands.
    fn jump(&mut self, opcode: Opcode, forward: bool, chunk: &Chunk, offset: usize) -> (next: usize)
        requires
            offset + 2 < chunk.code@.len(),
        ensures
            final(self).pretty_printer.palette == old(self).pretty_printer.palette,
            final(self).pretty_printer.string@ == old(self).pretty_printer.string@ + (opcode_text(
                old(self).pretty_printer.palette,
                opcode,
            ) + pointer_text(old(self).pretty_printer.palette, offset) + ({
                let target = if forward {
                    offset + 3 + jump_operand(chunk@, offset as int)
                } else {
                    offset + 3 - jump_operand(chunk@, offset as int)
                };
                if 0 <= target <= usize::MAX {
                    chunk_offset_text(old(self).pretty_printer.palette, target as usize)
                } else {
                    unknown_text(old(self).pretty_printer.palette)
                }
            })),
            next == offset + 3,
    {
        let length: usize = chunk.code.len();
        let high: usize = chunk.code[offset + 1] as usize;
        let low: usize = chunk.code[offset + 2] as usize;
        let jump: usize = high * 256 + low;
        let ghost start = self.pretty_printer.string@;
        let ghost palette = self.pretty_printer.palette;
        self.pretty_printer.opcode(opcode);
        self.pretty_printer.pointer(offset);
        let ghost middle = self.pretty_printer.string@;
        let after: usize = offset + 3;
        if forward {
            if jump <= usize::MAX - after {
                self.pretty_printer.chunk_offset(after + jump);
            } else {
                self.pretty_printer.unknown();
            }
        } else {
            if jump <= after {
                self.pretty_printer.chunk_offset(after - jump);
            } else {
                self.pretty_printer.unknown();
            }
        }
        proof {
            let a = opcode_text(palette, opcode);
            let b = pointer_text(palette, offset);
            let target = if forward {
                offset + 3 + jump_operand(chunk@, offset as int)
            } else {
                offset + 3 - jump_operand(chunk@, offset as int)
            };
            let c = if 0 <= target <= usize::MAX {
                chunk_offset_text(palette, target as usize)
            } else {
                unknown_text(palette)
            };
            assert(middle == start + a + b);
            assert(self.pretty_printer.string@ == middle + c);
            assert(start + a + b + c =~= start + (a + b + c));
        }
        after
    }

    /// An instruction whose operand names a stack slot.
    fn byte(&mut self, opcode: Opcode, chunk: &Chunk, offset: usize) -> (next: usize)
        requires
            offset + 1 < chunk.code@.len(),
        ensures
            final(self).pretty_printer.palette == old(self).pretty_printer.palette,
            final(self).pretty_printer.string@ == old(self).pretty_printer.string@ + (opcode_text(
                old(self).pretty_printer.palette,
                opcode,
            ) + local_text(old(self).pretty_printer.palette, chunk@.code[offset + 1])),
            next == offset + 2,
    {
        let length: usize = chunk.code.len();
        let slot: u8 = chunk.code[offset + 1];
        let ghost start = self.pretty_printer.string@;
        let ghost palette = self.pretty_printer.palette;
        self.pretty_printer.opcode(opcode);
        self.pretty_printer.local(slot);
        proof {
            let a = opcode_text(palette, opcode);
            let b = local_text(palette, slot);
            assert(start + a + b =~= start + (a + b));
        }
        offset + 2
    }

    /// Appends a line that shows a stack, given by the texts of its values.
    pub fn print_stack(&mut self, stack: &Vec<Vec<u8>>)
        ensures
            final(self).pretty_printer.palette == old(self).pretty_printer.palette,
            final(self).pretty_printer.string@ == old(self).pretty_printer.string@ + stack_text(
                old(self).pretty_printer.palette,
                texts_view(stack@),
            ) + "\n".spec_bytes(),
    {
        self.pretty_printer.stack(stack);
        self.pretty_printer.newline();
    }

    /// Appends a line that shows a value, given by its text.
    pub fn print_value(&mut self, value: &[u8])
        ensures
            final(self).pretty_printer.palette == old(self).pretty_printer.palette,
            final(self).pretty_printer.string@ == old(self).pretty_printer.string@ + value_text(
                old(self).pretty_printer.palette,
                value@,
            ) + "\n".spec_bytes(),
    {
        self.pretty_printer.value(value);
        self.pretty_printer.newline();
    }
}

} // verus!
