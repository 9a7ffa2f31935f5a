use vstd::prelude::*;
use vstd::std_specs::convert::FromSpecImpl;

verus! {

/// Number of defined instructions; the bytes `0..OPCODE_COUNT` are the valid
/// encodings.
pub const OPCODE_COUNT: u8 = 24;

/// The instruction set of the virtual machine.
#[derive(Copy, Clone, PartialEq, Eq, Structural, Debug)]
pub enum Opcode {
    Ret,
    Push,
    Neg,
    Add,
    Sub,
    Mul,
    Div,
    True,
    False,
    Nil,
    Not,
    Eq,
    Gt,
    Lt,
    Print,
    Pop,
    DefineGlobal,
    GetGlobal,
    SetGlobal,
    GetLocal,
    SetLocal,
    JZ,
    JMP,
    LOOP,
}

impl Opcode {
    /// The byte that stands for this instruction in a chunk.
    pub open spec fn byte(self) -> u8 {
        match self {
            Opcode::Ret => 0,
            Opcode::Push => 1,
            Opcode::Neg => 2,
            Opcode::Add => 3,
            Opcode::Sub => 4,
            Opcode::Mul => 5,
            Opcode::Div => 6,
            Opcode::True => 7,
            Opcode::False => 8,
            Opcode::Nil => 9,
            Opcode::Not => 10,
            Opcode::Eq => 11,
            Opcode::Gt => 12,
            Opcode::Lt => 13,
            Opcode::Print => 14,
            Opcode::Pop => 15,
            Opcode::DefineGlobal => 16,
            Opcode::GetGlobal => 17,
            Opcode::SetGlobal => 18,
            Opcode::GetLocal => 19,
            Opcode::SetLocal => 20,
            Opcode::JZ => 21,
            Opcode::JMP => 22,
            Opcode::LOOP => 23,
        }
    }

    /// The instruction that a byte stands for, if any.
    pub open spec fn of_byte(byte: u8) -> Option<Opcode> {
        if byte == 0 {
            Some(Opcode::Ret)
        } else if byte == 1 {
            Some(Opcode::Push)
        } else if byte == 2 {
            Some(Opcode::Neg)
        } else if byte == 3 {
            Some(Opcode::Add)
        } else if byte == 4 {
            Some(Opcode::Sub)
        } else if byte == 5 {
            Some(Opcode::Mul)
        } else if byte == 6 {
            Some(Opcode::Div)
        } else if byte == 7 {
            Some(Opcode::True)
        } else if byte == 8 {
            Some(Opcode::False)
        } else if byte == 9 {
            Some(Opcode::Nil)
        } else if byte == 10 {
            Some(Opcode::Not)
        } else if byte == 11 {
            Some(Opcode::Eq)
        } else if byte == 12 {
            Some(Opcode::Gt)
        } else if byte == 13 {
            Some(Opcode::Lt)
        } else if byte == 14 {
            Some(Opcode::Print)
        } else if byte == 15 {
            Some(Opcode::Pop)
        } else if byte == 16 {
            Some(Opcode::DefineGlobal)
        } else if byte == 17 {
            Some(Opcode::GetGlobal)
        } else if byte == 18 {
            Some(Opcode::SetGlobal)
        } else if byte == 19 {
            Some(Opcode::GetLocal)
        } else if byte == 20 {
            Some(Opcode::SetLocal)
        } else if byte == 21 {
            Some(Opcode::JZ)
        } else if byte == 22 {
            Some(Opcode::JMP)
        } else if byte == 23 {
            Some(Opcode::LOOP)
        } else {
            None
        }
    }

    /// How many operand bytes follow the instruction byte.
    pub open spec fn operand_len(self) -> nat {
        match self {
            Opcode::Push
            | Opcode::DefineGlobal
            | Opcode::GetGlobal
            | Opcode::SetGlobal
            | Opcode::GetLocal
            | Opcode::SetLocal => 1,
            Opcode::JZ | Opcode::JMP | Opcode::LOOP => 2,
            _ => 0,
        }
    }

    /// Encodes the instruction as its byte.
    pub fn encode(self) -> (byte: u8)
        ensures
            byte == self.byte(),
            byte < OPCODE_COUNT,
    {
        match self {
            Opcode::Ret => 0,
            Opcode::Push => 1,
            Opcode::Neg => 2,
            Opcode::Add => 3,
            Opcode::Sub => 4,
            Opcode::Mul => 5,
            Opcode::Div => 6,
            Opcode::True => 7,
            Opcode::False => 8,
            Opcode::Nil => 9,
            Opcode::Not => 10,
            Opcode::Eq => 11,
            Opcode::Gt => 12,
            Opcode::Lt => 13,
            Opcode::Print => 14,
            Opcode::Pop => 15,
            Opcode::DefineGlobal => 16,
            Opcode::GetGlobal => 17,
            Opcode::SetGlobal => 18,
            Opcode::GetLocal => 19,
            Opcode::SetLocal => 20,
            Opcode::JZ => 21,
            Opcode::JMP => 22,
            Opcode::LOOP => 23,
        }
    }

    /// Decodes a byte. A byte that stands for no instruction is a decode
    /// failure, reported as `Err(())`.
    pub fn decode(byte: u8) -> (decoded: Result<Opcode, ()>)
        ensures
            decoded.is_ok() <==> byte < OPCODE_COUNT,
            decoded.is_ok() <==> Opcode::of_byte(byte).is_some(),
            decoded.is_ok() ==> Some(decoded.unwrap()) == Opcode::of_byte(byte),
            decoded.is_ok() ==> decoded.unwrap().byte() == byte,
    {
        match byte {
            0 => Ok(Opcode::Ret),
            1 => Ok(Opcode::Push),
            2 => Ok(Opcode::Neg),
            3 => Ok(Opcode::Add),
            4 => Ok(Opcode::Sub),
            5 => Ok(Opcode::Mul),
            6 => Ok(Opcode::Div),
            7 => Ok(Opcode::True),
            8 => Ok(Opcode::False),
            9 => Ok(Opcode::Nil),
            10 => Ok(Opcode::Not),
            11 => Ok(Opcode::Eq),
            12 => Ok(Opcode::Gt),
            13 => Ok(Opcode::Lt),
            14 => Ok(Opcode::Print),
            15 => Ok(Opcode::Pop),
            16 => Ok(Opcode::DefineGlobal),
            17 => Ok(Opcode::GetGlobal),
            18 => Ok(Opcode::SetGlobal),
            19 => Ok(Opcode::GetLocal),
            20 => Ok(Opcode::SetLocal),
            21 => Ok(Opcode::JZ),
            22 => Ok(Opcode::JMP),
            23 => Ok(Opcode::LOOP),
            _ => Err(()),
        }
    }

    /// The number of operand bytes that follow the instruction byte.
    pub fn operand_width(self) -> (width: usize)
        ensures
            width == self.operand_len(),
            width <= 2,
    {
        match self {
            Opcode::Push
            | Opcode::DefineGlobal
            | Opcode::GetGlobal
            | Opcode::SetGlobal
            | Opcode::GetLocal
            | Opcode::SetLocal => 1,
            Opcode::JZ | Opcode::JMP | Opcode::LOOP => 2,
            _ => 0,
        }
    }

    /// The mnemonic shown in listings.
    pub fn name(self) -> (text: &'static str)
        ensures
            text@ == self.mnemonic(),
    {
        match self {
            Opcode::Ret => "RET",
            Opcode::Push => "PUSH",
            Opcode::Neg => "NEG",
            Opcode::Add => "ADD",
            Opcode::Sub => "SUB",
            Opcode::Mul => "MUL",
            Opcode::Div => "DIV",
            Opcode::True => "TRUE",
            Opcode::False => "FALSE",
            Opcode::Nil => "NIL",
            Opcode::Not => "NOT",
            Opcode::Eq => "EQ",
            Opcode::Gt => "GT",
            Opcode::Lt => "LT",
            Opcode::Print => "PRINT",
            Opcode::Pop => "POP",
            Opcode::DefineGlobal => "DEF_GLOBAL",
            Opcode::GetGlobal => "GET_GLOBAL",
            Opcode::SetGlobal => "SET_GLOBAL",
            Opcode::GetLocal => "GET_LOCAL",
            Opcode::SetLocal => "SET_LOCAL",
            Opcode::JZ => "JZ",
            Opcode::JMP => "JMP",
            Opcode::LOOP => "LOOP",
        }
    }

    /// The characters of the mnemonic.
    pub open spec fn mnemonic(self) -> Seq<char> {
        match self {
            Opcode::Ret => "RET"@,
            Opcode::Push => "PUSH"@,
            Opcode::Neg => "NEG"@,
            Opcode::Add => "ADD"@,
            Opcode::Sub => "SUB"@,
            Opcode::Mul => "MUL"@,
            Opcode::Div => "DIV"@,
            Opcode::True => "TRUE"@,
            Opcode::False => "FALSE"@,
            Opcode::Nil => "NIL"@,
            Opcode::Not => "NOT"@,
            Opcode::Eq => "EQ"@,
            Opcode::Gt => "GT"@,
            Opcode::Lt => "LT"@,
            Opcode::Print => "PRINT"@,
            Opcode::Pop => "POP"@,
            Opcode::DefineGlobal => "DEF_GLOBAL"@,
            Opcode::GetGlobal => "GET_GLOBAL"@,
            Opcode::SetGlobal => "SET_GLOBAL"@,
            Opcode::GetLocal => "GET_LOCAL"@,
            Opcode::SetLocal => "SET_LOCAL"@,
            Opcode::JZ => "JZ"@,
            Opcode::JMP => "JMP"@,
            Opcode::LOOP => "LOOP"@,
        }
    }

    /// Every instruction is recovered from its own byte.
    pub proof fn lemma_decode_encode(op: Opcode)
        ensures
            Opcode::of_byte(op.byte()) == Some(op),
            op.byte() < OPCODE_COUNT,
    {
    }

    /// A byte decodes exactly when it is below the instruction count, and then
    /// to the one instruction that encodes to it: no byte yields a wrong
    /// instruction.
    pub proof fn lemma_encode_decode(byte: u8)
        ensures
            Opcode::of_byte(byte).is_some() <==> byte < OPCODE_COUNT,
            forall|op: Opcode| Opcode::of_byte(byte) == Some(op) <==> op.byte() == byte,
    {
        assert forall|op: Opcode| Opcode::of_byte(byte) == Some(op) <==> op.byte() == byte by {
            Self::lemma_decode_encode(op);
        }
    }
}

impl From<Opcode> for u8 {
    fn from(opcode: Opcode) -> (byte: u8) {
        opcode.encode()
    }
}

impl FromSpecImpl<Opcode> for u8 {
    open spec fn obeys_from_spec() -> bool {
        true
    }

    open spec fn from_spec(opcode: Opcode) -> u8 {
        opcode.byte()
    }
}

} // verus!
