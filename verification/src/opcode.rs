//! The bytecode instruction set: a closed single-byte enumeration.

use vstd::prelude::*;

verus! {

/// Every opcode the compiler can emit and the virtual machine can execute.
/// The byte encoding is the declaration order, starting at 0.
#[derive(Debug, Clone, Copy, PartialEq, Eq, Structural)]
pub enum OpCode {
    Constant,
    Pop,
    Equal,
    Not,
    Greater,
    Less,
    Add,
    Subtract,
    Multiply,
    Divide,
    Negate,
    Return,
    Null,
    DefineGlobal,
    SetLocal,
    GetLocal,
    SetGlobal,
    GetGlobal,
    JumpIfFalse,
    Jump,
    JumpBack,
    True,
    False,
    Call,
}

/// The byte encoding of an opcode.
pub open spec fn spec_opcode_byte(op: OpCode) -> u8 {
    match op {
        OpCode::Constant => 0,
        OpCode::Pop => 1,
        OpCode::Equal => 2,
        OpCode::Not => 3,
        OpCode::Greater => 4,
        OpCode::Less => 5,
        OpCode::Add => 6,
        OpCode::Subtract => 7,
        OpCode::Multiply => 8,
        OpCode::Divide => 9,
        OpCode::Negate => 10,
        OpCode::Return => 11,
        OpCode::Null => 12,
        OpCode::DefineGlobal => 13,
        OpCode::SetLocal => 14,
        OpCode::GetLocal => 15,
        OpCode::SetGlobal => 16,
        OpCode::GetGlobal => 17,
        OpCode::JumpIfFalse => 18,
        OpCode::Jump => 19,
        OpCode::JumpBack => 20,
        OpCode::True => 21,
        OpCode::False => 22,
        OpCode::Call => 23,
    }
}

/// The opcode a byte decodes to, if any.
pub open spec fn spec_opcode_of_byte(b: u8) -> Option<OpCode> {
    if b == 0 {
        Some(OpCode::Constant)
    } else if b == 1 {
        Some(OpCode::Pop)
    } else if b == 2 {
        Some(OpCode::Equal)
    } else if b == 3 {
        Some(OpCode::Not)
    } else if b == 4 {
        Some(OpCode::Greater)
    } else if b == 5 {
        Some(OpCode::Less)
    } else if b == 6 {
        Some(OpCode::Add)
    } else if b == 7 {
        Some(OpCode::Subtract)
    } else if b == 8 {
        Some(OpCode::Multiply)
    } else if b == 9 {
        Some(OpCode::Divide)
    } else if b == 10 {
        Some(OpCode::Negate)
    } else if b == 11 {
        Some(OpCode::Return)
    } else if b == 12 {
        Some(OpCode::Null)
    } else if b == 13 {
        Some(OpCode::DefineGlobal)
    } else if b == 14 {
        Some(OpCode::SetLocal)
    } else if b == 15 {
        Some(OpCode::GetLocal)
    } else if b == 16 {
        Some(OpCode::SetGlobal)
    } else if b == 17 {
        Some(OpCode::GetGlobal)
    } else if b == 18 {
        Some(OpCode::JumpIfFalse)
    } else if b == 19 {
        Some(OpCode::Jump)
    } else if b == 20 {
        Some(OpCode::JumpBack)
    } else if b == 21 {
        Some(OpCode::True)
    } else if b == 22 {
        Some(OpCode::False)
    } else if b == 23 {
        Some(OpCode::Call)
    } else {
        None
    }
}

impl OpCode {
    /// Encoding, inverse of `from_byte`.
    pub fn as_byte(self) -> (b: u8)
        ensures
            b == spec_opcode_byte(self),
            spec_opcode_of_byte(b) == Some(self),
    {
        match self {
            OpCode::Constant => 0,
            OpCode::Pop => 1,
            OpCode::Equal => 2,
            OpCode::Not => 3,
            OpCode::Greater => 4,
            OpCode::Less => 5,
            OpCode::Add => 6,
            OpCode::Subtract => 7,
            OpCode::Multiply => 8,
            OpCode::Divide => 9,
            OpCode::Negate => 10,
            OpCode::Return => 11,
            OpCode::Null => 12,
            OpCode::DefineGlobal => 13,
            OpCode::SetLocal => 14,
            OpCode::GetLocal => 15,
            OpCode::SetGlobal => 16,
            OpCode::GetGlobal => 17,
            OpCode::JumpIfFalse => 18,
            OpCode::Jump => 19,
            OpCode::JumpBack => 20,
            OpCode::True => 21,
            OpCode::False => 22,
            OpCode::Call => 23,
        }
    }

    /// Decoding; `None` for a byte outside the instruction set.
    pub fn from_byte(b: u8) -> (op: Option<OpCode>)
        ensures
            op == spec_opcode_of_byte(b),
            (op matches Some(o) ==> spec_opcode_byte(o) == b),
    {
        match b {
            0 => Some(OpCode::Constant),
            1 => Some(OpCode::Pop),
            2 => Some(OpCode::Equal),
            3 => Some(OpCode::Not),
            4 => Some(OpCode::Greater),
            5 => Some(OpCode::Less),
            6 => Some(OpCode::Add),
            7 => Some(OpCode::Subtract),
            8 => Some(OpCode::Multiply),
            9 => Some(OpCode::Divide),
            10 => Some(OpCode::Negate),
            11 => Some(OpCode::Return),
            12 => Some(OpCode::Null),
            13 => Some(OpCode::DefineGlobal),
            14 => Some(OpCode::SetLocal),
            15 => Some(OpCode::GetLocal),
            16 => Some(OpCode::SetGlobal),
            17 => Some(OpCode::GetGlobal),
            18 => Some(OpCode::JumpIfFalse),
            19 => Some(OpCode::Jump),
            20 => Some(OpCode::JumpBack),
            21 => Some(OpCode::True),
            22 => Some(OpCode::False),
            23 => Some(OpCode::Call),
            _ => None,
        }
    }
}

} // verus!
