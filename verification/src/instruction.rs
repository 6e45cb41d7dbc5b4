//! Decoding of 16-bit instruction words.

use crate::hex::{
    padded_hex, prefixed_hex, push_padded_hex, push_prefixed_hex, push_upper_hex, upper_hex,
};
use vstd::prelude::*;
use vstd::string::StringExecFns;

verus! {

/// A raw 16-bit instruction word. Every operand is derived from it on demand.
#[derive(Debug, Clone, Copy, PartialEq, Eq, Structural)]
pub struct Instruction {
    opcode: u16,
}

impl View for Instruction {
    type V = u16;

    closed spec fn view(&self) -> u16 {
        self.opcode
    }
}

/// The instruction that wraps `opcode`.
pub closed spec fn instruction_of(opcode: u16) -> Instruction {
    Instruction { opcode }
}

/// An instruction is the word it wraps and nothing more.
pub proof fn lemma_instruction_of(ins: Instruction, opcode: u16)
    ensures
        instruction_of(opcode)@ == opcode,
        instruction_of(ins@) == ins,
{
}

/// The bits of `opcode` selected by `mask`, moved right by `shift` places.
pub open spec fn field(opcode: u16, mask: u16, shift: u16) -> u16 {
    (opcode & mask) >> shift
}

/// Bits 12 to 15: the nibble on which dispatch starts.
pub open spec fn field_hi(opcode: u16) -> u16 {
    opcode / 4096
}

/// Bits 8 to 11: the first register operand.
pub open spec fn field_x(opcode: u16) -> u8 {
    ((opcode / 256) % 16) as u8
}

/// Bits 4 to 7: the second register operand.
pub open spec fn field_y(opcode: u16) -> u8 {
    ((opcode / 16) % 16) as u8
}

/// The low twelve bits: an address operand.
pub open spec fn field_nnn(opcode: u16) -> u16 {
    opcode % 4096
}

/// The low eight bits: an immediate byte.
pub open spec fn field_nn(opcode: u16) -> u8 {
    (opcode % 256) as u8
}

/// The low four bits: a count.
pub open spec fn field_n(opcode: u16) -> u8 {
    (opcode % 16) as u8
}

/// What an instruction word asks the processor to do. `x` and `y` name
/// registers, `nnn` is an address, `nn` a byte and `n` a count.
#[derive(Debug, Clone, Copy, PartialEq, Eq, Structural)]
pub enum Operation {
    ClearScreen,
    Return,
    Sys { nnn: u16 },
    Jump { nnn: u16 },
    Call { nnn: u16 },
    SkipEqImm { x: u8, nn: u8 },
    SkipNeImm { x: u8, nn: u8 },
    SkipEqReg { x: u8, y: u8 },
    LoadImm { x: u8, nn: u8 },
    AddImm { x: u8, nn: u8 },
    Move { x: u8, y: u8 },
    Or { x: u8, y: u8 },
    And { x: u8, y: u8 },
    Xor { x: u8, y: u8 },
    Add { x: u8, y: u8 },
    Sub { x: u8, y: u8 },
    Shr { x: u8, y: u8 },
    SubN { x: u8, y: u8 },
    Shl { x: u8, y: u8 },
    SkipNeReg { x: u8, y: u8 },
    SetIndex { nnn: u16 },
    JumpOffset { nnn: u16 },
    Random { x: u8, nn: u8 },
    Draw { x: u8, y: u8, n: u8 },
    SkipIfKey { x: u8 },
    SkipIfNotKey { x: u8 },
    LoadDelay { x: u8 },
    WaitKey { x: u8 },
    SetDelay { x: u8 },
    SetSound { x: u8 },
    AddIndex { x: u8 },
    LoadFontAddr { x: u8 },
    StoreBcd { x: u8 },
    StoreRegs { x: u8 },
    LoadRegs { x: u8 },
}

/// The operation that `opcode` encodes, if it encodes one. Dispatch goes by
/// the leading nibble, then by the last one and, in the `F` family, by the
/// third as well. A comparison of two registers for equality needs a last
/// nibble of zero; the other nibbles that a pattern leaves open are not
/// examined.
pub open spec fn decode(opcode: u16) -> Option<Operation> {
    let hi = field_hi(opcode);
    let x = field_x(opcode);
    let y = field_y(opcode);
    let n = field_n(opcode);
    let nn = field_nn(opcode);
    let nnn = field_nnn(opcode);
    if hi == 0x0 {
        if n == 0x0 {
            Some(Operation::ClearScreen)
        } else if n == 0xE {
            Some(Operation::Return)
        } else {
            Some(Operation::Sys { nnn })
        }
    } else if hi == 0x1 {
        Some(Operation::Jump { nnn })
    } else if hi == 0x2 {
        Some(Operation::Call { nnn })
    } else if hi == 0x3 {
        Some(Operation::SkipEqImm { x, nn })
    } else if hi == 0x4 {
        Some(Operation::SkipNeImm { x, nn })
    } else if hi == 0x5 {
        if n == 0x0 {
            Some(Operation::SkipEqReg { x, y })
        } else {
            None
        }
    } else if hi == 0x6 {
        Some(Operation::LoadImm { x, nn })
    } else if hi == 0x7 {
        Some(Operation::AddImm { x, nn })
    } else if hi == 0x8 {
        if n == 0x0 {
            Some(Operation::Move { x, y })
        } else if n == 0x1 {
            Some(Operation::Or { x, y })
        } else if n == 0x2 {
            Some(Operation::And { x, y })
        } else if n == 0x3 {
            Some(Operation::Xor { x, y })
        } else if n == 0x4 {
            Some(Operation::Add { x, y })
        } else if n == 0x5 {
            Some(Operation::Sub { x, y })
        } else if n == 0x6 {
            Some(Operation::Shr { x, y })
        } else if n == 0x7 {
            Some(Operation::SubN { x, y })
        } else if n == 0xE {
            Some(Operation::Shl { x, y })
        } else {
            None
        }
    } else if hi == 0x9 {
        Some(Operation::SkipNeReg { x, y })
    } else if hi == 0xA {
        Some(Operation::SetIndex { nnn })
    } else if hi == 0xB {
        Some(Operation::JumpOffset { nnn })
    } else if hi == 0xC {
        Some(Operation::Random { x, nn })
    } else if hi == 0xD {
        Some(Operation::Draw { x, y, n })
    } else if hi == 0xE {
        if n == 0xE {
            Some(Operation::SkipIfKey { x })
        } else if n == 0x1 {
            Some(Operation::SkipIfNotKey { x })
        } else {
            None
        }
    } else {
        if n == 0x7 {
            Some(Operation::LoadDelay { x })
        } else if n == 0xA {
            Some(Operation::WaitKey { x })
        } else if y == 0x1 && n == 0x5 {
            Some(Operation::SetDelay { x })
        } else if n == 0x8 {
            Some(Operation::SetSound { x })
        } else if n == 0xE {
            Some(Operation::AddIndex { x })
        } else if n == 0x9 {
            Some(Operation::LoadFontAddr { x })
        } else if n == 0x3 {
            Some(Operation::StoreBcd { x })
        } else if y == 0x5 && n == 0x5 {
            Some(Operation::StoreRegs { x })
        } else if y == 0x6 && n == 0x5 {
            Some(Operation::LoadRegs { x })
        } else {
            None
        }
    }
}

impl Operation {
    /// Whether every register that the operation names exists.
    pub open spec fn registers_exist(self) -> bool {
        match self {
            Operation::ClearScreen | Operation::Return => true,
            Operation::Sys { nnn }
            | Operation::Jump { nnn }
            | Operation::Call { nnn }
            | Operation::SetIndex { nnn }
            | Operation::JumpOffset { nnn } => true,
            Operation::SkipEqImm { x, nn }
            | Operation::SkipNeImm { x, nn }
            | Operation::LoadImm { x, nn }
            | Operation::AddImm { x, nn }
            | Operation::Random { x, nn } => x < 16,
            Operation::SkipEqReg { x, y }
            | Operation::Move { x, y }
            | Operation::Or { x, y }
            | Operation::And { x, y }
            | Operation::Xor { x, y }
            | Operation::Add { x, y }
            | Operation::Sub { x, y }
            | Operation::Shr { x, y }
            | Operation::SubN { x, y }
            | Operation::Shl { x, y }
            | Operation::SkipNeReg { x, y } => x < 16 && y < 16,
            Operation::Draw { x, y, n } => x < 16 && y < 16,
            Operation::SkipIfKey { x }
            | Operation::SkipIfNotKey { x }
            | Operation::LoadDelay { x }
            | Operation::WaitKey { x }
            | Operation::SetDelay { x }
            | Operation::SetSound { x }
            | Operation::AddIndex { x }
            | Operation::LoadFontAddr { x }
            | Operation::StoreBcd { x }
            | Operation::StoreRegs { x }
            | Operation::LoadRegs { x } => x < 16,
        }
    }
}

impl Instruction {
    pub fn new(opcode: u16) -> (r: Instruction)
        ensures
            r == instruction_of(opcode),
            r@ == opcode,
    {
        Self { opcode }
    }

    pub fn x(&self) -> (r: u8)
        ensures
            r == field_x(self@),
            r < 16,
    {
        let opcode = self.opcode;
        assert(((opcode & 0x0F00) >> 8u16) == (opcode / 256) % 16) by (bit_vector);
        self.extract(0x0F00, 8) as u8
    }

    pub fn y(&self) -> (r: u8)
        ensures
            r == field_y(self@),
            r < 16,
    {
        let opcode = self.opcode;
        assert(((opcode & 0x00F0) >> 4u16) == (opcode / 16) % 16) by (bit_vector);
        self.extract(0x00F0, 4) as u8
    }

    pub fn nnn(&self) -> (r: u16)
        ensures
            r == field_nnn(self@),
            r < 4096,
    {
        let opcode = self.opcode;
        assert(((opcode & 0x0FFF) >> 0u16) == opcode % 4096) by (bit_vector);
        self.extract(0x0FFF, 0)
    }

    pub fn nn(&self) -> (r: u8)
        ensures
            r == field_nn(self@),
    {
        let opcode = self.opcode;
        assert(((opcode & 0x00FF) >> 0u16) == opcode % 256) by (bit_vector);
        self.extract(0x00FF, 0) as u8
    }

    pub fn n(&self) -> (r: u8)
        ensures
            r == field_n(self@),
            r < 16,
    {
        let opcode = self.opcode;
        assert(((opcode & 0x000F) >> 0u16) == opcode % 16) by (bit_vector);
        self.extract(0x000F, 0) as u8
    }

    /// The generic primitive behind every operand: mask, then shift right.
    pub fn extract(&self, mask: u16, shift: u16) -> (r: u16)
        requires
            shift < 16,
        ensures
            r == field(self@, mask, shift),
    {
        (self.opcode & mask) >> shift
    }

    pub fn opcode(&self) -> (r: u16)
        ensures
            r == self@,
    {
        self.opcode
    }

    /// The leading nibble.
    fn hi(&self) -> (r: u16)
        ensures
            r == field_hi(self@),
            r < 16,
    {
        let opcode = self.opcode;
        assert(((opcode & 0xF000) >> 12u16) == opcode / 4096) by (bit_vector);
        self.extract(0xF000, 12)
    }

    /// Decodes the word into the operation it encodes; `None` for a word
    /// that encodes none.
    pub fn operation(&self) -> (r: Option<Operation>)
        ensures
            r == decode(self@),
    {
        let nnn = self.nnn();
        let nn = self.nn();
        let n = self.n();
        let x = self.x();
        let y = self.y();

        let hi_n = self.hi();

        match (hi_n, x, y, n) {
            (0x0, _, _, 0x0) => Some(Operation::ClearScreen),
            (0x0, _, _, 0xE) => Some(Operation::Return),
            (0x0, _, _, _) => Some(Operation::Sys { nnn }),
            (0x1, _, _, _) => Some(Operation::Jump { nnn }),
            (0x2, _, _, _) => Some(Operation::Call { nnn }),
            (0x3, _, _, _) => Some(Operation::SkipEqImm { x, nn }),
            (0x4, _, _, _) => Some(Operation::SkipNeImm { x, nn }),
            (0x5, _, _, 0x0) => Some(Operation::SkipEqReg { x, y }),
            (0x6, _, _, _) => Some(Operation::LoadImm { x, nn }),
            (0x7, _, _, _) => Some(Operation::AddImm { x, nn }),
            (0x8, _, _, 0x0) => Some(Operation::Move { x, y }),
            (0x8, _, _, 0x1) => Some(Operation::Or { x, y }),
            (0x8, _, _, 0x2) => Some(Operation::And { x, y }),
            (0x8, _, _, 0x3) => Some(Operation::Xor { x, y }),
            (0x8, _, _, 0x4) => Some(Operation::Add { x, y }),
            (0x8, _, _, 0x5) => Some(Operation::Sub { x, y }),
            (0x8, _, _, 0x6) => Some(Operation::Shr { x, y }),
            (0x8, _, _, 0x7) => Some(Operation::SubN { x, y }),
            (0x8, _, _, 0xE) => Some(Operation::Shl { x, y }),
            (0x9, _, _, _) => Some(Operation::SkipNeReg { x, y }),
            (0xA, _, _, _) => Some(Operation::SetIndex { nnn }),
            (0xB, _, _, _) => Some(Operation::JumpOffset { nnn }),
            (0xC, _, _, _) => Some(Operation::Random { x, nn }),
            (0xD, _, _, _) => Some(Operation::Draw { x, y, n }),
            (0xE, _, _, 0xE) => Some(Operation::SkipIfKey { x }),
            (0xE, _, _, 0x1) => Some(Operation::SkipIfNotKey { x }),
            (0xF, _, _, 0x7) => Some(Operation::LoadDelay { x }),
            (0xF, _, _, 0xA) => Some(Operation::WaitKey { x }),
            (0xF, _, 0x1, 0x5) => Some(Operation::SetDelay { x }),
            (0xF, _, _, 0x8) => Some(Operation::SetSound { x }),
            (0xF, _, _, 0xE) => Some(Operation::AddIndex { x }),
            (0xF, _, _, 0x9) => Some(Operation::LoadFontAddr { x }),
            (0xF, _, _, 0x3) => Some(Operation::StoreBcd { x }),
            (0xF, _, 0x5, 0x5) => Some(Operation::StoreRegs { x }),
            (0xF, _, 0x6, 0x5) => Some(Operation::LoadRegs { x }),
            (_, _, _, _) => None,
        }
    }
}

/// The text that names an operation and its operands for a reader. A word
/// that encodes no operation is rendered with its raw fields instead.
pub open spec fn mnemonic(opcode: u16) -> Seq<char> {
    let hi = field_hi(opcode);
    let x = field_x(opcode);
    let y = field_y(opcode);
    let n = field_n(opcode);
    match decode(opcode) {
        Some(Operation::ClearScreen) => "CLS"@,
        Some(Operation::Return) => "RET"@,
        Some(Operation::Sys { nnn }) => "SYS "@ + padded_hex(nnn as nat),
        Some(Operation::Jump { nnn }) => "JP "@ + padded_hex(nnn as nat),
        Some(Operation::Call { nnn }) => "CALL "@ + padded_hex(nnn as nat),
        Some(Operation::SkipEqImm { x, nn }) => "SE V"@ + upper_hex(x as nat) + ", "@
            + prefixed_hex(nn as nat),
        Some(Operation::SkipNeImm { x, nn }) => "SNE V"@ + upper_hex(x as nat) + ", "@
            + prefixed_hex(nn as nat),
        Some(Operation::SkipEqReg { x, y }) => "SE V"@ + upper_hex(x as nat) + ", V"@
            + upper_hex(y as nat),
        Some(Operation::LoadImm { x, nn }) => "LD V"@ + upper_hex(x as nat) + ", "@
            + prefixed_hex(nn as nat),
        Some(Operation::AddImm { x, nn }) => "ADD V"@ + upper_hex(x as nat) + ", "@
            + prefixed_hex(nn as nat),
        Some(Operation::Move { x, y }) => "LD V"@ + upper_hex(x as nat) + ", V"@
            + upper_hex(y as nat),
        Some(Operation::Or { x, y }) => "OR V"@ + upper_hex(x as nat) + ", V"@
            + upper_hex(y as nat),
        Some(Operation::And { x, y }) => "AND V"@ + upper_hex(x as nat) + ", V"@
            + upper_hex(y as nat),
        Some(Operation::Xor { x, y }) => "XOR V"@ + upper_hex(x as nat) + ", "@
            + prefixed_hex(y as nat),
        Some(Operation::Add { x, y }) => "ADD V"@ + upper_hex(x as nat) + ", "@
            + prefixed_hex(y as nat),
        Some(Operation::Sub { x, y }) => "SUB V"@ + upper_hex(x as nat) + ", "@
            + prefixed_hex(y as nat),
        Some(Operation::Shr { x, y }) => "SHR V"@ + upper_hex(x as nat),
        Some(Operation::SubN { x, y }) => "SUBN V"@ + upper_hex(x as nat) + ", "@
            + prefixed_hex(y as nat),
        Some(Operation::Shl { x, y }) => "SHL V"@ + upper_hex(x as nat),
        Some(Operation::SkipNeReg { x, y }) => "SNE V"@ + upper_hex(x as nat) + ", V"@
            + upper_hex(y as nat),
        Some(Operation::SetIndex { nnn }) => "LD I "@ + prefixed_hex(nnn as nat),
        Some(Operation::JumpOffset { nnn }) => "JP V0 "@ + prefixed_hex(nnn as nat),
        Some(Operation::Random { x, nn }) => "RND V"@ + upper_hex(x as nat) + ", "@
            + prefixed_hex(nn as nat),
        Some(Operation::Draw { x, y, n }) => "DRW V"@ + upper_hex(x as nat) + ", V"@
            + upper_hex(y as nat) + ", "@ + prefixed_hex(n as nat),
        Some(Operation::SkipIfKey { x }) => "SKP V"@ + upper_hex(x as nat),
        Some(Operation::SkipIfNotKey { x }) => "SKNP V"@ + upper_hex(x as nat),
        Some(Operation::LoadDelay { x }) => "LD V"@ + upper_hex(x as nat) + ", DT"@,
        Some(Operation::WaitKey { x }) => "LD V"@ + upper_hex(x as nat) + ", K"@,
        Some(Operation::SetDelay { x }) => "LD DT, V"@ + upper_hex(x as nat),
        Some(Operation::SetSound { x }) => "LD ST, V"@ + upper_hex(x as nat),
        Some(Operation::AddIndex { x }) => "ADD I, V"@ + upper_hex(x as nat),
        Some(Operation::LoadFontAddr { x }) => "LD F, V"@ + upper_hex(x as nat),
        Some(Operation::StoreBcd { x }) => "LD B, V"@ + upper_hex(x as nat),
        Some(Operation::StoreRegs { x }) => "LD [I], V"@ + upper_hex(x as nat),
        Some(Operation::LoadRegs { x }) => "LD V"@ + upper_hex(x as nat) + ", [I]"@,
        None => "UNK "@ + prefixed_hex(opcode as nat) + " => ("@ + prefixed_hex(hi as nat) + ", "@
            + prefixed_hex(x as nat) + ", "@ + prefixed_hex(y as nat) + ", "@
            + prefixed_hex(n as nat) + ")"@,
    }
}

impl Instruction {
    /// Renders the instruction for inspection.
    pub fn to_string(&self) -> (r: String)
        ensures
            r@ == mnemonic(self@),
    {
        let opcode = self.opcode;
        let hi = self.hi();
        let x = self.x();
        let y = self.y();
        let n = self.n();
        match self.operation() {
            Some(Operation::ClearScreen) => {
                String::from_str("CLS")
            },
            Some(Operation::Return) => {
                String::from_str("RET")
            },
            Some(Operation::Sys { nnn }) => {
                let mut s = String::from_str("SYS ");
                push_padded_hex(&mut s, nnn);
                s
            },
            Some(Operation::Jump { nnn }) => {
                let mut s = String::from_str("JP ");
                push_padded_hex(&mut s, nnn);
                s
            },
            Some(Operation::Call { nnn }) => {
                let mut s = String::from_str("CALL ");
                push_padded_hex(&mut s, nnn);
                s
            },
            Some(Operation::SkipEqImm { x, nn }) => {
                let mut s = String::from_str("SE V");
                push_upper_hex(&mut s, x as u16);
                s.append(", ");
                push_prefixed_hex(&mut s, nn as u16);
                s
            },
            Some(Operation::SkipNeImm { x, nn }) => {
                let mut s = String::from_str("SNE V");
                push_upper_hex(&mut s, x as u16);
                s.append(", ");
                push_prefixed_hex(&mut s, nn as u16);
                s
            },
            Some(Operation::SkipEqReg { x, y }) => {
                let mut s = String::from_str("SE V");
                push_upper_hex(&mut s, x as u16);
                s.append(", V");
                push_upper_hex(&mut s, y as u16);
                s
            },
            Some(Operation::LoadImm { x, nn }) => {
                let mut s = String::from_str("LD V");
                push_upper_hex(&mut s, x as u16);
                s.append(", ");
                push_prefixed_hex(&mut s, nn as u16);
                s
            },
            Some(Operation::AddImm { x, nn }) => {
                let mut s = String::from_str("ADD V");
                push_upper_hex(&mut s, x as u16);
                s.append(", ");
                push_prefixed_hex(&mut s, nn as u16);
                s
            },
            Some(Operation::Move { x, y }) => {
                let mut s = String::from_str("LD V");
                push_upper_hex(&mut s, x as u16);
                s.append(", V");
                push_upper_hex(&mut s, y as u16);
                s
            },
            Some(Operation::Or { x, y }) => {
                let mut s = String::from_str("OR V");
                push_upper_hex(&mut s, x as u16);
                s.append(", V");
                push_upper_hex(&mut s, y as u16);
                s
            },
            Some(Operation::And { x, y }) => {
                let mut s = String::from_str("AND V");
                push_upper_hex(&mut s, x as u16);
                s.append(", V");
                push_upper_hex(&mut s, y as u16);
                s
            },
            Some(Operation::Xor { x, y }) => {
                let mut s = String::from_str("XOR V");
                push_upper_hex(&mut s, x as u16);
                s.append(", ");
                push_prefixed_hex(&mut s, y as u16);
                s
            },
            Some(Operation::Add { x, y }) => {
                let mut s = String::from_str("ADD V");
                push_upper_hex(&mut s, x as u16);
                s.append(", ");
                push_prefixed_hex(&mut s, y as u16);
                s
            },
            Some(Operation::Sub { x, y }) => {
                let mut s = String::from_str("SUB V");
                push_upper_hex(&mut s, x as u16);
                s.append(", ");
                push_prefixed_hex(&mut s, y as u16);
                s
            },
            Some(Operation::Shr { x, y }) => {
                let mut s = String::from_str("SHR V");
                push_upper_hex(&mut s, x as u16);
                s
            },
            Some(Operation::SubN { x, y }) => {
                let mut s = String::from_str("SUBN V");
                push_upper_hex(&mut s, x as u16);
                s.append(", ");
                push_prefixed_hex(&mut s, y as u16);
                s
            },
            Some(Operation::Shl { x, y }) => {
                let mut s = String::from_str("SHL V");
                push_upper_hex(&mut s, x as u16);
                s
            },
            Some(Operation::SkipNeReg { x, y }) => {
                let mut s = String::from_str("SNE V");
                push_upper_hex(&mut s, x as u16);
                s.append(", V");
                push_upper_hex(&mut s, y as u16);
                s
            },
            Some(Operation::SetIndex { nnn }) => {
                let mut s = String::from_str("LD I ");
                push_prefixed_hex(&mut s, nnn as u16);
                s
            },
            Some(Operation::JumpOffset { nnn }) => {
                let mut s = String::from_str("JP V0 ");
                push_prefixed_hex(&mut s, nnn as u16);
                s
            },
            Some(Operation::Random { x, nn }) => {
                let mut s = String::from_str("RND V");
                push_upper_hex(&mut s, x as u16);
                s.append(", ");
                push_prefixed_hex(&mut s, nn as u16);
                s
            },
            Some(Operation::Draw { x, y, n }) => {
                let mut s = String::from_str("DRW V");
                push_upper_hex(&mut s, x as u16);
                s.append(", V");
                push_upper_hex(&mut s, y as u16);
                s.append(", ");
                push_prefixed_hex(&mut s, n as u16);
                s
            },
            Some(Operation::SkipIfKey { x }) => {
                let mut s = String::from_str("SKP V");
                push_upper_hex(&mut s, x as u16);
                s
            },
            Some(Operation::SkipIfNotKey { x }) => {
                let mut s = String::from_str("SKNP V");
                push_upper_hex(&mut s, x as u16);
                s
            },
            Some(Operation::LoadDelay { x }) => {
                let mut s = String::from_str("LD V");
                push_upper_hex(&mut s, x as u16);
                s.append(", DT");
                s
            },
            Some(Operation::WaitKey { x }) => {
                let mut s = String::from_str("LD V");
                push_upper_hex(&mut s, x as u16);
                s.append(", K");
                s
            },
            Some(Operation::SetDelay { x }) => {
                let mut s = String::from_str("LD DT, V");
                push_upper_hex(&mut s, x as u16);
                s
            },
            Some(Operation::SetSound { x }) => {
                let mut s = String::from_str("LD ST, V");
                push_upper_hex(&mut s, x as u16);
                s
            },
            Some(Operation::AddIndex { x }) => {
                let mut s = String::from_str("ADD I, V");
                push_upper_hex(&mut s, x as u16);
                s
            },
            Some(Operation::LoadFontAddr { x }) => {
                let mut s = String::from_str("LD F, V");
                push_upper_hex(&mut s, x as u16);
                s
            },
            Some(Operation::StoreBcd { x }) => {
                let mut s = String::from_str("LD B, V");
                push_upper_hex(&mut s, x as u16);
                s
            },
            Some(Operation::StoreRegs { x }) => {
                let mut s = String::from_str("LD [I], V");
                push_upper_hex(&mut s, x as u16);
                s
            },
            Some(Operation::LoadRegs { x }) => {
                let mut s = String::from_str("LD V");
                push_upper_hex(&mut s, x as u16);
                s.append(", [I]");
                s
            },
            None => {
                let mut s = String::from_str("UNK ");
                push_prefixed_hex(&mut s, opcode);
                s.append(" => (");
                push_prefixed_hex(&mut s, hi);
                s.append(", ");
                push_prefixed_hex(&mut s, x as u16);
                s.append(", ");
                push_prefixed_hex(&mut s, y as u16);
                s.append(", ");
                push_prefixed_hex(&mut s, n as u16);
                s.append(")");
                s
            },
        }
    }
}

} // verus!
