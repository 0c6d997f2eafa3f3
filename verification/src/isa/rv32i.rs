//! The RV32I base instruction set.

use vstd::prelude::*;
use vstd::string::*;
use crate::isa::text::{
    decimal, decimal_string, hex, hex_string, pad, pad_string, signed_decimal,
    signed_decimal_string,
};
use crate::isa::{ArchitecturalState, InstructionSet};

verus! {

/// RV32I instruction formats.
#[derive(Debug)]
pub enum InstFormat {
    R,
    I,
    S,
    B,
    U,
    J,
}

/// RV32I opcodes: bits 6 to 2 of an encoding.
#[allow(non_camel_case_types)]
#[derive(Clone, Copy, Debug, PartialEq, Eq)]
pub enum Opcode {
    /// `lb`, `lh`, `lw`, `lbu`, `lhu`
    LOAD,
    LOAD_FP,
    CUSTOM_0,
    /// `fence`, `fence.i`
    MISC_MEM,
    /// `addi`, `slti`, `sltiu`, `xori`, `ori`, `andi`
    OP_IMM,
    AUIPC,
    OP_IMM_32,
    /// `sb`, `sh`, `sw`
    STORE,
    STORE_FP,
    CUSTOM_1,
    AMO,
    /// `add`, `sub`, `sll`, `slt`, `sltu`, `xor`, `srl`, `sra`, `or`, `and`
    OP,
    LUI,
    OP_32,
    MADD,
    MSUB,
    NMSUB,
    NMADD,
    OP_FP,
    RES_0,
    CUSTOM_2,
    /// `beq`, `bne`, `blt`, `bge`, `bltu`, `bgeu`
    BRANCH,
    JALR,
    RES_1,
    JAL,
    SYSTEM,
    RES_2,
    CUSTOM_3,
}

impl Opcode {
    /// The five bits that stand for this opcode.
    pub open spec fn spec_bits(self) -> u32 {
        match self {
            Opcode::LOAD => 0b00000,
            Opcode::LOAD_FP => 0b00001,
            Opcode::CUSTOM_0 => 0b00010,
            Opcode::MISC_MEM => 0b00011,
            Opcode::OP_IMM => 0b00100,
            Opcode::AUIPC => 0b00101,
            Opcode::OP_IMM_32 => 0b00110,
            Opcode::STORE => 0b01000,
            Opcode::STORE_FP => 0b01001,
            Opcode::CUSTOM_1 => 0b01010,
            Opcode::AMO => 0b01011,
            Opcode::OP => 0b01100,
            Opcode::LUI => 0b01101,
            Opcode::OP_32 => 0b01110,
            Opcode::MADD => 0b10000,
            Opcode::MSUB => 0b10001,
            Opcode::NMSUB => 0b10010,
            Opcode::NMADD => 0b10011,
            Opcode::OP_FP => 0b10100,
            Opcode::RES_0 => 0b10101,
            Opcode::CUSTOM_2 => 0b10110,
            Opcode::BRANCH => 0b11000,
            Opcode::JALR => 0b11001,
            Opcode::RES_1 => 0b11010,
            Opcode::JAL => 0b11011,
            Opcode::SYSTEM => 0b11100,
            Opcode::RES_2 => 0b11101,
            Opcode::CUSTOM_3 => 0b11110,
        }
    }

    /// The five bits that stand for this opcode.
    #[verifier::when_used_as_spec(spec_bits)]
    pub fn bits(self) -> (x: u32)
        ensures
            x == self.spec_bits(),
    {
        match self {
            Opcode::LOAD => 0b00000,
            Opcode::LOAD_FP => 0b00001,
            Opcode::CUSTOM_0 => 0b00010,
            Opcode::MISC_MEM => 0b00011,
            Opcode::OP_IMM => 0b00100,
            Opcode::AUIPC => 0b00101,
            Opcode::OP_IMM_32 => 0b00110,
            Opcode::STORE => 0b01000,
            Opcode::STORE_FP => 0b01001,
            Opcode::CUSTOM_1 => 0b01010,
            Opcode::AMO => 0b01011,
            Opcode::OP => 0b01100,
            Opcode::LUI => 0b01101,
            Opcode::OP_32 => 0b01110,
            Opcode::MADD => 0b10000,
            Opcode::MSUB => 0b10001,
            Opcode::NMSUB => 0b10010,
            Opcode::NMADD => 0b10011,
            Opcode::OP_FP => 0b10100,
            Opcode::RES_0 => 0b10101,
            Opcode::CUSTOM_2 => 0b10110,
            Opcode::BRANCH => 0b11000,
            Opcode::JALR => 0b11001,
            Opcode::RES_1 => 0b11010,
            Opcode::JAL => 0b11011,
            Opcode::SYSTEM => 0b11100,
            Opcode::RES_2 => 0b11101,
            Opcode::CUSTOM_3 => 0b11110,
        }
    }

    /// Whether five bits stand for an opcode: all do but those that end in `111`.
    pub open spec fn is_opcode(x: u32) -> bool {
        x < 32 && x % 8 != 7
    }

    /// The opcode that `x` stands for. `x` has to stand for one.
    pub fn from(x: u32) -> (op: Self)
        requires
            Self::is_opcode(x),
        ensures
            op.bits() == x,
    {
        Self::checked_from(x).unwrap()
    }

    /// The opcode that `x` stands for, if it stands for one.
    pub fn checked_from(x: u32) -> (op: Option<Self>)
        ensures
            op is Some <==> Self::is_opcode(x),
            op matches Some(o) ==> o.bits() == x,
    {
        match x {
            0b00000 => Some(Self::LOAD),
            0b00001 => Some(Self::LOAD_FP),
            0b00010 => Some(Self::CUSTOM_0),
            0b00011 => Some(Self::MISC_MEM),
            0b00100 => Some(Self::OP_IMM),
            0b00101 => Some(Self::AUIPC),
            0b00110 => Some(Self::OP_IMM_32),
            0b01000 => Some(Self::STORE),
            0b01001 => Some(Self::STORE_FP),
            0b01010 => Some(Self::CUSTOM_1),
            0b01011 => Some(Self::AMO),
            0b01100 => Some(Self::OP),
            0b01101 => Some(Self::LUI),
            0b01110 => Some(Self::OP_32),
            0b10000 => Some(Self::MADD),
            0b10001 => Some(Self::MSUB),
            0b10010 => Some(Self::NMSUB),
            0b10011 => Some(Self::NMADD),
            0b10100 => Some(Self::OP_FP),
            0b10101 => Some(Self::RES_0),
            0b10110 => Some(Self::CUSTOM_2),
            0b11000 => Some(Self::BRANCH),
            0b11001 => Some(Self::JALR),
            0b11010 => Some(Self::RES_1),
            0b11011 => Some(Self::JAL),
            0b11100 => Some(Self::SYSTEM),
            0b11101 => Some(Self::RES_2),
            0b11110 => Some(Self::CUSTOM_3),
            _ => None,
        }
    }
}

/// ALU operations with an immediate operand.
#[derive(Clone, Copy, Debug, PartialEq, Eq)]
pub enum RvALUOpImm {
    Addi,
    Slti,
    Sltiu,
    Xori,
    Ori,
    Andi,
    Slli,
    Srli,
    Srai,
}

impl RvALUOpImm {
    /// The operation that `funct3` and `funct7` stand for, if they stand
    /// for one. Only the shifts look at `funct7`: for the others those bits
    /// belong to the immediate.
    pub open spec fn spec_from(x: (u32, u32)) -> Option<Self> {
        if x.0 == 0b000 {
            Some(Self::Addi)
        } else if x.0 == 0b010 {
            Some(Self::Slti)
        } else if x.0 == 0b011 {
            Some(Self::Sltiu)
        } else if x.0 == 0b100 {
            Some(Self::Xori)
        } else if x.0 == 0b110 {
            Some(Self::Ori)
        } else if x.0 == 0b111 {
            Some(Self::Andi)
        } else if x.0 == 0b001 && x.1 == 0b0000000 {
            Some(Self::Slli)
        } else if x.0 == 0b101 && x.1 == 0b0000000 {
            Some(Self::Srli)
        } else if x.0 == 0b101 && x.1 == 0b0100000 {
            Some(Self::Srai)
        } else {
            None
        }
    }

    /// Read an operation from `(funct3, funct7)`, which has to stand for one.
    pub fn from(x: (u32, u32)) -> (op: Self)
        requires
            Self::spec_from(x) is Some,
        ensures
            Self::spec_from(x) == Some(op),
    {
        Self::checked_from(x).unwrap()
    }

    /// Read an operation from `(funct3, funct7)`, if it stands for one.
    pub fn checked_from(x: (u32, u32)) -> (op: Option<Self>)
        ensures
            op == Self::spec_from(x),
    {
        match x {
            (0b000, _) => Some(Self::Addi),
            (0b010, _) => Some(Self::Slti),
            (0b011, _) => Some(Self::Sltiu),
            (0b100, _) => Some(Self::Xori),
            (0b110, _) => Some(Self::Ori),
            (0b111, _) => Some(Self::Andi),
            (0b001, 0b0000000) => Some(Self::Slli),
            (0b101, 0b0000000) => Some(Self::Srli),
            (0b101, 0b0100000) => Some(Self::Srai),
            _ => None,
        }
    }

    /// The mnemonic of this operation.
    pub open spec fn text(self) -> Seq<char> {
        match self {
            Self::Addi => "addi"@,
            Self::Slti => "slti"@,
            Self::Sltiu => "sltiu"@,
            Self::Xori => "xori"@,
            Self::Ori => "ori"@,
            Self::Andi => "andi"@,
            Self::Slli => "slli"@,
            Self::Srli => "srli"@,
            Self::Srai => "srai"@,
        }
    }

    /// Write the mnemonic of this operation.
    pub fn to_string(&self) -> (s: String)
        ensures
            s@ == self.text(),
    {
        let s = match self {
            Self::Addi => "addi",
            Self::Slti => "slti",
            Self::Sltiu => "sltiu",
            Self::Xori => "xori",
            Self::Ori => "ori",
            Self::Andi => "andi",
            Self::Slli => "slli",
            Self::Srli => "srli",
            Self::Srai => "srai",
        };
        String::from_str(s)
    }
}

/// ALU operations on two registers.
#[derive(Clone, Copy, Debug, PartialEq, Eq)]
pub enum RvALUOp {
    Add,
    Sub,
    Sll,
    Slt,
    Sltu,
    Xor,
    Srl,
    Sra,
    Or,
    And,
}

impl RvALUOp {
    /// The operation that `funct3` and `funct7` stand for, if they stand for one.
    pub open spec fn spec_from(x: (u32, u32)) -> Option<Self> {
        if x.1 == 0b0000000 {
            if x.0 == 0b000 {
                Some(Self::Add)
            } else if x.0 == 0b001 {
                Some(Self::Sll)
            } else if x.0 == 0b010 {
                Some(Self::Slt)
            } else if x.0 == 0b011 {
                Some(Self::Sltu)
            } else if x.0 == 0b100 {
                Some(Self::Xor)
            } else if x.0 == 0b101 {
                Some(Self::Srl)
            } else if x.0 == 0b110 {
                Some(Self::Or)
            } else if x.0 == 0b111 {
                Some(Self::And)
            } else {
                None
            }
        } else if x.1 == 0b0100000 {
            if x.0 == 0b000 {
                Some(Self::Sub)
            } else if x.0 == 0b101 {
                Some(Self::Sra)
            } else {
                None
            }
        } else {
            None
        }
    }

    /// Read an operation from `(funct3, funct7)`, which has to stand for one.
    pub fn from(x: (u32, u32)) -> (op: Self)
        requires
            Self::spec_from(x) is Some,
        ensures
            Self::spec_from(x) == Some(op),
    {
        Self::checked_from(x).unwrap()
    }

    /// Read an operation from `(funct3, funct7)`, if it stands for one.
    pub fn checked_from(x: (u32, u32)) -> (op: Option<Self>)
        ensures
            op == Self::spec_from(x),
    {
        match x {
            (0b000, 0b0000000) => Some(Self::Add),
            (0b000, 0b0100000) => Some(Self::Sub),
            (0b001, 0b0000000) => Some(Self::Sll),
            (0b010, 0b0000000) => Some(Self::Slt),
            (0b011, 0b0000000) => Some(Self::Sltu),
            (0b100, 0b0000000) => Some(Self::Xor),
            (0b101, 0b0000000) => Some(Self::Srl),
            (0b101, 0b0100000) => Some(Self::Sra),
            (0b110, 0b0000000) => Some(Self::Or),
            (0b111, 0b0000000) => Some(Self::And),
            _ => None,
        }
    }

    /// The mnemonic of this operation.
    pub open spec fn text(self) -> Seq<char> {
        match self {
            Self::Add => "add"@,
            Self::Sub => "sub"@,
            Self::Sll => "sll"@,
            Self::Slt => "slt"@,
            Self::Sltu => "sltu"@,
            Self::Xor => "xor"@,
            Self::Srl => "srl"@,
            Self::Sra => "sra"@,
            Self::Or => "or"@,
            Self::And => "and"@,
        }
    }

    /// Write the mnemonic of this operation.
    pub fn to_string(&self) -> (s: String)
        ensures
            s@ == self.text(),
    {
        let s = match self {
            Self::Add => "add",
            Self::Sub => "sub",
            Self::Sll => "sll",
            Self::Slt => "slt",
            Self::Sltu => "sltu",
            Self::Xor => "xor",
            Self::Srl => "srl",
            Self::Sra => "sra",
            Self::Or => "or",
            Self::And => "and",
        };
        String::from_str(s)
    }
}

/// Widths of loads and stores.
#[derive(Clone, Copy, Debug, PartialEq, Eq)]
pub enum RvWidth {
    Byte,
    Half,
    Word,
    ByteUnsigned,
    HalfUnsigned,
}

impl RvWidth {
    /// The width that `funct3` stands for, if it stands for one.
    pub open spec fn spec_from(x: u32) -> Option<Self> {
        if x == 0b000 {
            Some(Self::Byte)
        } else if x == 0b001 {
            Some(Self::Half)
        } else if x == 0b010 {
            Some(Self::Word)
        } else if x == 0b100 {
            Some(Self::ByteUnsigned)
        } else if x == 0b101 {
            Some(Self::HalfUnsigned)
        } else {
            None
        }
    }

    /// Read a width from `funct3`, which has to stand for one.
    pub fn from(x: u32) -> (width: Self)
        requires
            Self::spec_from(x) is Some,
        ensures
            Self::spec_from(x) == Some(width),
    {
        Self::checked_from(x).unwrap()
    }

    /// Read a width from `funct3`, if it stands for one.
    pub fn checked_from(x: u32) -> (width: Option<Self>)
        ensures
            width == Self::spec_from(x),
    {
        match x {
            0b000 => Some(Self::Byte),
            0b001 => Some(Self::Half),
            0b010 => Some(Self::Word),
            0b100 => Some(Self::ByteUnsigned),
            0b101 => Some(Self::HalfUnsigned),
            _ => None,
        }
    }

    /// What this width adds to the mnemonic of a load or store.
    pub open spec fn text(self) -> Seq<char> {
        match self {
            Self::Byte => "b"@,
            Self::Half => "h"@,
            Self::Word => "w"@,
            Self::ByteUnsigned => "bu"@,
            Self::HalfUnsigned => "hu"@,
        }
    }

    /// Write what this width adds to the mnemonic of a load or store.
    pub fn to_string(&self) -> (s: String)
        ensures
            s@ == self.text(),
    {
        let s = match self {
            Self::Byte => "b",
            Self::Half => "h",
            Self::Word => "w",
            Self::ByteUnsigned => "bu",
            Self::HalfUnsigned => "hu",
        };
        String::from_str(s)
    }
}

/// Conditions of branches.
#[derive(Clone, Copy, Debug, PartialEq, Eq)]
pub enum RvBranchOp {
    Eq,
    Ne,
    Lt,
    Ge,
    Ltu,
    Geu,
}

impl RvBranchOp {
    /// The condition that `funct3` stands for, if it stands for one.
    pub open spec fn spec_from(x: u32) -> Option<Self> {
        if x == 0b000 {
            Some(Self::Eq)
        } else if x == 0b001 {
            Some(Self::Ne)
        } else if x == 0b100 {
            Some(Self::Lt)
        } else if x == 0b101 {
            Some(Self::Ge)
        } else if x == 0b110 {
            Some(Self::Ltu)
        } else if x == 0b111 {
            Some(Self::Geu)
        } else {
            None
        }
    }

    /// Read a condition from `funct3`, which has to stand for one.
    pub fn from(x: u32) -> (op: Self)
        requires
            Self::spec_from(x) is Some,
        ensures
            Self::spec_from(x) == Some(op),
    {
        Self::checked_from(x).unwrap()
    }

    /// Read a condition from `funct3`, if it stands for one.
    pub fn checked_from(x: u32) -> (op: Option<Self>)
        ensures
            op == Self::spec_from(x),
    {
        match x {
            0b000 => Some(Self::Eq),
            0b001 => Some(Self::Ne),
            0b100 => Some(Self::Lt),
            0b101 => Some(Self::Ge),
            0b110 => Some(Self::Ltu),
            0b111 => Some(Self::Geu),
            _ => None,
        }
    }

    /// What this condition adds to the mnemonic of a branch.
    pub open spec fn text(self) -> Seq<char> {
        match self {
            Self::Eq => "eq"@,
            Self::Ne => "ne"@,
            Self::Lt => "lt"@,
            Self::Ge => "ge"@,
            Self::Ltu => "ltu"@,
            Self::Geu => "geu"@,
        }
    }

    /// Write what this condition adds to the mnemonic of a branch.
    pub fn to_string(&self) -> (s: String)
        ensures
            s@ == self.text(),
    {
        let s = match self {
            Self::Eq => "eq",
            Self::Ne => "ne",
            Self::Lt => "lt",
            Self::Ge => "ge",
            Self::Ltu => "ltu",
            Self::Geu => "geu",
        };
        String::from_str(s)
    }
}

/// A general-purpose register, by its index: `x0` to `x31`.
#[derive(Clone, Copy, Debug, PartialEq, Eq)]
pub struct Reg(pub u32);

impl Reg {
    /// Whether the index names a register.
    pub open spec fn wf(&self) -> bool {
        self.0 < 32
    }

    pub fn new(idx: u32) -> (reg: Self)
        requires
            idx < 32,
        ensures
            reg.0 == idx,
            reg.wf(),
    {
        Self(idx)
    }

    pub fn val(&self) -> (idx: u32)
        ensures
            idx == self.0,
    {
        self.0
    }

    /// The name of this register: `x` and its index in decimal.
    pub open spec fn text(self) -> Seq<char> {
        "x"@ + decimal(self.0 as nat)
    }

    /// Write the name of this register.
    pub fn to_string(&self) -> (s: String)
        ensures
            s@ == self.text(),
    {
        let mut s = String::from_str("x");
        s.append(decimal_string(self.0).as_str());
        s
    }
}

/// A decoded instruction.
#[allow(inconsistent_fields)]
#[derive(Clone, Copy, Debug, PartialEq, Eq)]
pub enum Instr {
    /// ALU operation
    Op { rd: Reg, rs1: Reg, rs2: Reg, alu_op: RvALUOp },
    /// ALU operation with immediate
    OpImm { rd: Reg, rs1: Reg, simm: i32, alu_op: RvALUOpImm },
    /// Memory load
    Load { rd: Reg, rs1: Reg, simm: i32, width: RvWidth },
    /// Jump-and-link register
    Jalr { rd: Reg, rs1: Reg, simm: i32 },
    /// Add upper immediate to program counter
    AuiPc { rd: Reg, uimm: u32 },
    /// Load upper immediate
    Lui { rd: Reg, uimm: u32 },
    /// Memory store
    Store { rs1: Reg, rs2: Reg, simm: i32, width: RvWidth },
    /// Jump-and-link
    Jal { rd: Reg, simm: i32 },
    /// Conditional branch
    Branch { rs1: Reg, rs2: Reg, simm: i32, brn_op: RvBranchOp },
}

impl Instr {
    /// Whether every register of this instruction is one.
    pub open spec fn wf(self) -> bool {
        match self {
            Instr::Op { rd, rs1, rs2, .. } => rd.wf() && rs1.wf() && rs2.wf(),
            Instr::OpImm { rd, rs1, .. } => rd.wf() && rs1.wf(),
            Instr::Load { rd, rs1, .. } => rd.wf() && rs1.wf(),
            Instr::Jalr { rd, rs1, .. } => rd.wf() && rs1.wf(),
            Instr::AuiPc { rd, .. } => rd.wf(),
            Instr::Lui { rd, .. } => rd.wf(),
            Instr::Store { rs1, rs2, .. } => rs1.wf() && rs2.wf(),
            Instr::Jal { rd, .. } => rd.wf(),
            Instr::Branch { rs1, rs2, .. } => rs1.wf() && rs2.wf(),
        }
    }

    /// This instruction in assembly: the mnemonic, filled up to six
    /// characters, then a space and the operands.
    pub open spec fn text(self) -> Seq<char> {
        match self {
            Instr::Op { rd, rs1, rs2, alu_op } => pad(alu_op.text(), 6) + " "@ + rd.text() + ", "@
                + rs1.text() + ", "@ + rs2.text(),
            Instr::OpImm { rd, rs1, simm, alu_op } => pad(alu_op.text(), 6) + " "@ + rd.text()
                + ", "@ + rs1.text() + ", "@ + signed_decimal(simm as int),
            Instr::Load { rd, rs1, simm, width } => pad("l"@ + width.text(), 6) + " "@ + rd.text()
                + ", "@ + signed_decimal(simm as int) + "("@ + rs1.text() + ")"@,
            Instr::Jalr { rd, rs1, simm } => pad("jalr"@, 6) + " "@ + rd.text() + ", "@
                + signed_decimal(simm as int) + "("@ + rs1.text() + ")"@,
            Instr::AuiPc { rd, uimm } => pad("auipc"@, 6) + " "@ + rd.text() + ", "@ + "0x"@ + hex(
                uimm as nat,
                8,
            ),
            Instr::Lui { rd, uimm } => pad("lui"@, 6) + " "@ + rd.text() + ", "@ + "0x"@ + hex(
                uimm as nat,
                8,
            ),
            Instr::Store { rs1, rs2, simm, width } => pad("s"@ + width.text(), 6) + " "@
                + rs2.text() + ", "@ + signed_decimal(simm as int) + "("@ + rs1.text() + ")"@,
            Instr::Jal { rd, simm } => pad("jal"@, 6) + " "@ + rd.text() + ", "@ + signed_decimal(
                simm as int,
            ),
            Instr::Branch { rs1, rs2, simm, brn_op } => pad("b"@ + brn_op.text(), 6) + " "@
                + rs1.text() + ", "@ + rs2.text() + ", "@ + signed_decimal(simm as int),
        }
    }

    /// Write this instruction in assembly.
    pub fn to_string(&self) -> (s: String)
        ensures
            s@ == self.text(),
    {
        match self {
            Instr::Op { rd, rs1, rs2, alu_op } => {
                let mut s = pad_string(alu_op.to_string(), 6);
                s.append(" ");
                s.append(rd.to_string().as_str());
                s.append(", ");
                s.append(rs1.to_string().as_str());
                s.append(", ");
                s.append(rs2.to_string().as_str());
                s
            },
            Instr::OpImm { rd, rs1, simm, alu_op } => {
                let mut s = pad_string(alu_op.to_string(), 6);
                s.append(" ");
                s.append(rd.to_string().as_str());
                s.append(", ");
                s.append(rs1.to_string().as_str());
                s.append(", ");
                s.append(signed_decimal_string(*simm).as_str());
                s
            },
            Instr::Load { rd, rs1, simm, width } => {
                let inst = String::from_str("l").concat(width.to_string().as_str());
                let mut s = pad_string(inst, 6);
                s.append(" ");
                s.append(rd.to_string().as_str());
                s.append(", ");
                s.append(signed_decimal_string(*simm).as_str());
                s.append("(");
                s.append(rs1.to_string().as_str());
                s.append(")");
                s
            },
            Instr::Jalr { rd, rs1, simm } => {
                let mut s = pad_string(String::from_str("jalr"), 6);
                s.append(" ");
                s.append(rd.to_string().as_str());
                s.append(", ");
                s.append(signed_decimal_string(*simm).as_str());
                s.append("(");
                s.append(rs1.to_string().as_str());
                s.append(")");
                s
            },
            Instr::AuiPc { rd, uimm } => {
                let mut s = pad_string(String::from_str("auipc"), 6);
                s.append(" ");
                s.append(rd.to_string().as_str());
                s.append(", ");
                s.append("0x");
                s.append(hex_string(*uimm, 8).as_str());
                s
            },
            Instr::Lui { rd, uimm } => {
                let mut s = pad_string(String::from_str("lui"), 6);
                s.append(" ");
                s.append(rd.to_string().as_str());
                s.append(", ");
                s.append("0x");
                s.append(hex_string(*uimm, 8).as_str());
                s
            },
            Instr::Store { rs1, rs2, simm, width } => {
                let inst = String::from_str("s").concat(width.to_string().as_str());
                let mut s = pad_string(inst, 6);
                s.append(" ");
                s.append(rs2.to_string().as_str());
                s.append(", ");
                s.append(signed_decimal_string(*simm).as_str());
                s.append("(");
                s.append(rs1.to_string().as_str());
                s.append(")");
                s
            },
            Instr::Jal { rd, simm } => {
                let mut s = pad_string(String::from_str("jal"), 6);
                s.append(" ");
                s.append(rd.to_string().as_str());
                s.append(", ");
                s.append(signed_decimal_string(*simm).as_str());
                s
            },
            Instr::Branch { rs1, rs2, simm, brn_op } => {
                let inst = String::from_str("b").concat(brn_op.to_string().as_str());
                let mut s = pad_string(inst, 6);
                s.append(" ");
                s.append(rs1.to_string().as_str());
                s.append(", ");
                s.append(rs2.to_string().as_str());
                s.append(", ");
                s.append(signed_decimal_string(*simm).as_str());
                s
            },
        }
    }
}

// Bitmasks for the fields that every format has in the same place
pub const MASK_OP_2: u32 = 0b0000000_00000_00000_000_00000_1111100;

pub const MASK_RD_7: u32 = 0b0000000_00000_00000_000_11111_0000000;

pub const MASK_F3_12: u32 = 0b0000000_00000_00000_111_00000_0000000;

pub const MASK_RS1_15: u32 = 0b0000000_00000_11111_000_00000_0000000;

pub const MASK_RS2_20: u32 = 0b0000000_11111_00000_000_00000_0000000;

pub const MASK_F7_25: u32 = 0b1111111_00000_00000_000_00000_0000000;

// I-type immediate bitmask
pub const MASK_I_IMM12_20_31: u32 = 0b1111111_11111_00000_000_00000_0000000;

// S-type immediate bitmasks
pub const MASK_S_IMM5_07_11: u32 = 0b0000000_00000_00000_000_11111_0000000;

pub const MASK_S_IMM7_25_31: u32 = 0b1111111_00000_00000_000_00000_0000000;

// B-type immediate bitmasks
pub const MASK_B_IMM1_07_07: u32 = 0b0000000_00000_00000_000_00001_0000000;

pub const MASK_B_IMM4_08_11: u32 = 0b0000000_00000_00000_000_11110_0000000;

pub const MASK_B_IMM6_25_30: u32 = 0b0111111_00000_00000_000_00000_0000000;

pub const MASK_B_IMM1_31_31: u32 = 0b1000000_00000_00000_000_00000_0000000;

// U-type immediate bitmask
pub const MASK_U_IMM20_12_31: u32 = 0b1111111_11111_11111_111_00000_0000000;

// J-type immediate bitmasks
pub const MASK_J_IMM8_12_19: u32 = 0b0000000_00000_11111_111_00000_0000000;

pub const MASK_J_IMM1_20_20: u32 = 0b0000000_00001_00000_000_00000_0000000;

pub const MASK_J_IMM4_21_24: u32 = 0b0000000_11110_00000_000_00000_0000000;

pub const MASK_J_IMM6_25_30: u32 = 0b0111111_00000_00000_000_00000_0000000;

pub const MASK_J_IMM1_31_31: u32 = 0b1000000_00000_00000_000_00000_0000000;

/// A field of an encoding, as a number: the bits from the one that is
/// worth `unit` upwards, as many as it takes to count to `size`.
pub open spec fn field(enc: u32, unit: int, size: int) -> int {
    (enc as int / unit) % size
}

/// The number that `x` stands for in two's complement with `size` values:
/// what is equal to `x` modulo `size` and lies from `-size / 2` up to,
/// but without, `size / 2`.
pub open spec fn signed(x: int, size: int) -> int {
    let low = x % size;
    if 2 * low >= size {
        low - size
    } else {
        low
    }
}

/// The opcode field: bits 6 to 2.
pub open spec fn opcode_field(enc: u32) -> u32 {
    field(enc, 0x4, 0x20) as u32
}

/// The destination register field: bits 11 to 7.
pub open spec fn rd_field(enc: u32) -> u32 {
    field(enc, 0x80, 0x20) as u32
}

/// The `funct3` field: bits 14 to 12.
pub open spec fn funct3_field(enc: u32) -> u32 {
    field(enc, 0x1000, 0x8) as u32
}

/// The first source register field: bits 19 to 15.
pub open spec fn rs1_field(enc: u32) -> u32 {
    field(enc, 0x8000, 0x20) as u32
}

/// The second source register field: bits 24 to 20.
pub open spec fn rs2_field(enc: u32) -> u32 {
    field(enc, 0x10_0000, 0x20) as u32
}

/// The `funct7` field: bits 31 to 25.
pub open spec fn funct7_field(enc: u32) -> u32 {
    field(enc, 0x200_0000, 0x80) as u32
}

/// The RV32I instruction set.
pub struct Rv32;

impl Rv32 {
    /// The immediate of an I-type encoding: bits 31 to 20, sign-extended.
    pub open spec fn i_imm(enc: u32) -> int {
        signed(field(enc, 0x10_0000, 0x1000), 0x1000)
    }

    /// The immediate of an S-type encoding: bits 31 to 25 above bits 11 to
    /// 7, sign-extended.
    pub open spec fn s_imm(enc: u32) -> int {
        signed(field(enc, 0x200_0000, 0x80) * 0x20 + field(enc, 0x80, 0x20), 0x1000)
    }

    /// The immediate of a B-type encoding, a multiple of two: bit 31, bit
    /// 7, bits 30 to 25 and bits 11 to 8 from the top down, sign-extended
    /// and doubled.
    pub open spec fn b_imm(enc: u32) -> int {
        2 * signed(
            field(enc, 0x8000_0000, 2) * 0x800 + field(enc, 0x80, 2) * 0x400 + field(
                enc,
                0x200_0000,
                0x40,
            ) * 0x10 + field(enc, 0x100, 0x10),
            0x1000,
        )
    }

    /// The immediate of a U-type encoding: the encoding with its low twelve
    /// bits cleared.
    pub open spec fn u_imm(enc: u32) -> int {
        field(enc, 0x1000, 0x10_0000) * 0x1000
    }

    /// The immediate of a J-type encoding, a multiple of two: bit 31, bits
    /// 19 to 12, bit 20, bits 30 to 25 and bits 24 to 21 from the top down,
    /// sign-extended and doubled.
    pub open spec fn j_imm(enc: u32) -> int {
        2 * signed(
            field(enc, 0x8000_0000, 2) * 0x8_0000 + field(enc, 0x1000, 0x100) * 0x800 + field(
                enc,
                0x10_0000,
                2,
            ) * 0x400 + field(enc, 0x200_0000, 0x40) * 0x10 + field(enc, 0x20_0000, 0x10),
            0x10_0000,
        )
    }

    /// The shifts that sign-extend the low `bits` bits of `x`.
    spec fn sext(x: u32, bits: u32) -> i32 {
        ((x << ((32 - bits) as u32)) as i32) >> ((32 - bits) as u32)
    }

    /// Sign-extend the low `bits` bits of `x`.
    fn sext32(x: u32, bits: u32) -> (r: i32)
        requires
            0 < bits <= 32,
        ensures
            r == Self::sext(x, bits),
    {
        #[verifier::truncate]
        ((x << (32 - bits)) as i32) >> (32 - bits)
    }

    /// Build the immediate of an I-type encoding.
    fn build_i_imm(enc: u32) -> (imm: i32)
        ensures
            imm == Self::i_imm(enc),
    {
        let imm = (enc & MASK_I_IMM12_20_31) >> 20;
        proof {
            assert(imm == (enc / 0x10_0000) % 0x1000 && imm < 0x1000) by (bit_vector)
                requires
                    imm == (enc & MASK_I_IMM12_20_31) >> 20,
            ;
            Self::lemma_sext12(imm);
        }
        Self::sext32(imm, 12)
    }

    /// Twelve bits, sign-extended by shifts, are the number that they stand
    /// for in two's complement.
    proof fn lemma_sext12(x: u32)
        requires
            x < 0x1000,
        ensures
            Self::sext(x, 12) == signed(x as int, 0x1000),
    {
        assert(((x << 20u32) as i32) >> 20u32 == (if x >= 0x800 {
            x - 0x1000
        } else {
            x as int
        })) by (bit_vector)
            requires
                x < 0x1000,
        ;
    }

    /// Twenty bits, sign-extended by shifts, are the number that they stand
    /// for in two's complement.
    proof fn lemma_sext20(x: u32)
        requires
            x < 0x10_0000,
        ensures
            Self::sext(x, 20) == signed(x as int, 0x10_0000),
    {
        assert(((x << 12u32) as i32) >> 12u32 == (if x >= 0x8_0000 {
            x - 0x10_0000
        } else {
            x as int
        })) by (bit_vector)
            requires
                x < 0x10_0000,
        ;
    }

    /// Build the immediate of an S-type encoding.
    fn build_s_imm(enc: u32) -> (imm: i32)
        ensures
            imm == Self::s_imm(enc),
    {
        let imm = ((enc & MASK_S_IMM5_07_11) >> 7) | (((enc & MASK_S_IMM7_25_31) >> 25) << 5);
        proof {
            assert(imm == (enc / 0x200_0000) % 0x80 * 0x20 + (enc / 0x80) % 0x20 && imm < 0x1000)
                by (bit_vector)
                requires
                    imm == ((enc & MASK_S_IMM5_07_11) >> 7) | (((enc & MASK_S_IMM7_25_31) >> 25)
                        << 5),
            ;
            Self::lemma_sext12(imm);
        }
        Self::sext32(imm, 12)
    }

    /// Build the immediate of a B-type encoding.
    fn build_b_imm(enc: u32) -> (imm: i32)
        ensures
            imm == Self::b_imm(enc),
    {
        let imm = ((enc & MASK_B_IMM4_08_11) >> 8) | (((enc & MASK_B_IMM6_25_30) >> 25) << 4) | (((
        enc & MASK_B_IMM1_07_07) >> 7) << 10) | (((enc & MASK_B_IMM1_31_31) >> 31) << 11);
        proof {
            assert(imm == (enc / 0x8000_0000) % 2 * 0x800 + (enc / 0x80) % 2 * 0x400 + (enc
                / 0x200_0000) % 0x40 * 0x10 + (enc / 0x100) % 0x10 && imm < 0x1000)
                by (bit_vector)
                requires
                    imm == ((enc & MASK_B_IMM4_08_11) >> 8) | (((enc & MASK_B_IMM6_25_30) >> 25)
                        << 4) | (((enc & MASK_B_IMM1_07_07) >> 7) << 10) | (((enc
                        & MASK_B_IMM1_31_31) >> 31) << 11),
            ;
            Self::lemma_sext12(imm);
        }
        Self::sext32(imm, 12) * 2
    }

    /// Build the immediate of a U-type encoding.
    fn build_u_imm(enc: u32) -> (imm: u32)
        ensures
            imm == Self::u_imm(enc),
    {
        proof {
            assert(enc & MASK_U_IMM20_12_31 == (enc / 0x1000) % 0x10_0000 * 0x1000)
                by (bit_vector);
        }
        enc & MASK_U_IMM20_12_31
    }

    /// Build the immediate of a J-type encoding.
    fn build_j_imm(enc: u32) -> (imm: i32)
        ensures
            imm == Self::j_imm(enc),
    {
        let imm = ((enc & MASK_J_IMM4_21_24) >> 21) | (((enc & MASK_J_IMM6_25_30) >> 25) << 4) | (((
        enc & MASK_J_IMM1_20_20) >> 20) << 10) | (((enc & MASK_J_IMM8_12_19) >> 12) << 11) | (((
        enc & MASK_J_IMM1_31_31) >> 31) << 19);
        proof {
            assert(imm == (enc / 0x8000_0000) % 2 * 0x8_0000 + (enc / 0x1000) % 0x100 * 0x800 + (enc
                / 0x10_0000) % 2 * 0x400 + (enc / 0x200_0000) % 0x40 * 0x10 + (enc / 0x20_0000)
                % 0x10 && imm < 0x10_0000) by (bit_vector)
                requires
                    imm == ((enc & MASK_J_IMM4_21_24) >> 21) | (((enc & MASK_J_IMM6_25_30) >> 25)
                        << 4) | (((enc & MASK_J_IMM1_20_20) >> 20) << 10) | (((enc
                        & MASK_J_IMM8_12_19) >> 12) << 11) | (((enc & MASK_J_IMM1_31_31) >> 31)
                        << 19),
            ;
            Self::lemma_sext20(imm);
        }
        Self::sext32(imm, 20) * 2
    }

    /// The instruction that an encoding stands for, if the decoder knows it.
    ///
    /// The decoder knows the register and immediate ALU operations, loads,
    /// stores, branches, `jal`, `jalr`, `lui` and `auipc`. The two low bits
    /// of an encoding are not looked at.
    pub open spec fn spec_decode(enc: u32) -> Option<Instr> {
        let op = opcode_field(enc);
        let rd = Reg(rd_field(enc));
        let f3 = funct3_field(enc);
        let rs1 = Reg(rs1_field(enc));
        let rs2 = Reg(rs2_field(enc));
        let f7 = funct7_field(enc);
        if op == Opcode::OP.bits() {
            match RvALUOp::spec_from((f3, f7)) {
                Some(alu_op) => Some(Instr::Op { rd, rs1, rs2, alu_op }),
                None => None,
            }
        } else if op == Opcode::OP_IMM.bits() {
            match RvALUOpImm::spec_from((f3, f7)) {
                Some(alu_op) => Some(
                    Instr::OpImm { rd, rs1, simm: Self::i_imm(enc) as i32, alu_op },
                ),
                None => None,
            }
        } else if op == Opcode::JALR.bits() {
            Some(Instr::Jalr { rd, rs1, simm: Self::i_imm(enc) as i32 })
        } else if op == Opcode::LOAD.bits() {
            match RvWidth::spec_from(f3) {
                Some(width) => Some(Instr::Load { rd, rs1, simm: Self::i_imm(enc) as i32, width }),
                None => None,
            }
        } else if op == Opcode::STORE.bits() {
            match RvWidth::spec_from(f3) {
                Some(width) => Some(
                    Instr::Store { rs1, rs2, simm: Self::s_imm(enc) as i32, width },
                ),
                None => None,
            }
        } else if op == Opcode::BRANCH.bits() {
            match RvBranchOp::spec_from(f3) {
                Some(brn_op) => Some(
                    Instr::Branch { rs1, rs2, simm: Self::b_imm(enc) as i32, brn_op },
                ),
                None => None,
            }
        } else if op == Opcode::AUIPC.bits() {
            Some(Instr::AuiPc { rd, uimm: Self::u_imm(enc) as u32 })
        } else if op == Opcode::LUI.bits() {
            Some(Instr::Lui { rd, uimm: Self::u_imm(enc) as u32 })
        } else if op == Opcode::JAL.bits() {
            Some(Instr::Jal { rd, simm: Self::j_imm(enc) as i32 })
        } else {
            None
        }
    }
}

impl InstructionSet for Rv32 {
    type Encoding = u32;

    type Inst = Instr;

    open spec fn decoding(enc: u32) -> Option<Instr> {
        Rv32::spec_decode(enc)
    }

    /// Decode an RV32I instruction. The encoding has to stand for one that
    /// the decoder knows.
    fn decode(enc: u32) -> (inst: Instr)
        ensures
            inst.wf(),
    {
        Rv32::try_decode(enc).unwrap()
    }
}

impl Rv32 {
    /// Decode an RV32I instruction, if the encoding stands for one that the
    /// decoder knows.
    pub fn try_decode(enc: u32) -> (inst: Option<Instr>)
        ensures
            inst == Rv32::spec_decode(enc),
            inst matches Some(i) ==> i.wf(),
    {
        // The positions of these fields are always fixed.
        let op = (enc & MASK_OP_2) >> 2;
        let rd = (enc & MASK_RD_7) >> 7;
        let f3 = (enc & MASK_F3_12) >> 12;
        let rs1 = (enc & MASK_RS1_15) >> 15;
        let rs2 = (enc & MASK_RS2_20) >> 20;
        let f7 = (enc & MASK_F7_25) >> 25;
        proof {
            assert((enc & MASK_OP_2) >> 2 == (enc / 0x4) % 0x20) by (bit_vector);
            assert((enc & MASK_RD_7) >> 7 == (enc / 0x80) % 0x20) by (bit_vector);
            assert((enc & MASK_F3_12) >> 12 == (enc / 0x1000) % 0x8) by (bit_vector);
            assert((enc & MASK_RS1_15) >> 15 == (enc / 0x8000) % 0x20) by (bit_vector);
            assert((enc & MASK_RS2_20) >> 20 == (enc / 0x10_0000) % 0x20) by (bit_vector);
            assert((enc & MASK_F7_25) >> 25 == (enc / 0x200_0000) % 0x80) by (bit_vector);
        }
        let rd = Reg::new(rd);
        let rs1 = Reg::new(rs1);
        let rs2 = Reg::new(rs2);

        match Opcode::checked_from(op) {
            // R-type formats
            Some(Opcode::OP) => match RvALUOp::checked_from((f3, f7)) {
                Some(alu_op) => Some(Instr::Op { rd, rs1, rs2, alu_op }),
                None => None,
            },
            // I-type formats
            Some(Opcode::OP_IMM) => {
                let simm = Self::build_i_imm(enc);
                match RvALUOpImm::checked_from((f3, f7)) {
                    Some(alu_op) => Some(Instr::OpImm { rd, rs1, simm, alu_op }),
                    None => None,
                }
            },
            Some(Opcode::JALR) => {
                let simm = Self::build_i_imm(enc);
                Some(Instr::Jalr { rd, rs1, simm })
            },
            Some(Opcode::LOAD) => {
                let simm = Self::build_i_imm(enc);
                match RvWidth::checked_from(f3) {
                    Some(width) => Some(Instr::Load { rd, rs1, simm, width }),
                    None => None,
                }
            },
            // S-type formats
            Some(Opcode::STORE) => {
                let simm = Self::build_s_imm(enc);
                match RvWidth::checked_from(f3) {
                    Some(width) => Some(Instr::Store { rs1, rs2, simm, width }),
                    None => None,
                }
            },
            // B-type formats
            Some(Opcode::BRANCH) => {
                let simm = Self::build_b_imm(enc);
                match RvBranchOp::checked_from(f3) {
                    Some(brn_op) => Some(Instr::Branch { rs1, rs2, simm, brn_op }),
                    None => None,
                }
            },
            // U-type formats
            Some(Opcode::AUIPC) => {
                let uimm = Self::build_u_imm(enc);
                Some(Instr::AuiPc { rd, uimm })
            },
            Some(Opcode::LUI) => {
                let uimm = Self::build_u_imm(enc);
                Some(Instr::Lui { rd, uimm })
            },
            // J-type formats
            Some(Opcode::JAL) => {
                let simm = Self::build_j_imm(enc);
                Some(Instr::Jal { rd, simm })
            },
            _ => None,
        }
    }
}

/// The registers of RV32I.
pub enum Rv32Reg {
    Zero,
    Gpr(usize),
}

/// The memory devices of RV32I.
pub enum Rv32Mem {
    /// The main memory.
    Ram,
}

/// The architectural state of an RV32I machine.
pub struct Rv32State {
    gpr: [u32; 32],
}

impl ArchitecturalState for Rv32State {
    type RegType = Rv32Reg;

    type MemType = Rv32Mem;
}

} // verus!
