//! Instruction sets.

use vstd::prelude::*;

pub mod rv32i;
pub mod text;

verus! {

/// An instruction set: how its instructions are encoded, and how an
/// encoding is read.
pub trait InstructionSet {
    /// The type of an instruction encoding.
    type Encoding;

    /// The type of a decoded instruction.
    type Inst;

    /// The instruction that an encoding stands for, if it stands for one
    /// that the decoder knows. Left open here: an instruction set says what
    /// it decodes by giving this a body of its own.
    open spec fn decoding(enc: Self::Encoding) -> Option<Self::Inst> {
        arbitrary()
    }

    /// Decode a single instruction. The encoding has to stand for one.
    fn decode(enc: Self::Encoding) -> (inst: Self::Inst)
        requires
            Self::decoding(enc) is Some,
        ensures
            Self::decoding(enc) == Some(inst),
    ;
}

/// The architectural state of a machine.
pub trait ArchitecturalState {
    /// The type that names the architectural registers.
    type RegType;

    /// The type that names the physical memory devices.
    type MemType;
}

/// An assembler for an instruction set.
pub trait Assembler: InstructionSet {
    /// Encode an instruction.
    fn encode(inst: Self::Inst) -> Self::Encoding;
}

} // verus!
