//! Storage locations, and the allocation of virtual registers.

use vstd::prelude::*;
use crate::ir::prim::{IRVirtualReg, IRWidth};

verus! {

/// A storage location that an operation uses or an instruction defines.
///
/// A constant is a value that came with the guest instruction. A virtual
/// register holds the result of one instruction of a block: each
/// instruction with a result defines a register of its own.
#[derive(Clone, Copy)]
pub enum IRLoc {
    /// No location: the place of a result that does not exist.
    Nowhere,
    /// A constant value.
    Const(u32, IRWidth),
    /// A virtual register.
    VirtualReg(IRVirtualReg, IRWidth),
}

/// Book-keeping for the virtual registers of a block.
pub struct IRBlockStorage {
    /// The next register to hand out.
    next_reg: IRVirtualReg,
}

impl View for IRBlockStorage {
    type V = u32;

    /// The number of the next register to hand out.
    closed spec fn view(&self) -> u32 {
        self.next_reg.0
    }
}

impl IRBlockStorage {
    pub fn new() -> (storage: Self)
        ensures
            storage@ == 0,
    {
        Self { next_reg: IRVirtualReg(0) }
    }

    /// The next register that `def_reg` hands out.
    pub fn next_reg(&self) -> (reg: IRVirtualReg)
        ensures
            reg.0 == self@,
    {
        self.next_reg
    }

    /// Define a new virtual register of width `w`.
    pub fn def_reg(&mut self, w: IRWidth) -> (loc: IRLoc)
        requires
            old(self)@ < u32::MAX,
        ensures
            loc == IRLoc::VirtualReg(IRVirtualReg(old(self)@), w),
            final(self)@ == old(self)@ + 1,
    {
        let loc = IRLoc::VirtualReg(self.next_reg, w);
        self.next_reg.inc();
        loc
    }

    /// Bind a constant.
    pub fn def_const(&mut self, c: u32, w: IRWidth) -> (loc: IRLoc)
        ensures
            loc == IRLoc::Const(c, w),
            final(self)@ == old(self)@,
    {
        IRLoc::Const(c, w)
    }
}

} // verus!
