//! A container for a basic block of intermediate code.

use vstd::prelude::*;
use crate::guest::{GuestMachine, GuestRegister};
use crate::ir::instruction::{IRCond, IRInst, IROp};
use crate::ir::prim::{IRVirtualReg, IRWidth};
use crate::ir::storage::{IRBlockStorage, IRLoc};

verus! {

/// What a block holds: its instructions in order, and the number of the
/// next virtual register.
pub struct BlockView<R: GuestRegister> {
    pub insts: Seq<IRInst<R>>,
    pub next_reg: u32,
}

impl<R: GuestRegister> BlockView<R> {
    /// The block with one more instruction.
    pub open spec fn push(self, inst: IRInst<R>) -> Self {
        BlockView { insts: self.insts.push(inst), next_reg: self.next_reg }
    }

    /// The location of the next result of width `w`.
    pub open spec fn next_loc(self, w: IRWidth) -> IRLoc {
        IRLoc::VirtualReg(IRVirtualReg(self.next_reg), w)
    }

    /// The block with one more instruction that has no result.
    pub open spec fn perform(self, op: IROp<R>) -> Self {
        self.push(IRInst { dst: IRLoc::Nowhere, op })
    }

    /// The block with one more instruction whose result, of width `w`,
    /// goes to a new virtual register.
    pub open spec fn compute(self, w: IRWidth, op: IROp<R>) -> Self {
        BlockView {
            insts: self.insts.push(IRInst { dst: self.next_loc(w), op }),
            next_reg: (self.next_reg + 1) as u32,
        }
    }
}

/// A block of straight-line intermediate code.
pub struct IRBlock<G: GuestMachine> {
    /// The instructions of this block.
    inst: Vec<IRInst<G::Register>>,
    /// The virtual registers that this block has handed out.
    storage: IRBlockStorage,
}

impl<G: GuestMachine> View for IRBlock<G> {
    type V = BlockView<G::Register>;

    closed spec fn view(&self) -> BlockView<G::Register> {
        BlockView { insts: self.inst@, next_reg: self.storage@ }
    }
}

impl<G: GuestMachine> IRBlock<G> {
    /// An empty block.
    pub fn new() -> (block: Self)
        ensures
            block@.insts == Seq::<IRInst<G::Register>>::empty(),
            block@.next_reg == 0,
    {
        Self { inst: Vec::new(), storage: IRBlockStorage::new() }
    }

    /// The instructions of the block, in order.
    pub fn insts(&self) -> (insts: &Vec<IRInst<G::Register>>)
        ensures
            insts@ == self@.insts,
    {
        &self.inst
    }

    /// Whether the block can still hand out a virtual register.
    pub fn has_free_reg(&self) -> (yes: bool)
        ensures
            yes == (self@.next_reg < u32::MAX),
    {
        self.storage.next_reg().0 < u32::MAX
    }

    /// Append an instruction to the block.
    pub fn push(&mut self, inst: IRInst<G::Register>)
        ensures
            final(self)@ == old(self)@.push(inst),
    {
        self.inst.push(inst)
    }

    /// Bind a constant to use in this block.
    pub fn def_const(&mut self, c: u32, w: IRWidth) -> (loc: IRLoc)
        ensures
            loc == IRLoc::Const(c, w),
            final(self)@ == old(self)@,
    {
        self.storage.def_const(c, w)
    }

    /// Mark the beginning of a lifted guest instruction.
    pub fn guest_inst(&mut self)
        ensures
            final(self)@ == old(self)@.perform(IROp::GuestInst),
    {
        self.push(IRInst::new(IRLoc::Nowhere, IROp::GuestInst));
    }

    /// Load a value of width `w` from guest memory at `x`.
    pub fn ld(&mut self, x: IRLoc, w: IRWidth) -> (res: IRLoc)
        requires
            old(self)@.next_reg < u32::MAX,
        ensures
            res == old(self)@.next_loc(w),
            final(self)@ == old(self)@.compute(w, IROp::Ld(x, w)),
    {
        let res = self.storage.def_reg(w);
        self.push(IRInst::new(res, IROp::Ld(x, w)));
        res
    }

    /// Store `y`, of width `w`, to guest memory at `x`.
    pub fn st(&mut self, x: IRLoc, y: IRLoc, w: IRWidth)
        ensures
            final(self)@ == old(self)@.perform(IROp::St(x, y, w)),
    {
        self.push(IRInst::new(IRLoc::Nowhere, IROp::St(x, y, w)));
    }

    /// Load the guest register `r`. The result has the width that the
    /// register reports.
    pub fn ldreg(&mut self, r: G::Register) -> (res: IRLoc)
        requires
            old(self)@.next_reg < u32::MAX,
        ensures
            res matches IRLoc::VirtualReg(_, w) && res == old(self)@.next_loc(w) && final(self)@
                == old(self)@.compute(w, IROp::LdReg(r)),
    {
        let w = r.width();
        self.ldreg_as(r, w)
    }

    /// Load the guest register `r` as a value of width `w`.
    pub fn ldreg_as(&mut self, r: G::Register, w: IRWidth) -> (res: IRLoc)
        requires
            old(self)@.next_reg < u32::MAX,
        ensures
            res == old(self)@.next_loc(w),
            final(self)@ == old(self)@.compute(w, IROp::LdReg(r)),
    {
        let res = self.storage.def_reg(w);
        self.push(IRInst::new(res, IROp::LdReg(r)));
        res
    }

    /// Store `x` to the guest register `r`.
    pub fn streg(&mut self, r: G::Register, x: IRLoc)
        ensures
            final(self)@ == old(self)@.perform(IROp::StReg(r, x)),
    {
        self.push(IRInst::new(IRLoc::Nowhere, IROp::StReg(r, x)));
    }

    /// Compare `x` and `y` under `c`. The result is one bit wide.
    pub fn cmp(&mut self, x: IRLoc, c: IRCond, y: IRLoc) -> (res: IRLoc)
        requires
            old(self)@.next_reg < u32::MAX,
        ensures
            res == old(self)@.next_loc(IRWidth::U1),
            final(self)@ == old(self)@.compute(IRWidth::U1, IROp::Cmp(x, c, y)),
    {
        let res = self.storage.def_reg(IRWidth::U1);
        self.push(IRInst::new(res, IROp::Cmp(x, c, y)));
        res
    }

    pub fn add(&mut self, x: IRLoc, y: IRLoc, w: IRWidth) -> (res: IRLoc)
        requires
            old(self)@.next_reg < u32::MAX,
        ensures
            res == old(self)@.next_loc(w),
            final(self)@ == old(self)@.compute(w, IROp::Add(x, y)),
    {
        let res = self.storage.def_reg(w);
        self.push(IRInst::new(res, IROp::Add(x, y)));
        res
    }

    pub fn sub(&mut self, x: IRLoc, y: IRLoc, w: IRWidth) -> (res: IRLoc)
        requires
            old(self)@.next_reg < u32::MAX,
        ensures
            res == old(self)@.next_loc(w),
            final(self)@ == old(self)@.compute(w, IROp::Sub(x, y)),
    {
        let res = self.storage.def_reg(w);
        self.push(IRInst::new(res, IROp::Sub(x, y)));
        res
    }

    pub fn shl(&mut self, x: IRLoc, y: IRLoc, w: IRWidth) -> (res: IRLoc)
        requires
            old(self)@.next_reg < u32::MAX,
        ensures
            res == old(self)@.next_loc(w),
            final(self)@ == old(self)@.compute(w, IROp::Shl(x, y)),
    {
        let res = self.storage.def_reg(w);
        self.push(IRInst::new(res, IROp::Shl(x, y)));
        res
    }

    pub fn shr(&mut self, x: IRLoc, y: IRLoc, w: IRWidth) -> (res: IRLoc)
        requires
            old(self)@.next_reg < u32::MAX,
        ensures
            res == old(self)@.next_loc(w),
            final(self)@ == old(self)@.compute(w, IROp::Shr(x, y)),
    {
        let res = self.storage.def_reg(w);
        self.push(IRInst::new(res, IROp::Shr(x, y)));
        res
    }

    pub fn and(&mut self, x: IRLoc, y: IRLoc, w: IRWidth) -> (res: IRLoc)
        requires
            old(self)@.next_reg < u32::MAX,
        ensures
            res == old(self)@.next_loc(w),
            final(self)@ == old(self)@.compute(w, IROp::And(x, y)),
    {
        let res = self.storage.def_reg(w);
        self.push(IRInst::new(res, IROp::And(x, y)));
        res
    }

    pub fn or(&mut self, x: IRLoc, y: IRLoc, w: IRWidth) -> (res: IRLoc)
        requires
            old(self)@.next_reg < u32::MAX,
        ensures
            res == old(self)@.next_loc(w),
            final(self)@ == old(self)@.compute(w, IROp::Or(x, y)),
    {
        let res = self.storage.def_reg(w);
        self.push(IRInst::new(res, IROp::Or(x, y)));
        res
    }

    pub fn xor(&mut self, x: IRLoc, y: IRLoc, w: IRWidth) -> (res: IRLoc)
        requires
            old(self)@.next_reg < u32::MAX,
        ensures
            res == old(self)@.next_loc(w),
            final(self)@ == old(self)@.compute(w, IROp::Xor(x, y)),
    {
        let res = self.storage.def_reg(w);
        self.push(IRInst::new(res, IROp::Xor(x, y)));
        res
    }

    /// Negate `x`. The result is one bit wide.
    pub fn not(&mut self, x: IRLoc) -> (res: IRLoc)
        requires
            old(self)@.next_reg < u32::MAX,
        ensures
            res == old(self)@.next_loc(IRWidth::U1),
            final(self)@ == old(self)@.compute(IRWidth::U1, IROp::Not(x)),
    {
        let res = self.storage.def_reg(IRWidth::U1);
        self.push(IRInst::new(res, IROp::Not(x)));
        res
    }

    /// Test `x` for zero. The result is one bit wide.
    pub fn is_zero(&mut self, x: IRLoc) -> (res: IRLoc)
        requires
            old(self)@.next_reg < u32::MAX,
        ensures
            res == old(self)@.next_loc(IRWidth::U1),
            final(self)@ == old(self)@.compute(IRWidth::U1, IROp::IsZero(x)),
    {
        let res = self.storage.def_reg(IRWidth::U1);
        self.push(IRInst::new(res, IROp::IsZero(x)));
        res
    }

    /// Test `x` for anything but zero. The result is one bit wide.
    pub fn is_nonzero(&mut self, x: IRLoc) -> (res: IRLoc)
        requires
            old(self)@.next_reg < u32::MAX,
        ensures
            res == old(self)@.next_loc(IRWidth::U1),
            final(self)@ == old(self)@.compute(IRWidth::U1, IROp::IsNonZero(x)),
    {
        let res = self.storage.def_reg(IRWidth::U1);
        self.push(IRInst::new(res, IROp::IsNonZero(x)));
        res
    }
}

} // verus!
