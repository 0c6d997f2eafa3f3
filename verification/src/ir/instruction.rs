//! Instructions and operations of the intermediate representation.

use vstd::prelude::*;
use crate::guest::GuestRegister;
use crate::ir::prim::IRWidth;
use crate::ir::storage::IRLoc;

verus! {

/// A relation between two values.
#[derive(Clone, Copy)]
pub enum IRCond {
    Equal,
    NotEqual,
    GtUnsigned,
    GtEqUnsigned,
    LtUnsigned,
    LtEqUnsigned,
}

/// A primitive operation.
pub enum IROp<R: GuestRegister> {
    Nop,
    GuestInst,
    /// Load from guest memory.
    Ld(IRLoc, IRWidth),
    /// Store to guest memory.
    St(IRLoc, IRLoc, IRWidth),
    /// Store to a guest register.
    StReg(R, IRLoc),
    /// Load from a guest register.
    LdReg(R),
    Add(IRLoc, IRLoc),
    Sub(IRLoc, IRLoc),
    Shl(IRLoc, IRLoc),
    Shr(IRLoc, IRLoc),
    And(IRLoc, IRLoc),
    Or(IRLoc, IRLoc),
    Xor(IRLoc, IRLoc),
    Not(IRLoc),
    IsZero(IRLoc),
    IsNonZero(IRLoc),
    Cmp(IRLoc, IRCond, IRLoc),
}

impl<R: GuestRegister> Clone for IROp<R> {
    fn clone(&self) -> (op: Self)
        ensures
            op == *self,
    {
        *self
    }
}

impl<R: GuestRegister> Copy for IROp<R> {

}

/// An instruction: an operation and the place of its result.
pub struct IRInst<R: GuestRegister> {
    /// Where the result goes: a virtual register of its own, or nowhere.
    pub dst: IRLoc,
    /// The operation.
    pub op: IROp<R>,
}

impl<R: GuestRegister> IRInst<R> {
    pub fn new(dst: IRLoc, op: IROp<R>) -> (inst: Self)
        ensures
            inst.dst == dst,
            inst.op == op,
    {
        Self { dst, op }
    }
}

} // verus!
