//! What the intermediate representation asks of a guest machine.

use vstd::prelude::*;
use crate::ir::prim::IRWidth;

verus! {

/// A storage location of the guest machine, most often a register.
pub trait GuestRegister: Copy + Clone {
    /// Returns the width of this register.
    fn width(&self) -> IRWidth;
}

/// A guest machine.
pub trait GuestMachine {
    /// The registers of this machine.
    type Register: GuestRegister;
}

} // verus!
