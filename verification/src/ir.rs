//! An intermediate representation for a virtual machine.

pub mod block;
pub mod instruction;
pub mod prim;
pub mod storage;
