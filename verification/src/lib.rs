//! Behavioural models of machine components.
//!
//! - `memory`: a set-associative cache and the flat memory behind it. The
//!   cache is stated over a mathematical model (`memory::model`), and
//!   `memory::laws` proves what holds of it in every state.
//! - `isa`: instruction sets, with a decoder for RV32I.
//! - `ir` and `guest`: an intermediate representation for lifted guest code.

pub mod guest;
pub mod ir;
pub mod isa;
pub mod memory;
