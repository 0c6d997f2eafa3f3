//! Primitive types for the data of the intermediate representation.

use vstd::prelude::*;

verus! {

/// The type that holds any value of the virtual machine.
pub type IRBacking = u32;

/// The width of a value.
#[derive(Clone, Copy)]
pub enum IRWidth {
    U1,
    U8,
    U16,
    U32,
}

/// The number that a run of bytes stands for, lowest byte first.
pub open spec fn le_value(bytes: Seq<u8>) -> nat
    decreases bytes.len(),
{
    if bytes.len() == 0 {
        0
    } else {
        bytes[0] as nat + 256 * le_value(bytes.skip(1))
    }
}

/// The number that a run of bytes stands for, highest byte first.
pub open spec fn be_value(bytes: Seq<u8>) -> nat
    decreases bytes.len(),
{
    if bytes.len() == 0 {
        0
    } else {
        256 * be_value(bytes.drop_last()) + bytes.last() as nat
    }
}

/// A numeric type that the intermediate representation can hold.
pub trait Num: Sized + Copy + Clone {
    /// The least value of this type.
    const MIN: Self;

    /// The width of this type.
    const WIDTH: IRWidth;

    /// How many bytes a value of this type takes.
    spec fn spec_bytes() -> nat;

    /// This value, widened to the backing type.
    spec fn backing(self) -> IRBacking;

    /// The value of this type that a backing value stands for: its low bytes.
    spec fn of_backing(val: IRBacking) -> Self;

    /// Convert this value to an [`IRBacking`].
    fn to_backing(self) -> (val: IRBacking)
        ensures
            val == self.backing(),
    ;

    /// Convert an [`IRBacking`] to this type, dropping the bits that do not fit.
    fn from_backing(val: IRBacking) -> (x: Self)
        ensures
            x == Self::of_backing(val),
    ;

    /// Wrap this value into an [`IRValue`].
    fn to_irvalue(self) -> (v: IRValue)
        ensures
            v.0 == self.backing(),
    ;

    /// The [`IRWidth`] of this type.
    fn to_irwidth(self) -> (w: IRWidth)
        ensures
            w == Self::WIDTH,
    {
        Self::WIDTH
    }

    /// Read a value from its bytes, lowest first.
    fn from_le_bytes(bytes: &[u8]) -> (x: Self)
        requires
            bytes@.len() == Self::spec_bytes(),
        ensures
            x.backing() == le_value(bytes@),
    ;

    /// Read a value from its bytes, highest first.
    fn from_be_bytes(bytes: &[u8]) -> (x: Self)
        requires
            bytes@.len() == Self::spec_bytes(),
        ensures
            x.backing() == be_value(bytes@),
    ;
}

impl Num for u8 {
    const MIN: Self = 0;

    const WIDTH: IRWidth = IRWidth::U8;

    open spec fn spec_bytes() -> nat {
        1
    }

    open spec fn backing(self) -> IRBacking {
        self as IRBacking
    }

    open spec fn of_backing(val: IRBacking) -> Self {
        (val % 0x100) as u8
    }

    fn to_backing(self) -> (val: IRBacking) {
        self as IRBacking
    }

    fn from_backing(val: IRBacking) -> (x: Self) {
        assert(val as u8 == val % 0x100) by (bit_vector);
        #[verifier::truncate]
        (val as u8)
    }

    fn to_irvalue(self) -> (v: IRValue) {
        IRValue(self.to_backing())
    }

    fn from_le_bytes(bytes: &[u8]) -> (x: Self) {
        proof {
            reveal_with_fuel(le_value, 2);
        }
        bytes[0]
    }

    fn from_be_bytes(bytes: &[u8]) -> (x: Self) {
        proof {
            reveal_with_fuel(be_value, 2);
        }
        bytes[0]
    }
}

impl Num for u16 {
    const MIN: Self = 0;

    const WIDTH: IRWidth = IRWidth::U16;

    open spec fn spec_bytes() -> nat {
        2
    }

    open spec fn backing(self) -> IRBacking {
        self as IRBacking
    }

    open spec fn of_backing(val: IRBacking) -> Self {
        (val % 0x1_0000) as u16
    }

    fn to_backing(self) -> (val: IRBacking) {
        self as IRBacking
    }

    fn from_backing(val: IRBacking) -> (x: Self) {
        assert(val as u16 == val % 0x1_0000) by (bit_vector);
        #[verifier::truncate]
        (val as u16)
    }

    fn to_irvalue(self) -> (v: IRValue) {
        IRValue(self.to_backing())
    }

    fn from_le_bytes(bytes: &[u8]) -> (x: Self) {
        proof {
            reveal_with_fuel(le_value, 3);
            assert(bytes@.skip(1)[0] == bytes@[1]);
        }
        bytes[0] as u16 + bytes[1] as u16 * 0x100
    }

    fn from_be_bytes(bytes: &[u8]) -> (x: Self) {
        proof {
            reveal_with_fuel(be_value, 3);
            assert(bytes@.drop_last().last() == bytes@[0]);
        }
        bytes[0] as u16 * 0x100 + bytes[1] as u16
    }
}

impl Num for u32 {
    const MIN: Self = 0;

    const WIDTH: IRWidth = IRWidth::U32;

    open spec fn spec_bytes() -> nat {
        4
    }

    open spec fn backing(self) -> IRBacking {
        self
    }

    open spec fn of_backing(val: IRBacking) -> Self {
        val
    }

    fn to_backing(self) -> (val: IRBacking) {
        self
    }

    fn from_backing(val: IRBacking) -> (x: Self) {
        val
    }

    fn to_irvalue(self) -> (v: IRValue) {
        IRValue(self.to_backing())
    }

    fn from_le_bytes(bytes: &[u8]) -> (x: Self) {
        proof {
            reveal_with_fuel(le_value, 5);
            let s1 = bytes@.skip(1);
            let s2 = s1.skip(1);
            let s3 = s2.skip(1);
            assert(s1[0] == bytes@[1] && s2[0] == bytes@[2] && s3[0] == bytes@[3]);
        }
        bytes[0] as u32 + bytes[1] as u32 * 0x100 + bytes[2] as u32 * 0x1_0000 + bytes[3] as u32
            * 0x100_0000
    }

    fn from_be_bytes(bytes: &[u8]) -> (x: Self) {
        proof {
            reveal_with_fuel(be_value, 5);
            let s1 = bytes@.drop_last();
            let s2 = s1.drop_last();
            let s3 = s2.drop_last();
            assert(s1.last() == bytes@[2] && s2.last() == bytes@[1] && s3.last() == bytes@[0]);
        }
        bytes[0] as u32 * 0x100_0000 + bytes[1] as u32 * 0x1_0000 + bytes[2] as u32 * 0x100
            + bytes[3] as u32
    }
}

/// A concrete value in the intermediate representation.
#[derive(Debug, Copy, Clone)]
pub struct IRValue(pub IRBacking);

impl IRValue {
    /// Wrap a number.
    pub fn new<T: Num>(x: T) -> (v: Self)
        ensures
            v.0 == x.backing(),
    {
        Self(T::to_backing(x))
    }

    /// Read this value as a number of type `T`, dropping the bits that do not fit.
    pub fn get_as<T: Num>(self) -> (x: T)
        ensures
            x == T::of_backing(self.0),
    {
        T::from_backing(self.0)
    }

    /// Whether this value is anything but zero.
    pub fn as_bool(self) -> (b: bool)
        ensures
            b == (self.0 != 0),
    {
        self.0 != 0
    }

    /// The low eight bits of this value.
    pub fn as_u8(self) -> (x: u8)
        ensures
            x == self.0 % 0x100,
    {
        self.get_as::<u8>()
    }

    /// The low sixteen bits of this value.
    pub fn as_u16(self) -> (x: u16)
        ensures
            x == self.0 % 0x1_0000,
    {
        self.get_as::<u16>()
    }

    /// All bits of this value.
    pub fn as_u32(self) -> (x: u32)
        ensures
            x == self.0,
    {
        self.get_as::<u32>()
    }
}

/// The number of a virtual register.
#[derive(Clone, Copy)]
pub struct IRVirtualReg(pub u32);

impl IRVirtualReg {
    /// Move on to the next register.
    pub fn inc(&mut self)
        requires
            old(self).0 < u32::MAX,
        ensures
            final(self).0 == old(self).0 + 1,
    {
        self.0 += 1
    }
}

/// The values of a set of virtual registers.
pub struct IRRegisters {
    reg: Vec<IRValue>,
}

impl View for IRRegisters {
    type V = Seq<IRValue>;

    closed spec fn view(&self) -> Seq<IRValue> {
        self.reg@
    }
}

impl IRRegisters {
    /// A set of `size` registers, each zero.
    pub fn new_allocate(size: usize) -> (regs: Self)
        ensures
            regs@ == Seq::new(size as nat, |i: int| IRValue(0)),
    {
        let mut reg: Vec<IRValue> = Vec::with_capacity(size);
        let mut i: usize = 0;
        while i < size
            invariant
                i <= size,
                reg@ == Seq::new(i as nat, |j: int| IRValue(0)),
            decreases size - i,
        {
            reg.push(IRValue(0));
            i += 1;
        }
        Self { reg }
    }

    /// The value of register `idx`.
    pub fn read(&self, idx: IRVirtualReg) -> (val: IRValue)
        requires
            idx.0 < self@.len(),
        ensures
            val == self@[idx.0 as int],
    {
        self.reg[idx.0 as usize]
    }

    /// Set register `idx` to `val`.
    pub fn write(&mut self, idx: IRVirtualReg, val: IRValue)
        requires
            idx.0 < old(self)@.len(),
        ensures
            final(self)@ == old(self)@.update(idx.0 as int, val),
    {
        self.reg[idx.0 as usize] = val
    }
}

} // verus!
