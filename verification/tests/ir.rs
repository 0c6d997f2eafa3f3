use machine::guest::{GuestMachine, GuestRegister};
use machine::ir::block::IRBlock;
use machine::ir::instruction::{IRCond, IRInst, IROp};
use machine::ir::prim::{IRRegisters, IRValue, IRVirtualReg, IRWidth, Num};
use machine::ir::storage::{IRBlockStorage, IRLoc};

#[derive(Copy, Clone)]
pub enum MyReg {
    A,
    B,
    C,
    D,
}

impl GuestRegister for MyReg {
    fn width(&self) -> IRWidth {
        match self {
            MyReg::D => IRWidth::U16,
            _ => IRWidth::U32,
        }
    }
}

pub struct MyState {}

impl GuestMachine for MyState {
    type Register = MyReg;
}

/// The number of the virtual register behind a location.
fn reg_of(loc: IRLoc) -> Option<(u32, u8)> {
    match loc {
        IRLoc::VirtualReg(reg, w) => Some((reg.0, bits_of(w))),
        _ => None,
    }
}

fn bits_of(w: IRWidth) -> u8 {
    match w {
        IRWidth::U1 => 1,
        IRWidth::U8 => 8,
        IRWidth::U16 => 16,
        IRWidth::U32 => 32,
    }
}

#[test]
fn it_works() {
    let mut block = IRBlock::<MyState>::new();

    block.guest_inst();
    let x = block.def_const(0x1, IRWidth::U8);
    let y = block.ldreg(MyReg::A);
    let z = block.add(x, y, IRWidth::U8);
    assert_eq!(reg_of(y), Some((0, 32)));
    assert_eq!(reg_of(z), Some((1, 8)));

    block.guest_inst();
    let x = block.def_const(0xff, IRWidth::U8);
    let y = block.ldreg(MyReg::A);
    let z = block.add(x, y, IRWidth::U8);
    assert_eq!(reg_of(y), Some((2, 32)));
    assert_eq!(reg_of(z), Some((3, 8)));

    let vmstate = IRRegisters::new_allocate(10);
    for idx in 0..10 {
        assert_eq!(vmstate.read(IRVirtualReg(idx)).as_u32(), 0);
    }
}

#[test]
fn constants_take_no_register() {
    let mut block = IRBlock::<MyState>::new();
    let c = block.def_const(0xdead_beef, IRWidth::U32);
    assert!(matches!(c, IRLoc::Const(0xdead_beef, IRWidth::U32)));
    let r = block.not(c);
    assert_eq!(reg_of(r), Some((0, 1)));
}

#[test]
fn every_result_gets_the_next_register() {
    let mut block = IRBlock::<MyState>::new();
    let a = block.def_const(1, IRWidth::U16);
    let b = block.def_const(2, IRWidth::U16);
    assert!(block.has_free_reg());
    let results = [
        block.ld(a, IRWidth::U8),
        block.ldreg(MyReg::D),
        block.ldreg_as(MyReg::B, IRWidth::U8),
        block.cmp(a, IRCond::LtUnsigned, b),
        block.add(a, b, IRWidth::U16),
        block.sub(a, b, IRWidth::U16),
        block.shl(a, b, IRWidth::U32),
        block.shr(a, b, IRWidth::U32),
        block.and(a, b, IRWidth::U8),
        block.or(a, b, IRWidth::U8),
        block.xor(a, b, IRWidth::U8),
        block.not(a),
        block.is_zero(a),
        block.is_nonzero(b),
    ];
    let widths = [8, 16, 8, 1, 16, 16, 32, 32, 8, 8, 8, 1, 1, 1];
    for (idx, res) in results.iter().enumerate() {
        assert_eq!(reg_of(*res), Some((idx as u32, widths[idx])));
    }
    // Stores and markers have no result: the next result follows on.
    block.st(a, b, IRWidth::U32);
    block.streg(MyReg::C, b);
    block.guest_inst();
    assert_eq!(reg_of(block.is_zero(a)), Some((14, 1)));
}

#[test]
fn storage_hands_out_registers_in_order() {
    let mut storage = IRBlockStorage::new();
    assert_eq!(storage.next_reg().0, 0);
    assert_eq!(reg_of(storage.def_reg(IRWidth::U8)), Some((0, 8)));
    assert!(matches!(storage.def_const(7, IRWidth::U1), IRLoc::Const(7, IRWidth::U1)));
    assert_eq!(reg_of(storage.def_reg(IRWidth::U32)), Some((1, 32)));
    assert_eq!(storage.next_reg().0, 2);
}

#[test]
fn virtual_register_counts_up() {
    let mut reg = IRVirtualReg(41);
    reg.inc();
    assert_eq!(reg.0, 42);
    let mut reg = IRVirtualReg(u32::MAX - 1);
    reg.inc();
    assert_eq!(reg.0, u32::MAX);
}

#[test]
fn registers_read_and_write() {
    let mut regs = IRRegisters::new_allocate(4);
    regs.write(IRVirtualReg(2), IRValue::new(0x1234u16));
    regs.write(IRVirtualReg(3), IRValue(0xffff_ffff));
    assert_eq!(regs.read(IRVirtualReg(0)).0, 0);
    assert_eq!(regs.read(IRVirtualReg(1)).0, 0);
    assert_eq!(regs.read(IRVirtualReg(2)).0, 0x1234);
    assert_eq!(regs.read(IRVirtualReg(3)).0, 0xffff_ffff);
    regs.write(IRVirtualReg(2), IRValue(5));
    assert_eq!(regs.read(IRVirtualReg(2)).0, 5);
    let _none = IRRegisters::new_allocate(0);
}

#[test]
fn values_are_cut_to_the_width_asked_for() {
    let v = IRValue(0x1234_5678);
    assert_eq!(v.as_u8(), 0x78);
    assert_eq!(v.as_u16(), 0x5678);
    assert_eq!(v.as_u32(), 0x1234_5678);
    assert_eq!(v.get_as::<u8>(), 0x78);
    assert_eq!(v.get_as::<u16>(), 0x5678);
    assert_eq!(v.get_as::<u32>(), 0x1234_5678);
    assert!(v.as_bool());
    assert!(!IRValue(0).as_bool());
    assert!(IRValue(0x100).as_bool());
    assert_eq!(IRValue(0x100).as_u8(), 0);

    assert_eq!(IRValue::new(0xffu8).0, 0xff);
    assert_eq!(IRValue::new(0xffffu16).0, 0xffff);
    assert_eq!(IRValue::new(0xffff_ffffu32).0, 0xffff_ffff);
}

#[test]
fn numbers_convert_to_and_from_the_backing_type() {
    assert_eq!(0x12u8.to_backing(), 0x12);
    assert_eq!(0x1234u16.to_backing(), 0x1234);
    assert_eq!(0x1234_5678u32.to_backing(), 0x1234_5678);
    assert_eq!(<u8 as Num>::from_backing(0x1ff), 0xff);
    assert_eq!(<u16 as Num>::from_backing(0x1_ffff), 0xffff);
    assert_eq!(<u32 as Num>::from_backing(0xffff_ffff), 0xffff_ffff);
    assert_eq!(7u8.to_irvalue().0, 7);
    assert_eq!(bits_of(7u8.to_irwidth()), 8);
    assert_eq!(bits_of(7u16.to_irwidth()), 16);
    assert_eq!(bits_of(7u32.to_irwidth()), 32);
    assert_eq!(bits_of(<u16 as Num>::WIDTH), 16);
    assert_eq!(<u32 as Num>::MIN, 0);
}

#[test]
fn numbers_are_read_from_bytes() {
    assert_eq!(<u8 as Num>::from_le_bytes(&[0x12]), 0x12);
    assert_eq!(<u8 as Num>::from_be_bytes(&[0x12]), 0x12);
    assert_eq!(<u16 as Num>::from_le_bytes(&[0x34, 0x12]), 0x1234);
    assert_eq!(<u16 as Num>::from_be_bytes(&[0x34, 0x12]), 0x3412);
    assert_eq!(<u32 as Num>::from_le_bytes(&[0x78, 0x56, 0x34, 0x12]), 0x1234_5678);
    assert_eq!(<u32 as Num>::from_be_bytes(&[0x78, 0x56, 0x34, 0x12]), 0x7856_3412);
    assert_eq!(<u32 as Num>::from_le_bytes(&[0xff; 4]), u32::MAX);
    assert_eq!(<u32 as Num>::from_be_bytes(&[0xff; 4]), u32::MAX);
    assert_eq!(<u32 as Num>::from_le_bytes(&[1, 2, 3, 4]), u32::from_le_bytes([1, 2, 3, 4]));
    assert_eq!(<u32 as Num>::from_be_bytes(&[1, 2, 3, 4]), u32::from_be_bytes([1, 2, 3, 4]));
}

#[test]
fn block_keeps_its_instructions_in_order() {
    let mut block = IRBlock::<MyState>::new();
    assert!(block.insts().is_empty());

    block.guest_inst();
    let x = block.def_const(0x1, IRWidth::U8);
    assert_eq!(block.insts().len(), 1);
    let y = block.ldreg(MyReg::D);
    let z = block.add(x, y, IRWidth::U8);
    block.streg(MyReg::A, z);
    block.push(IRInst::new(IRLoc::Nowhere, IROp::Nop));

    let insts = block.insts();
    assert_eq!(insts.len(), 5);
    assert!(matches!(insts[0].dst, IRLoc::Nowhere));
    assert!(matches!(insts[0].op, IROp::GuestInst));
    assert_eq!(reg_of(insts[1].dst), Some((0, 16)));
    assert!(matches!(insts[1].op, IROp::LdReg(MyReg::D)));
    assert_eq!(reg_of(insts[2].dst), Some((1, 8)));
    assert!(matches!(
        insts[2].op,
        IROp::Add(IRLoc::Const(1, IRWidth::U8), IRLoc::VirtualReg(IRVirtualReg(0), IRWidth::U16))
    ));
    assert!(matches!(insts[3].dst, IRLoc::Nowhere));
    assert!(matches!(
        insts[3].op,
        IROp::StReg(MyReg::A, IRLoc::VirtualReg(IRVirtualReg(1), IRWidth::U8))
    ));
    assert!(matches!(insts[4].op, IROp::Nop));
}

#[test]
fn operations_are_recorded_with_their_operands() {
    let mut block = IRBlock::<MyState>::new();
    let a = block.def_const(10, IRWidth::U32);
    let b = block.def_const(20, IRWidth::U32);
    block.ld(a, IRWidth::U16);
    block.st(a, b, IRWidth::U8);
    block.cmp(a, IRCond::GtEqUnsigned, b);
    block.sub(a, b, IRWidth::U32);
    block.shl(a, b, IRWidth::U32);
    block.shr(a, b, IRWidth::U32);
    block.and(a, b, IRWidth::U32);
    block.or(a, b, IRWidth::U32);
    block.xor(a, b, IRWidth::U32);
    block.not(a);
    block.is_zero(a);
    block.is_nonzero(b);
    let insts = block.insts();
    let ten = IRLoc::Const(10, IRWidth::U32);
    let twenty = IRLoc::Const(20, IRWidth::U32);
    assert!(matches!(ten, IRLoc::Const(10, IRWidth::U32)));
    assert!(matches!(twenty, IRLoc::Const(20, IRWidth::U32)));
    assert!(matches!(insts[0].op, IROp::Ld(IRLoc::Const(10, _), IRWidth::U16)));
    assert!(matches!(insts[1].op, IROp::St(IRLoc::Const(10, _), IRLoc::Const(20, _), IRWidth::U8)));
    assert!(matches!(
        insts[2].op,
        IROp::Cmp(IRLoc::Const(10, _), IRCond::GtEqUnsigned, IRLoc::Const(20, _))
    ));
    assert!(matches!(insts[3].op, IROp::Sub(IRLoc::Const(10, _), IRLoc::Const(20, _))));
    assert!(matches!(insts[4].op, IROp::Shl(IRLoc::Const(10, _), IRLoc::Const(20, _))));
    assert!(matches!(insts[5].op, IROp::Shr(IRLoc::Const(10, _), IRLoc::Const(20, _))));
    assert!(matches!(insts[6].op, IROp::And(IRLoc::Const(10, _), IRLoc::Const(20, _))));
    assert!(matches!(insts[7].op, IROp::Or(IRLoc::Const(10, _), IRLoc::Const(20, _))));
    assert!(matches!(insts[8].op, IROp::Xor(IRLoc::Const(10, _), IRLoc::Const(20, _))));
    assert!(matches!(insts[9].op, IROp::Not(IRLoc::Const(10, _))));
    assert!(matches!(insts[10].op, IROp::IsZero(IRLoc::Const(10, _))));
    assert!(matches!(insts[11].op, IROp::IsNonZero(IRLoc::Const(20, _))));
    // Only the store defines no register.
    let defined = insts.iter().filter(|inst| reg_of(inst.dst).is_some()).count();
    assert_eq!(defined, 11);
}
