use machine::isa::rv32i::{
    Instr, Opcode, Reg, Rv32, RvALUOp, RvALUOpImm, RvBranchOp, RvWidth,
};
use machine::isa::text::{decimal_string, digit_str, hex_string, pad_string, signed_decimal_string};
use machine::isa::InstructionSet;

fn decoded(enc: u32) -> String {
    Rv32::decode(enc).to_string()
}

#[test]
fn opcodes_from_bits() {
    assert_eq!(Opcode::checked_from(0b00000), Some(Opcode::LOAD));
    assert_eq!(Opcode::checked_from(0b00100), Some(Opcode::OP_IMM));
    assert_eq!(Opcode::checked_from(0b00101), Some(Opcode::AUIPC));
    assert_eq!(Opcode::checked_from(0b01000), Some(Opcode::STORE));
    assert_eq!(Opcode::checked_from(0b01100), Some(Opcode::OP));
    assert_eq!(Opcode::checked_from(0b01101), Some(Opcode::LUI));
    assert_eq!(Opcode::checked_from(0b11000), Some(Opcode::BRANCH));
    assert_eq!(Opcode::checked_from(0b11001), Some(Opcode::JALR));
    assert_eq!(Opcode::checked_from(0b11011), Some(Opcode::JAL));
    assert_eq!(Opcode::checked_from(0b11100), Some(Opcode::SYSTEM));
    assert_eq!(Opcode::checked_from(0b11110), Some(Opcode::CUSTOM_3));
    for bits in [0b00111, 0b01111, 0b10111, 0b11111, 32, 0x100, u32::MAX] {
        assert_eq!(Opcode::checked_from(bits), None);
    }
    let known = (0..32).filter(|bits| Opcode::checked_from(*bits).is_some()).count();
    assert_eq!(known, 28);
    for bits in 0..32 {
        if let Some(op) = Opcode::checked_from(bits) {
            assert_eq!(op.bits(), bits);
        }
    }
    assert_eq!(Opcode::BRANCH.bits(), 0b11000);
}

#[test]
fn alu_operations_from_funct() {
    assert_eq!(RvALUOp::checked_from((0b000, 0)), Some(RvALUOp::Add));
    assert_eq!(RvALUOp::checked_from((0b000, 0b0100000)), Some(RvALUOp::Sub));
    assert_eq!(RvALUOp::checked_from((0b001, 0)), Some(RvALUOp::Sll));
    assert_eq!(RvALUOp::checked_from((0b010, 0)), Some(RvALUOp::Slt));
    assert_eq!(RvALUOp::checked_from((0b011, 0)), Some(RvALUOp::Sltu));
    assert_eq!(RvALUOp::checked_from((0b100, 0)), Some(RvALUOp::Xor));
    assert_eq!(RvALUOp::checked_from((0b101, 0)), Some(RvALUOp::Srl));
    assert_eq!(RvALUOp::checked_from((0b101, 0b0100000)), Some(RvALUOp::Sra));
    assert_eq!(RvALUOp::checked_from((0b110, 0)), Some(RvALUOp::Or));
    assert_eq!(RvALUOp::checked_from((0b111, 0)), Some(RvALUOp::And));
    assert_eq!(RvALUOp::checked_from((0b001, 0b0100000)), None);
    assert_eq!(RvALUOp::checked_from((0b000, 1)), None);
    assert_eq!(RvALUOp::checked_from((8, 0)), None);

    assert_eq!(RvALUOpImm::checked_from((0b000, 0x7f)), Some(RvALUOpImm::Addi));
    assert_eq!(RvALUOpImm::checked_from((0b010, 3)), Some(RvALUOpImm::Slti));
    assert_eq!(RvALUOpImm::checked_from((0b011, 0)), Some(RvALUOpImm::Sltiu));
    assert_eq!(RvALUOpImm::checked_from((0b100, 0)), Some(RvALUOpImm::Xori));
    assert_eq!(RvALUOpImm::checked_from((0b110, 0)), Some(RvALUOpImm::Ori));
    assert_eq!(RvALUOpImm::checked_from((0b111, 0)), Some(RvALUOpImm::Andi));
    assert_eq!(RvALUOpImm::checked_from((0b001, 0)), Some(RvALUOpImm::Slli));
    assert_eq!(RvALUOpImm::checked_from((0b101, 0)), Some(RvALUOpImm::Srli));
    assert_eq!(RvALUOpImm::checked_from((0b101, 0b0100000)), Some(RvALUOpImm::Srai));
    assert_eq!(RvALUOpImm::checked_from((0b001, 0b0100000)), None);
    assert_eq!(RvALUOpImm::checked_from((0b101, 1)), None);
    assert_eq!(RvALUOpImm::checked_from((8, 0)), None);
}

#[test]
fn widths_and_conditions_from_funct() {
    assert_eq!(RvWidth::checked_from(0), Some(RvWidth::Byte));
    assert_eq!(RvWidth::checked_from(1), Some(RvWidth::Half));
    assert_eq!(RvWidth::checked_from(2), Some(RvWidth::Word));
    assert_eq!(RvWidth::checked_from(4), Some(RvWidth::ByteUnsigned));
    assert_eq!(RvWidth::checked_from(5), Some(RvWidth::HalfUnsigned));
    for bits in [3, 6, 7, 8] {
        assert_eq!(RvWidth::checked_from(bits), None);
    }
    assert_eq!(RvBranchOp::checked_from(0), Some(RvBranchOp::Eq));
    assert_eq!(RvBranchOp::checked_from(1), Some(RvBranchOp::Ne));
    assert_eq!(RvBranchOp::checked_from(4), Some(RvBranchOp::Lt));
    assert_eq!(RvBranchOp::checked_from(5), Some(RvBranchOp::Ge));
    assert_eq!(RvBranchOp::checked_from(6), Some(RvBranchOp::Ltu));
    assert_eq!(RvBranchOp::checked_from(7), Some(RvBranchOp::Geu));
    for bits in [2, 3, 8] {
        assert_eq!(RvBranchOp::checked_from(bits), None);
    }
}

#[test]
fn known_bits_convert_without_a_check() {
    assert_eq!(Opcode::from(0b01000), Opcode::STORE);
    assert_eq!(Opcode::from(0b11011), Opcode::JAL);
    for bits in (0..32).filter(|bits| bits % 8 != 7) {
        assert_eq!(Opcode::from(bits).bits(), bits);
        assert_eq!(Some(Opcode::from(bits)), Opcode::checked_from(bits));
    }
    assert_eq!(RvALUOp::from((0b000, 0b0100000)), RvALUOp::Sub);
    assert_eq!(RvALUOp::from((0b111, 0)), RvALUOp::And);
    assert_eq!(RvALUOpImm::from((0b000, 0x55)), RvALUOpImm::Addi);
    assert_eq!(RvALUOpImm::from((0b101, 0b0100000)), RvALUOpImm::Srai);
    assert_eq!(RvWidth::from(0b100), RvWidth::ByteUnsigned);
    assert_eq!(RvBranchOp::from(0b110), RvBranchOp::Ltu);
}

#[test]
fn decode_agrees_with_try_decode() {
    // add x3, x1, x2
    assert_eq!(
        Rv32::decode(0x0020_81b3),
        Instr::Op { rd: Reg(3), rs1: Reg(1), rs2: Reg(2), alu_op: RvALUOp::Add }
    );
    // lui x5, 0x12345
    assert_eq!(Rv32::decode(0x1234_52b7), Instr::Lui { rd: Reg(5), uimm: 0x1234_5000 });
    for enc in (0u32..=0xffff).map(|i| i.wrapping_mul(0x0001_0001).wrapping_add(i << 7)) {
        if let Some(inst) = Rv32::try_decode(enc) {
            assert_eq!(Rv32::decode(enc), inst);
        }
    }
}

#[test]
fn names() {
    assert_eq!(RvALUOp::Sltu.to_string(), "sltu");
    assert_eq!(RvALUOp::Or.to_string(), "or");
    assert_eq!(RvALUOpImm::Srai.to_string(), "srai");
    assert_eq!(RvWidth::ByteUnsigned.to_string(), "bu");
    assert_eq!(RvWidth::Word.to_string(), "w");
    assert_eq!(RvBranchOp::Geu.to_string(), "geu");
    assert_eq!(Reg::new(0).to_string(), "x0");
    assert_eq!(Reg::new(31).to_string(), "x31");
    assert_eq!(Reg::new(17).val(), 17);
}

#[test]
fn decode_register_operations() {
    // add x3, x1, x2
    assert_eq!(
        Rv32::try_decode(0x0020_81b3),
        Some(Instr::Op { rd: Reg(3), rs1: Reg(1), rs2: Reg(2), alu_op: RvALUOp::Add })
    );
    assert_eq!(decoded(0x0020_81b3), "add    x3, x1, x2");
    // sub x5, x6, x7
    assert_eq!(decoded(0x4073_02b3), "sub    x5, x6, x7");
    // sra x31, x30, x29
    assert_eq!(decoded(0x41df_5fb3), "sra    x31, x30, x29");
    // sltu x10, x11, x12
    assert_eq!(decoded(0x00c5_b533), "sltu   x10, x11, x12");
    // funct7 that no operation has
    assert_eq!(Rv32::try_decode(0x0220_81b3), None);
}

#[test]
fn decode_immediate_operations() {
    // addi x0, x0, 0
    assert_eq!(
        Rv32::try_decode(0x0000_0013),
        Some(Instr::OpImm { rd: Reg(0), rs1: Reg(0), simm: 0, alu_op: RvALUOpImm::Addi })
    );
    // addi x10, x0, 10
    assert_eq!(decoded(0x00a0_0513), "addi   x10, x0, 10");
    // addi x1, x1, -1
    assert_eq!(decoded(0xfff0_8093), "addi   x1, x1, -1");
    // addi x2, x2, -2048 and addi x2, x2, 2047
    assert_eq!(decoded(0x8001_0113), "addi   x2, x2, -2048");
    assert_eq!(decoded(0x7ff1_0113), "addi   x2, x2, 2047");
    // andi x5, x6, 255
    assert_eq!(decoded(0x0ff3_7293), "andi   x5, x6, 255");
    // slli x1, x2, 3
    assert_eq!(decoded(0x0031_1093), "slli   x1, x2, 3");
    // srai x1, x2, 3: the immediate keeps the bits that tell it from srli
    assert_eq!(decoded(0x4031_5093), "srai   x1, x2, 1027");
    // a shift with other high bits is no instruction
    assert_eq!(Rv32::try_decode(0x2031_5093), None);
}

#[test]
fn decode_loads_and_stores() {
    // lw x5, 8(x2)
    assert_eq!(
        Rv32::try_decode(0x0081_2283),
        Some(Instr::Load { rd: Reg(5), rs1: Reg(2), simm: 8, width: RvWidth::Word })
    );
    assert_eq!(decoded(0x0081_2283), "lw     x5, 8(x2)");
    // lbu x6, -4(x7)
    assert_eq!(decoded(0xffc3_c303), "lbu    x6, -4(x7)");
    // lhu x1, 0(x1)
    assert_eq!(decoded(0x0000_d083), "lhu    x1, 0(x1)");
    // sw x5, 12(x2)
    assert_eq!(
        Rv32::try_decode(0x0051_2623),
        Some(Instr::Store { rs1: Reg(2), rs2: Reg(5), simm: 12, width: RvWidth::Word })
    );
    assert_eq!(decoded(0x0051_2623), "sw     x5, 12(x2)");
    // sb x1, -1(x2)
    assert_eq!(decoded(0xfe11_0fa3), "sb     x1, -1(x2)");
    // a load of a width that is none
    assert_eq!(Rv32::try_decode(0x0081_3283), None);
}

#[test]
fn decode_branches_and_jumps() {
    // beq x1, x2, 8
    assert_eq!(
        Rv32::try_decode(0x0020_8463),
        Some(Instr::Branch { rs1: Reg(1), rs2: Reg(2), simm: 8, brn_op: RvBranchOp::Eq })
    );
    assert_eq!(decoded(0x0020_8463), "beq    x1, x2, 8");
    // bne x1, x2, -4
    assert_eq!(decoded(0xfe20_9ee3), "bne    x1, x2, -4");
    // bgeu x3, x4, 4094 and blt x3, x4, -4096
    assert_eq!(decoded(0x7e41_ffe3), "bgeu   x3, x4, 4094");
    assert_eq!(decoded(0x8041_c063), "blt    x3, x4, -4096");
    // a branch on a condition that is none
    assert_eq!(Rv32::try_decode(0x0020_a463), None);
    // jal x1, 2048
    assert_eq!(Rv32::try_decode(0x0010_00ef), Some(Instr::Jal { rd: Reg(1), simm: 2048 }));
    assert_eq!(decoded(0x0010_00ef), "jal    x1, 2048");
    // jal x0, -4
    assert_eq!(decoded(0xffdf_f06f), "jal    x0, -4");
    // jal x0, -1048576 and jal x0, 1048574
    assert_eq!(decoded(0x8000_006f), "jal    x0, -1048576");
    assert_eq!(decoded(0x7fff_f06f), "jal    x0, 1048574");
    // jalr x0, 0(x1)
    assert_eq!(Rv32::try_decode(0x0000_8067), Some(Instr::Jalr { rd: Reg(0), rs1: Reg(1), simm: 0 }));
    assert_eq!(decoded(0x0000_8067), "jalr   x0, 0(x1)");
}

#[test]
fn decode_upper_immediates() {
    // lui x5, 0x12345
    assert_eq!(Rv32::try_decode(0x1234_52b7), Some(Instr::Lui { rd: Reg(5), uimm: 0x1234_5000 }));
    assert_eq!(decoded(0x1234_52b7), "lui    x5, 0x12345000");
    // auipc x10, 0xfffff
    assert_eq!(decoded(0xffff_f517), "auipc  x10, 0xfffff000");
    assert_eq!(decoded(0x0000_0097), "auipc  x1, 0x00000000");
}

#[test]
fn decode_unknown_encodings() {
    // fence and ecall: opcodes that exist and are not decoded
    assert_eq!(Rv32::try_decode(0x0ff0_000f), None);
    assert_eq!(Rv32::try_decode(0x0000_0073), None);
    // bits 6 to 2 all set: no opcode
    assert_eq!(Rv32::try_decode(0xffff_ffff), None);
    assert_eq!(Rv32::try_decode(0x0000_007f), None);
    // the two low bits are not looked at
    assert_eq!(Rv32::try_decode(0x00a0_0510), Rv32::try_decode(0x00a0_0513));
}

#[test]
fn decoded_registers_are_registers() {
    for enc in (0u32..=0xffff).map(|i| i.wrapping_mul(0x0001_0001).wrapping_add(i << 7)) {
        if let Some(inst) = Rv32::try_decode(enc) {
            let regs = match inst {
                Instr::Op { rd, rs1, rs2, .. } => vec![rd, rs1, rs2],
                Instr::OpImm { rd, rs1, .. } => vec![rd, rs1],
                Instr::Load { rd, rs1, .. } => vec![rd, rs1],
                Instr::Jalr { rd, rs1, .. } => vec![rd, rs1],
                Instr::AuiPc { rd, .. } => vec![rd],
                Instr::Lui { rd, .. } => vec![rd],
                Instr::Store { rs1, rs2, .. } => vec![rs1, rs2],
                Instr::Jal { rd, .. } => vec![rd],
                Instr::Branch { rs1, rs2, .. } => vec![rs1, rs2],
            };
            assert!(regs.iter().all(|reg| reg.val() < 32));
        }
    }
}

#[test]
fn numbers_as_text() {
    assert_eq!(digit_str(0), "0");
    assert_eq!(digit_str(9), "9");
    assert_eq!(digit_str(10), "a");
    assert_eq!(digit_str(15), "f");
    assert_eq!(decimal_string(0), "0");
    assert_eq!(decimal_string(7), "7");
    assert_eq!(decimal_string(10), "10");
    assert_eq!(decimal_string(1234567890), "1234567890");
    assert_eq!(decimal_string(u32::MAX), "4294967295");
    assert_eq!(signed_decimal_string(0), "0");
    assert_eq!(signed_decimal_string(-1), "-1");
    assert_eq!(signed_decimal_string(i32::MAX), "2147483647");
    assert_eq!(signed_decimal_string(i32::MIN), "-2147483648");
    assert_eq!(hex_string(0, 8), "00000000");
    assert_eq!(hex_string(0xdead_beef, 8), "deadbeef");
    assert_eq!(hex_string(0xdead_beef, 4), "beef");
    assert_eq!(hex_string(0xabc, 0), "");
    for x in [0u32, 1, 9, 10, 99, 100, 65535, 1 << 31, u32::MAX] {
        assert_eq!(decimal_string(x), format!("{}", x));
        assert_eq!(hex_string(x, 8), format!("{:08x}", x));
        assert_eq!(signed_decimal_string(x as i32), format!("{}", x as i32));
    }
}

#[test]
fn padding() {
    assert_eq!(pad_string(String::from(""), 3), "   ");
    assert_eq!(pad_string(String::from("lw"), 6), "lw    ");
    assert_eq!(pad_string(String::from("auipc"), 6), "auipc ");
    assert_eq!(pad_string(String::from("sixsix"), 6), "sixsix");
    assert_eq!(pad_string(String::from("longer than"), 6), "longer than");
    assert_eq!(pad_string(String::from("x"), 0), "x");
    assert_eq!(pad_string(String::from("lw"), 6), format!("{:6}", "lw"));
}
