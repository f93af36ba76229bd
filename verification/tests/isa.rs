use emugator::isa::{Instruction, InstructionDefinition, InstructionFormat, Operands, ISA};

fn ops(rd: u32, rs1: u32, rs2: u32, imm: i32) -> Operands {
    Operands { rd, rs1, rs2, imm }
}

#[test]
fn build_then_decode_gives_the_instruction_back() {
    let cases = [
        (ISA::ADD, ops(1, 2, 3, 0)),
        (ISA::SUB, ops(4, 5, 6, 0)),
        (ISA::SRA, ops(7, 8, 9, 0)),
        (ISA::ADDI, ops(1, 2, 0, -5)),
        (ISA::SRAI, ops(1, 2, 0, 0x403)),
        (ISA::SRLI, ops(1, 2, 0, 3)),
        (ISA::LHU, ops(3, 4, 0, 12)),
        (ISA::SH, ops(0, 4, 5, -8)),
        (ISA::BGEU, ops(0, 1, 2, -16)),
        (ISA::LUI, ops(5, 0, 0, 0x12345)),
        (ISA::JAL, ops(1, 0, 0, 0x800)),
        (ISA::CSRRSI, ops(1, 25, 0, 5)),
    ];
    for (isa, operands) in cases {
        let instruction = isa.build(operands);
        assert_eq!(ISA::instr_to_isa(instruction), Some(isa));
    }
}

#[test]
fn fields_read_back() {
    let i = ISA::SUB.build(ops(5, 6, 7, 0));
    assert_eq!(i.raw(), 0x4073_02B3);
    assert_eq!(i.opcode(), 0b0110011);
    assert_eq!(i.rd(), 5);
    assert_eq!(i.rs1(), 6);
    assert_eq!(i.rs2(), 7);
    assert_eq!(i.funct3(), 0);
    assert_eq!(i.funct7(), 0x20);
    assert_eq!(i.immediate(), Err(()));

    let b = ISA::BNE.build(ops(0, 1, 2, -4096 + 2048));
    assert_eq!(b.immediate(), Ok(-2048));
    let j = ISA::JAL.build(ops(1, 0, 0, -0x100000));
    assert_eq!(j.immediate(), Ok(-0x100000));
    let s = ISA::SW.build(ops(0, 2, 3, 2047));
    assert_eq!(s.immediate(), Ok(2047));
    let u = ISA::AUIPC.build(ops(1, 0, 0, 0xFFFFF));
    assert_eq!(u.immediate(), Ok(0xFFFFF000u32 as i32));
    assert_eq!(u.decode_immediate(InstructionFormat::U), 0xFFFFF000u32 as i32);
}

#[test]
fn raw_words_decode() {
    assert_eq!(ISA::instr_to_isa(Instruction::from_raw(0x0000_0073)), Some(ISA::ECALL));
    assert_eq!(ISA::instr_to_isa(Instruction::from_raw(0x0010_0073)), Some(ISA::EBREAK));
    assert_eq!(ISA::instr_to_isa(Instruction::from_raw(0x8330_000F)), Some(ISA::FENCE_TSO));
    assert_eq!(ISA::instr_to_isa(Instruction::from_raw(0x0100_000F)), Some(ISA::PAUSE));
    assert_eq!(ISA::instr_to_isa(Instruction::from_raw(0x0000_000F)), Some(ISA::FENCE));
    assert_eq!(ISA::instr_to_isa(Instruction::from_raw(0)), None);
    assert_eq!(ISA::instr_to_isa(Instruction::from_raw(0x0200_0033)), None);
    let def = InstructionDefinition::from_instr(Instruction::from_raw(0x0050_0093)).unwrap();
    assert_eq!(def.name, "ADDI");
    assert_eq!(def.format, InstructionFormat::I);
    assert_eq!(ISA::from_opcode(0b0110011, Some(0), Some(0)), None);
}

#[test]
fn definitions_match_their_names() {
    let def = ISA::SRAI.definition();
    assert_eq!(def.name, "SRAI");
    assert_eq!(def.opcode, 0b0010011);
    assert_eq!(def.funct3, Some(5));
    assert_eq!(def.funct7, Some(0x20));
    let built = def.build(ops(1, 2, 0, 0x401));
    assert_eq!(built.raw(), ISA::SRAI.build(ops(1, 2, 0, 0x401)).raw());
    let name: Vec<char> = "FENCE_TSO".chars().collect();
    assert_eq!(ISA::from_name(&name), Some(ISA::FENCE_TSO));
    let lower: Vec<char> = "add".chars().collect();
    assert_eq!(ISA::from_name(&lower), None);
}
