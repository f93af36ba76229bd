use std::collections::BTreeMap;

use emugator::assembler::AssembledProgram;
use emugator::emulator::{clock, clock_checked, rw_memory, Emulator, EmulatorState};
use emugator::isa::{Operands, ISA};

fn program_of(words: &[u32]) -> AssembledProgram {
    let mut program = AssembledProgram::new();
    for (i, w) in words.iter().enumerate() {
        for (k, b) in w.to_le_bytes().iter().enumerate() {
            program.instruction_memory.insert((4 * i + k) as u32, *b);
        }
    }
    program
}

#[test]
fn memory_reads_back_what_was_written() {
    let mut memory = BTreeMap::new();
    assert_eq!(rw_memory(&mut memory, 8, [true; 4], true, 0xDEAD_BEEF), Ok(0));
    assert_eq!(rw_memory(&mut memory, 8, [true; 4], false, 0), Ok(0xDEAD_BEEF));
    assert_eq!(rw_memory(&mut memory, 8, [false, true, false, false], false, 0), Ok(0xBE00));
    // A partial write leaves the other bytes alone.
    assert_eq!(rw_memory(&mut memory, 8, [true, false, false, false], true, 0x11), Ok(0xEF));
    assert_eq!(rw_memory(&mut memory, 8, [true; 4], false, 0), Ok(0xDEAD_BE11));
    assert_eq!(memory.len(), 4);
}

#[test]
fn register_zero_reads_zero() {
    let mut state = EmulatorState::default();
    state.x.write(0, 7);
    assert_eq!(state.x.read(0), 0);
    state.x.write(3, 9);
    assert_eq!(state.x.read(3), 9);
    assert_eq!(state.x.x[0], 0);
}

#[test]
fn straight_line_clock_steps_by_four() {
    let addi = ISA::ADDI.build(Operands { rd: 1, rs1: 1, imm: 1, ..Default::default() }).raw();
    let mut program = program_of(&[addi, addi, addi]);
    let mut state = EmulatorState::default();
    state = clock(&state, &mut program);
    assert_eq!(state.pipeline.ID_pc, 0);
    assert_eq!(state.pipeline.datapath.instr_addr_o, 4);
    state = clock(&state, &mut program);
    assert_eq!(state.x.read(1), 1);
    assert_eq!(state.pipeline.ID_pc, 4);
    assert_eq!(state.pipeline.datapath.instr_addr_o, 8);
}

#[test]
fn taken_branch_leaves_a_bubble() {
    let beq = ISA::BEQ.build(Operands { rs1: 0, rs2: 0, imm: 8, ..Default::default() }).raw();
    let addi = ISA::ADDI.build(Operands { rd: 1, rs1: 1, imm: 1, ..Default::default() }).raw();
    let mut program = program_of(&[beq, addi, addi]);
    let mut state = clock(&EmulatorState::default(), &mut program);
    state = clock(&state, &mut program);
    // The word fetched after the branch is dropped.
    assert_eq!(state.pipeline.ID, 0);
    assert_eq!(state.pipeline.ID_pc, 8);
    assert_eq!(state.pipeline.datapath.instr_addr_o, 8);
}

#[test]
fn clock_checked_refuses_a_system_call() {
    let ecall = ISA::ECALL.build(Operands::default()).raw();
    let mut program = program_of(&[ecall]);
    let state = clock_checked(&EmulatorState::default(), &mut program).unwrap();
    assert!(clock_checked(&state, &mut program).is_none());
}

#[test]
fn clock_checked_refuses_a_misaligned_jump() {
    let jal = ISA::JAL.build(Operands { rd: 1, imm: 0x122, ..Default::default() }).raw();
    let mut program = program_of(&[jal]);
    let state = clock_checked(&EmulatorState::default(), &mut program).unwrap();
    assert!(clock_checked(&state, &mut program).is_none());
}

#[test]
fn emulator_keeps_its_history() {
    let mut emulator = Emulator { states: vec![EmulatorState::default()] };
    emulator.decode(ISA::ADDI.build(Operands { rd: 2, rs1: 0, imm: 9, ..Default::default() }));
    emulator.decode(ISA::ADD.build(Operands { rd: 3, rs1: 2, rs2: 2, ..Default::default() }));
    emulator.decode(emugator::isa::Instruction::from_raw(0));
    assert_eq!(emulator.states.len(), 4);
    assert_eq!(emulator.states[0].x.read(2), 0);
    assert_eq!(emulator.states[1].x.read(2), 9);
    assert_eq!(emulator.states[2].x.read(3), 18);
    assert_eq!(emulator.states[3].x.read(3), 18);
}

#[test]
fn fences_change_nothing() {
    let fence = ISA::FENCE.build(Operands::default()).raw();
    let pause = emugator::isa::Instruction::from_raw(0x0100_000F).raw();
    let mut program = program_of(&[fence, pause]);
    let mut state = clock(&EmulatorState::default(), &mut program);
    state.x.write(4, 44);
    let before = state.x.x;
    state = clock(&state, &mut program);
    state = clock(&state, &mut program);
    assert_eq!(state.x.x, before);
    assert!(state.csr.is_empty());
    assert!(program.data_memory.is_empty());
}
