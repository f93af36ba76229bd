//! The instruction handlers: what executing each instruction in the decode
//! stage does to the emulator state.
#![allow(non_snake_case)]
use vstd::prelude::*;

use super::{spec_read_reg, spec_write_reg, CVE2Datapath, CVE2Pipeline, EmulatorState, MachineState};
use crate::bits::{bits, spec_bits};
use crate::isa::definitions::spec_decode;
use crate::isa::instruction::{spec_immediate, spec_rd, spec_rs1, spec_rs2};
use crate::isa::{Instruction, InstructionFormat, ISA};
use vstd::arithmetic::power2::pow2;
use vstd::wrapping::u32_specs::{wrapping_add, wrapping_add_signed, wrapping_sub};

verus! {

/// The value register `i` reads as in `s`.
pub open spec fn spec_reg(s: MachineState, i: u8) -> u32 {
    spec_read_reg(s.x, i as int)
}

/// `s` with `v` written to register `i`.
pub open spec fn spec_with_reg(s: MachineState, i: u8, v: u32) -> MachineState {
    MachineState { x: spec_write_reg(s.x, i as int, v), csr: s.csr, pipeline: s.pipeline }
}

/// `s` with the datapath replaced by `d`.
pub open spec fn spec_with_datapath(s: MachineState, d: CVE2Datapath) -> MachineState {
    MachineState {
        x: s.x,
        csr: s.csr,
        pipeline: CVE2Pipeline { datapath: d, ..s.pipeline },
    }
}

/// `s` with the fetch address set to `pc`.
pub open spec fn spec_with_pc(s: MachineState, pc: u32) -> MachineState {
    spec_with_datapath(s, CVE2Datapath { instr_addr_o: pc, ..s.pipeline.datapath })
}

/// The result of a register-immediate arithmetic or logic instruction; shift
/// amounts are the low five bits of the immediate.
pub open spec fn spec_alu_imm(isa: ISA, a: u32, imm: i32) -> u32 {
    match isa {
        ISA::ADDI => wrapping_add_signed(a, imm),
        ISA::SLTI => if (a as i32) < imm { 1 } else { 0 },
        ISA::SLTIU => if a < (imm as u32) { 1 } else { 0 },
        ISA::XORI => a ^ (imm as u32),
        ISA::ORI => a | (imm as u32),
        ISA::ANDI => a & (imm as u32),
        ISA::SLLI => a << ((imm as u32) & 0x1Fu32),
        ISA::SRLI => a >> ((imm as u32) & 0x1Fu32),
        ISA::SRAI => ((a as i32) >> ((imm as u32) & 0x1Fu32)) as u32,
        _ => 0,
    }
}

/// The result of a register-register arithmetic or logic instruction; shift
/// amounts are the low five bits of the second operand.
pub open spec fn spec_alu_reg(isa: ISA, a: u32, b: u32) -> u32 {
    match isa {
        ISA::ADD => wrapping_add(a, b),
        ISA::SUB => wrapping_sub(a, b),
        ISA::SLL => a << (b & 0x1Fu32),
        ISA::SLT => if (a as i32) < (b as i32) { 1 } else { 0 },
        ISA::SLTU => if a < b { 1 } else { 0 },
        ISA::XOR => a ^ b,
        ISA::SRL => a >> (b & 0x1Fu32),
        ISA::SRA => ((a as i32) >> (b & 0x1Fu32)) as u32,
        ISA::OR => a | b,
        ISA::AND => a & b,
        _ => 0,
    }
}

/// Whether a branch instruction's condition holds.
pub open spec fn spec_branch_taken(isa: ISA, a: u32, b: u32) -> bool {
    match isa {
        ISA::BEQ => a == b,
        ISA::BNE => a != b,
        ISA::BLT => (a as i32) < (b as i32),
        ISA::BGE => (a as i32) >= (b as i32),
        ISA::BLTU => a < b,
        ISA::BGEU => a >= b,
        _ => false,
    }
}

/// The target of a jump or branch relative to the instruction in decode.
pub open spec fn spec_relative_target(s: MachineState, w: u32, format: InstructionFormat) -> int {
    s.pipeline.ID_pc + spec_immediate(w, format)
}

/// The target of JALR: the first source register plus the immediate, with
/// the lowest bit cleared.
pub open spec fn spec_jalr_target(s: MachineState, w: u32) -> u32 {
    wrapping_add_signed(spec_reg(s, spec_rs1(w)), spec_immediate(w, InstructionFormat::I)) & 0xFFFF_FFFEu32
}

/// Whether a relative target lies outside the address space or off a
/// four-byte boundary.
pub open spec fn spec_bad_target(t: int) -> bool {
    t < 0 || t > u32::MAX || t % 4 != 0
}

/// The byte enables and data width of a load or store.
pub open spec fn spec_byte_enable(isa: ISA) -> u8 {
    match isa {
        ISA::LB | ISA::LBU | ISA::SB => 0x1,
        ISA::LH | ISA::LHU | ISA::SH => 0x3,
        _ => 0xF,
    }
}

/// The data a store writes: the low byte, half-word or word of the second
/// source register.
pub open spec fn spec_store_data(isa: ISA, v: u32) -> u32 {
    match isa {
        ISA::SB => v & 0xFFu32,
        ISA::SH => v & 0xFFFFu32,
        _ => v,
    }
}

/// The state after a load or store instruction requests its data access.
pub open spec fn spec_memory_request(isa: ISA, w: u32, s: MachineState) -> MachineState {
    let d = s.pipeline.datapath;
    if isa == ISA::SB || isa == ISA::SH || isa == ISA::SW {
        spec_with_datapath(s, CVE2Datapath {
            data_req_o: true,
            data_we_o: true,
            data_addr_o: wrapping_add_signed(spec_reg(s, spec_rs1(w)), spec_immediate(w, InstructionFormat::S)),
            data_be_o: spec_byte_enable(isa),
            data_wdata_o: spec_store_data(isa, spec_reg(s, spec_rs2(w))),
            ..d
        })
    } else {
        spec_with_datapath(s, CVE2Datapath {
            data_req_o: true,
            data_we_o: false,
            data_addr_o: wrapping_add_signed(spec_reg(s, spec_rs1(w)), spec_immediate(w, InstructionFormat::I)),
            data_be_o: spec_byte_enable(isa),
            ..d
        })
    }
}

/// The control and status register that a CSR instruction names.
pub open spec fn spec_csr_number(w: u32) -> u32 {
    spec_bits(w, 20, 12)
}

/// The value a control and status register reads as; absent ones read zero.
pub open spec fn spec_csr_read(csr: Map<u32, u32>, n: u32) -> u32 {
    if csr.contains_key(n) {
        csr[n]
    } else {
        0
    }
}

/// The new value of the register a CSR instruction names: written, set by
/// or cleared by the source (a register, or the five-bit value in the rs1
/// field for the immediate forms).
pub open spec fn spec_csr_update(isa: ISA, old_value: u32, src: u32) -> u32 {
    match isa {
        ISA::CSRRW | ISA::CSRRWI => src,
        ISA::CSRRS | ISA::CSRRSI => old_value | src,
        _ => old_value & !src,
    }
}

/// The state after a CSR instruction: the named register is updated and its
/// old value written to the destination register.
pub open spec fn spec_csr_execute(isa: ISA, w: u32, s: MachineState) -> MachineState {
    let n = spec_csr_number(w);
    let t = spec_csr_read(s.csr, n);
    let src = if isa == ISA::CSRRW || isa == ISA::CSRRS || isa == ISA::CSRRC {
        spec_reg(s, spec_rs1(w))
    } else {
        spec_rs1(w) as u32
    };
    spec_with_reg(
        MachineState { x: s.x, csr: s.csr.insert(n, spec_csr_update(isa, t, src)), pipeline: s.pipeline },
        spec_rd(w),
        t,
    )
}

/// Whether executing `isa` (encoded as `w`) in state `s` is something the
/// emulator cannot do: a jump or branch whose target is off a four-byte
/// boundary or outside the address space, or an environment call or break.
pub open spec fn spec_handler_faults(isa: ISA, w: u32, s: MachineState) -> bool {
    match isa {
        ISA::JAL => spec_bad_target(spec_relative_target(s, w, InstructionFormat::J)),
        ISA::BEQ | ISA::BNE | ISA::BLT | ISA::BGE | ISA::BLTU | ISA::BGEU =>
            spec_bad_target(spec_relative_target(s, w, InstructionFormat::B)),
        ISA::JALR => spec_jalr_target(s, w) % 4 != 0,
        ISA::ECALL | ISA::EBREAK => true,
        _ => false,
    }
}

/// The state after executing `isa` (encoded as `w`) in state `s`.
pub open spec fn spec_execute(isa: ISA, w: u32, s: MachineState) -> MachineState {
    let rd = spec_rd(w);
    let a = spec_reg(s, spec_rs1(w));
    let b = spec_reg(s, spec_rs2(w));
    let pc = s.pipeline.ID_pc;
    match isa {
        ISA::LUI => spec_with_reg(s, rd, spec_immediate(w, InstructionFormat::U) as u32),
        ISA::AUIPC => spec_with_reg(
            s,
            rd,
            wrapping_add_signed(s.pipeline.datapath.instr_addr_o, spec_immediate(w, InstructionFormat::U)),
        ),
        ISA::JAL => spec_with_pc(
            spec_with_reg(s, rd, wrapping_add(pc, 4)),
            spec_relative_target(s, w, InstructionFormat::J) as u32,
        ),
        ISA::JALR => spec_with_pc(spec_with_reg(s, rd, wrapping_add(pc, 4)), spec_jalr_target(s, w)),
        ISA::BEQ | ISA::BNE | ISA::BLT | ISA::BGE | ISA::BLTU | ISA::BGEU => if spec_branch_taken(isa, a, b) {
            spec_with_pc(s, spec_relative_target(s, w, InstructionFormat::B) as u32)
        } else {
            s
        },
        ISA::LB | ISA::LH | ISA::LW | ISA::LBU | ISA::LHU | ISA::SB | ISA::SH | ISA::SW =>
            spec_memory_request(isa, w, s),
        ISA::ADDI | ISA::SLTI | ISA::SLTIU | ISA::XORI | ISA::ORI | ISA::ANDI | ISA::SLLI | ISA::SRLI
        | ISA::SRAI => spec_with_reg(s, rd, spec_alu_imm(isa, a, spec_immediate(w, InstructionFormat::I))),
        ISA::ADD | ISA::SUB | ISA::SLL | ISA::SLT | ISA::SLTU | ISA::XOR | ISA::SRL | ISA::SRA | ISA::OR
        | ISA::AND => spec_with_reg(s, rd, spec_alu_reg(isa, a, b)),
        ISA::CSRRW | ISA::CSRRS | ISA::CSRRC | ISA::CSRRWI | ISA::CSRRSI | ISA::CSRRCI =>
            spec_csr_execute(isa, w, s),
        ISA::FENCE | ISA::FENCE_TSO | ISA::PAUSE | ISA::ECALL | ISA::EBREAK => s,
    }
}

/// The handler of the instruction that `instr` encodes, named by the
/// instruction; `Err` when the word encodes none.
pub fn get_handler(instr: Instruction) -> (r: Result<ISA, ()>)
    ensures
        r == (match spec_decode(instr@) {
            Some(isa) => Ok::<ISA, ()>(isa),
            None => Err(()),
        }),
{
    match ISA::instr_to_isa(instr) {
        Some(isa) => Ok(isa),
        None => Err(()),
    }
}

/// Runs the handler of `isa` on `instr`.
pub fn execute(isa: ISA, instr: &Instruction, state: &mut EmulatorState)
    requires
        !spec_handler_faults(isa, instr@, old(state)@),
    ensures
        final(state)@ == spec_execute(isa, instr@, old(state)@),
{
    match isa {
        ISA::LUI => LUI(instr, state),
        ISA::AUIPC => AUIPC(instr, state),
        ISA::JAL => JAL(instr, state),
        ISA::JALR => JALR(instr, state),
        ISA::BEQ => BEQ(instr, state),
        ISA::BNE => BNE(instr, state),
        ISA::BLT => BLT(instr, state),
        ISA::BGE => BGE(instr, state),
        ISA::BLTU => BLTU(instr, state),
        ISA::BGEU => BGEU(instr, state),
        ISA::LB => LB(instr, state),
        ISA::LH => LH(instr, state),
        ISA::LW => LW(instr, state),
        ISA::LBU => LBU(instr, state),
        ISA::LHU => LHU(instr, state),
        ISA::SB => SB(instr, state),
        ISA::SH => SH(instr, state),
        ISA::SW => SW(instr, state),
        ISA::ADDI => ADDI(instr, state),
        ISA::SLTI => SLTI(instr, state),
        ISA::SLTIU => SLTIU(instr, state),
        ISA::XORI => XORI(instr, state),
        ISA::ORI => ORI(instr, state),
        ISA::ANDI => ANDI(instr, state),
        ISA::SLLI => SLLI(instr, state),
        ISA::SRLI => SRLI(instr, state),
        ISA::SRAI => SRAI(instr, state),
        ISA::ADD => ADD(instr, state),
        ISA::SUB => SUB(instr, state),
        ISA::SLL => SLL(instr, state),
        ISA::SLT => SLT(instr, state),
        ISA::SLTU => SLTU(instr, state),
        ISA::XOR => XOR(instr, state),
        ISA::SRL => SRL(instr, state),
        ISA::SRA => SRA(instr, state),
        ISA::OR => OR(instr, state),
        ISA::AND => AND(instr, state),
        ISA::FENCE => FENCE(instr, state),
        ISA::FENCE_TSO => FENCE_TSO(instr, state),
        ISA::PAUSE => PAUSE(instr, state),
        ISA::ECALL => ECALL(instr, state),
        ISA::EBREAK => EBREAK(instr, state),
        ISA::CSRRW => CSRRW(instr, state),
        ISA::CSRRS => CSRRS(instr, state),
        ISA::CSRRC => CSRRC(instr, state),
        ISA::CSRRWI => CSRRWI(instr, state),
        ISA::CSRRSI => CSRRSI(instr, state),
        ISA::CSRRCI => CSRRCI(instr, state),
    }
}

fn LUI(instr: &Instruction, state: &mut EmulatorState)
    ensures
        final(state)@ == spec_execute(ISA::LUI, instr@, old(state)@),
{
    let rd = instr.rd() as usize;
    let immediate = instr.decode_immediate(InstructionFormat::U);
    state.x.write(rd, immediate as u32);
}

fn AUIPC(instr: &Instruction, state: &mut EmulatorState)
    ensures
        final(state)@ == spec_execute(ISA::AUIPC, instr@, old(state)@),
{
    let rd = instr.rd() as usize;
    let immediate = instr.decode_immediate(InstructionFormat::U);
    let result = state.pipeline.datapath.instr_addr_o.wrapping_add_signed(immediate);
    state.x.write(rd, result);
}

fn JAL(instr: &Instruction, state: &mut EmulatorState)
    requires
        !spec_handler_faults(ISA::JAL, instr@, old(state)@),
    ensures
        final(state)@ == spec_execute(ISA::JAL, instr@, old(state)@),
{
    let immediate = instr.decode_immediate(InstructionFormat::J);
    let new_pc = state.pipeline.ID_pc.checked_add_signed(immediate).unwrap();
    let rd = instr.rd() as usize;
    let link = state.pipeline.ID_pc.wrapping_add(4);
    state.x.write(rd, link);
    state.pipeline.datapath = CVE2Datapath { instr_addr_o: new_pc, ..state.pipeline.datapath };
}

fn JALR(instr: &Instruction, state: &mut EmulatorState)
    requires
        !spec_handler_faults(ISA::JALR, instr@, old(state)@),
    ensures
        final(state)@ == spec_execute(ISA::JALR, instr@, old(state)@),
{
    let immediate = instr.decode_immediate(InstructionFormat::I);
    let base = state.x.read(instr.rs1() as usize);
    let new_pc = base.wrapping_add_signed(immediate) & 0xFFFF_FFFE;
    let rd = instr.rd() as usize;
    let link = state.pipeline.ID_pc.wrapping_add(4);
    state.x.write(rd, link);
    state.pipeline.datapath = CVE2Datapath { instr_addr_o: new_pc, ..state.pipeline.datapath };
}

fn BEQ(instr: &Instruction, state: &mut EmulatorState)
    requires
        !spec_handler_faults(ISA::BEQ, instr@, old(state)@),
    ensures
        final(state)@ == spec_execute(ISA::BEQ, instr@, old(state)@),
{
    let immediate = instr.decode_immediate(InstructionFormat::B);
    let new_pc = state.pipeline.ID_pc.checked_add_signed(immediate).unwrap();
    let a = state.x.read(instr.rs1() as usize);
    let b = state.x.read(instr.rs2() as usize);
    if a == b {
        state.pipeline.datapath = CVE2Datapath { instr_addr_o: new_pc, ..state.pipeline.datapath };
    }
}

fn BNE(instr: &Instruction, state: &mut EmulatorState)
    requires
        !spec_handler_faults(ISA::BNE, instr@, old(state)@),
    ensures
        final(state)@ == spec_execute(ISA::BNE, instr@, old(state)@),
{
    let immediate = instr.decode_immediate(InstructionFormat::B);
    let new_pc = state.pipeline.ID_pc.checked_add_signed(immediate).unwrap();
    let a = state.x.read(instr.rs1() as usize);
    let b = state.x.read(instr.rs2() as usize);
    if a != b {
        state.pipeline.datapath = CVE2Datapath { instr_addr_o: new_pc, ..state.pipeline.datapath };
    }
}

fn BLT(instr: &Instruction, state: &mut EmulatorState)
    requires
        !spec_handler_faults(ISA::BLT, instr@, old(state)@),
    ensures
        final(state)@ == spec_execute(ISA::BLT, instr@, old(state)@),
{
    let immediate = instr.decode_immediate(InstructionFormat::B);
    let new_pc = state.pipeline.ID_pc.checked_add_signed(immediate).unwrap();
    let a = state.x.read(instr.rs1() as usize);
    let b = state.x.read(instr.rs2() as usize);
    if (a as i32) < (b as i32) {
        state.pipeline.datapath = CVE2Datapath { instr_addr_o: new_pc, ..state.pipeline.datapath };
    }
}

fn BGE(instr: &Instruction, state: &mut EmulatorState)
    requires
        !spec_handler_faults(ISA::BGE, instr@, old(state)@),
    ensures
        final(state)@ == spec_execute(ISA::BGE, instr@, old(state)@),
{
    let immediate = instr.decode_immediate(InstructionFormat::B);
    let new_pc = state.pipeline.ID_pc.checked_add_signed(immediate).unwrap();
    let a = state.x.read(instr.rs1() as usize);
    let b = state.x.read(instr.rs2() as usize);
    if (a as i32) >= (b as i32) {
        state.pipeline.datapath = CVE2Datapath { instr_addr_o: new_pc, ..state.pipeline.datapath };
    }
}

fn BLTU(instr: &Instruction, state: &mut EmulatorState)
    requires
        !spec_handler_faults(ISA::BLTU, instr@, old(state)@),
    ensures
        final(state)@ == spec_execute(ISA::BLTU, instr@, old(state)@),
{
    let immediate = instr.decode_immediate(InstructionFormat::B);
    let new_pc = state.pipeline.ID_pc.checked_add_signed(immediate).unwrap();
    let a = state.x.read(instr.rs1() as usize);
    let b = state.x.read(instr.rs2() as usize);
    if a < b {
        state.pipeline.datapath = CVE2Datapath { instr_addr_o: new_pc, ..state.pipeline.datapath };
    }
}

fn BGEU(instr: &Instruction, state: &mut EmulatorState)
    requires
        !spec_handler_faults(ISA::BGEU, instr@, old(state)@),
    ensures
        final(state)@ == spec_execute(ISA::BGEU, instr@, old(state)@),
{
    let immediate = instr.decode_immediate(InstructionFormat::B);
    let new_pc = state.pipeline.ID_pc.checked_add_signed(immediate).unwrap();
    let a = state.x.read(instr.rs1() as usize);
    let b = state.x.read(instr.rs2() as usize);
    if a >= b {
        state.pipeline.datapath = CVE2Datapath { instr_addr_o: new_pc, ..state.pipeline.datapath };
    }
}

/// Requests the load; the loaded value is written back once the data memory has answered.
fn LB(instr: &Instruction, state: &mut EmulatorState)
    ensures
        final(state)@ == spec_execute(ISA::LB, instr@, old(state)@),
{
    let address = state.x.read(instr.rs1() as usize).wrapping_add_signed(instr.decode_immediate(InstructionFormat::I));
    state.pipeline.datapath = CVE2Datapath {
        data_req_o: true,
        data_we_o: false,
        data_addr_o: address,
        data_be_o: 0x1,
        ..state.pipeline.datapath
    };
}

/// Requests the load; the loaded value is written back once the data memory has answered.
fn LH(instr: &Instruction, state: &mut EmulatorState)
    ensures
        final(state)@ == spec_execute(ISA::LH, instr@, old(state)@),
{
    let address = state.x.read(instr.rs1() as usize).wrapping_add_signed(instr.decode_immediate(InstructionFormat::I));
    state.pipeline.datapath = CVE2Datapath {
        data_req_o: true,
        data_we_o: false,
        data_addr_o: address,
        data_be_o: 0x3,
        ..state.pipeline.datapath
    };
}

/// Requests the load; the loaded value is written back once the data memory has answered.
fn LW(instr: &Instruction, state: &mut EmulatorState)
    ensures
        final(state)@ == spec_execute(ISA::LW, instr@, old(state)@),
{
    let address = state.x.read(instr.rs1() as usize).wrapping_add_signed(instr.decode_immediate(InstructionFormat::I));
    state.pipeline.datapath = CVE2Datapath {
        data_req_o: true,
        data_we_o: false,
        data_addr_o: address,
        data_be_o: 0xF,
        ..state.pipeline.datapath
    };
}

/// Requests the load; the loaded value is written back once the data memory has answered.
fn LBU(instr: &Instruction, state: &mut EmulatorState)
    ensures
        final(state)@ == spec_execute(ISA::LBU, instr@, old(state)@),
{
    let address = state.x.read(instr.rs1() as usize).wrapping_add_signed(instr.decode_immediate(InstructionFormat::I));
    state.pipeline.datapath = CVE2Datapath {
        data_req_o: true,
        data_we_o: false,
        data_addr_o: address,
        data_be_o: 0x1,
        ..state.pipeline.datapath
    };
}

/// Requests the load; the loaded value is written back once the data memory has answered.
fn LHU(instr: &Instruction, state: &mut EmulatorState)
    ensures
        final(state)@ == spec_execute(ISA::LHU, instr@, old(state)@),
{
    let address = state.x.read(instr.rs1() as usize).wrapping_add_signed(instr.decode_immediate(InstructionFormat::I));
    state.pipeline.datapath = CVE2Datapath {
        data_req_o: true,
        data_we_o: false,
        data_addr_o: address,
        data_be_o: 0x3,
        ..state.pipeline.datapath
    };
}

fn SB(instr: &Instruction, state: &mut EmulatorState)
    ensures
        final(state)@ == spec_execute(ISA::SB, instr@, old(state)@),
{
    let data = state.x.read(instr.rs2() as usize) & 0xFF;
    let address = state.x.read(instr.rs1() as usize).wrapping_add_signed(instr.decode_immediate(InstructionFormat::S));
    state.pipeline.datapath = CVE2Datapath {
        data_req_o: true,
        data_we_o: true,
        data_addr_o: address,
        data_be_o: 0x1,
        data_wdata_o: data,
        ..state.pipeline.datapath
    };
}

fn SH(instr: &Instruction, state: &mut EmulatorState)
    ensures
        final(state)@ == spec_execute(ISA::SH, instr@, old(state)@),
{
    let data = state.x.read(instr.rs2() as usize) & 0xFFFF;
    let address = state.x.read(instr.rs1() as usize).wrapping_add_signed(instr.decode_immediate(InstructionFormat::S));
    state.pipeline.datapath = CVE2Datapath {
        data_req_o: true,
        data_we_o: true,
        data_addr_o: address,
        data_be_o: 0x3,
        data_wdata_o: data,
        ..state.pipeline.datapath
    };
}

fn SW(instr: &Instruction, state: &mut EmulatorState)
    ensures
        final(state)@ == spec_execute(ISA::SW, instr@, old(state)@),
{
    let data = state.x.read(instr.rs2() as usize);
    let address = state.x.read(instr.rs1() as usize).wrapping_add_signed(instr.decode_immediate(InstructionFormat::S));
    state.pipeline.datapath = CVE2Datapath {
        data_req_o: true,
        data_we_o: true,
        data_addr_o: address,
        data_be_o: 0xF,
        data_wdata_o: data,
        ..state.pipeline.datapath
    };
}

fn ADDI(instr: &Instruction, state: &mut EmulatorState)
    ensures
        final(state)@ == spec_execute(ISA::ADDI, instr@, old(state)@),
{
    let rd = instr.rd() as usize;
    let a = state.x.read(instr.rs1() as usize);
    let immediate = instr.decode_immediate(InstructionFormat::I);
    let result = a.wrapping_add_signed(immediate);
    state.x.write(rd, result);
}

fn SLTI(instr: &Instruction, state: &mut EmulatorState)
    ensures
        final(state)@ == spec_execute(ISA::SLTI, instr@, old(state)@),
{
    let rd = instr.rd() as usize;
    let a = state.x.read(instr.rs1() as usize);
    let immediate = instr.decode_immediate(InstructionFormat::I);
    let result = if (a as i32) < immediate { 1 } else { 0 };
    state.x.write(rd, result);
}

fn SLTIU(instr: &Instruction, state: &mut EmulatorState)
    ensures
        final(state)@ == spec_execute(ISA::SLTIU, instr@, old(state)@),
{
    let rd = instr.rd() as usize;
    let a = state.x.read(instr.rs1() as usize);
    let immediate = instr.decode_immediate(InstructionFormat::I);
    let result = if a < (immediate as u32) { 1 } else { 0 };
    state.x.write(rd, result);
}

fn XORI(instr: &Instruction, state: &mut EmulatorState)
    ensures
        final(state)@ == spec_execute(ISA::XORI, instr@, old(state)@),
{
    let rd = instr.rd() as usize;
    let a = state.x.read(instr.rs1() as usize);
    let immediate = instr.decode_immediate(InstructionFormat::I);
    let result = a ^ (immediate as u32);
    state.x.write(rd, result);
}

fn ORI(instr: &Instruction, state: &mut EmulatorState)
    ensures
        final(state)@ == spec_execute(ISA::ORI, instr@, old(state)@),
{
    let rd = instr.rd() as usize;
    let a = state.x.read(instr.rs1() as usize);
    let immediate = instr.decode_immediate(InstructionFormat::I);
    let result = a | (immediate as u32);
    state.x.write(rd, result);
}

fn ANDI(instr: &Instruction, state: &mut EmulatorState)
    ensures
        final(state)@ == spec_execute(ISA::ANDI, instr@, old(state)@),
{
    let rd = instr.rd() as usize;
    let a = state.x.read(instr.rs1() as usize);
    let immediate = instr.decode_immediate(InstructionFormat::I);
    let result = a & (immediate as u32);
    state.x.write(rd, result);
}

fn SLLI(instr: &Instruction, state: &mut EmulatorState)
    ensures
        final(state)@ == spec_execute(ISA::SLLI, instr@, old(state)@),
{
    let rd = instr.rd() as usize;
    let a = state.x.read(instr.rs1() as usize);
    let immediate = instr.decode_immediate(InstructionFormat::I) as u32;
    let shamt = immediate & 0x1F;
    proof { crate::bits::lemma_low_five_bits(immediate); }
    let result = a << shamt;
    state.x.write(rd, result);
}

fn SRLI(instr: &Instruction, state: &mut EmulatorState)
    ensures
        final(state)@ == spec_execute(ISA::SRLI, instr@, old(state)@),
{
    let rd = instr.rd() as usize;
    let a = state.x.read(instr.rs1() as usize);
    let immediate = instr.decode_immediate(InstructionFormat::I) as u32;
    let shamt = immediate & 0x1F;
    proof { crate::bits::lemma_low_five_bits(immediate); }
    let result = a >> shamt;
    state.x.write(rd, result);
}

fn SRAI(instr: &Instruction, state: &mut EmulatorState)
    ensures
        final(state)@ == spec_execute(ISA::SRAI, instr@, old(state)@),
{
    let rd = instr.rd() as usize;
    let a = state.x.read(instr.rs1() as usize);
    let immediate = instr.decode_immediate(InstructionFormat::I) as u32;
    let shamt = immediate & 0x1F;
    proof { crate::bits::lemma_low_five_bits(immediate); }
    let result = ((a as i32) >> shamt) as u32;
    state.x.write(rd, result);
}

fn ADD(instr: &Instruction, state: &mut EmulatorState)
    ensures
        final(state)@ == spec_execute(ISA::ADD, instr@, old(state)@),
{
    let rd = instr.rd() as usize;
    let a = state.x.read(instr.rs1() as usize);
    let b = state.x.read(instr.rs2() as usize);
    let result = a.wrapping_add(b);
    state.x.write(rd, result);
}

fn SUB(instr: &Instruction, state: &mut EmulatorState)
    ensures
        final(state)@ == spec_execute(ISA::SUB, instr@, old(state)@),
{
    let rd = instr.rd() as usize;
    let a = state.x.read(instr.rs1() as usize);
    let b = state.x.read(instr.rs2() as usize);
    let result = a.wrapping_sub(b);
    state.x.write(rd, result);
}

fn SLT(instr: &Instruction, state: &mut EmulatorState)
    ensures
        final(state)@ == spec_execute(ISA::SLT, instr@, old(state)@),
{
    let rd = instr.rd() as usize;
    let a = state.x.read(instr.rs1() as usize);
    let b = state.x.read(instr.rs2() as usize);
    let result = if (a as i32) < (b as i32) { 1 } else { 0 };
    state.x.write(rd, result);
}

fn SLTU(instr: &Instruction, state: &mut EmulatorState)
    ensures
        final(state)@ == spec_execute(ISA::SLTU, instr@, old(state)@),
{
    let rd = instr.rd() as usize;
    let a = state.x.read(instr.rs1() as usize);
    let b = state.x.read(instr.rs2() as usize);
    let result = if a < b { 1 } else { 0 };
    state.x.write(rd, result);
}

fn XOR(instr: &Instruction, state: &mut EmulatorState)
    ensures
        final(state)@ == spec_execute(ISA::XOR, instr@, old(state)@),
{
    let rd = instr.rd() as usize;
    let a = state.x.read(instr.rs1() as usize);
    let b = state.x.read(instr.rs2() as usize);
    let result = a ^ b;
    state.x.write(rd, result);
}

fn OR(instr: &Instruction, state: &mut EmulatorState)
    ensures
        final(state)@ == spec_execute(ISA::OR, instr@, old(state)@),
{
    let rd = instr.rd() as usize;
    let a = state.x.read(instr.rs1() as usize);
    let b = state.x.read(instr.rs2() as usize);
    let result = a | b;
    state.x.write(rd, result);
}

fn AND(instr: &Instruction, state: &mut EmulatorState)
    ensures
        final(state)@ == spec_execute(ISA::AND, instr@, old(state)@),
{
    let rd = instr.rd() as usize;
    let a = state.x.read(instr.rs1() as usize);
    let b = state.x.read(instr.rs2() as usize);
    let result = a & b;
    state.x.write(rd, result);
}

fn SLL(instr: &Instruction, state: &mut EmulatorState)
    ensures
        final(state)@ == spec_execute(ISA::SLL, instr@, old(state)@),
{
    let rd = instr.rd() as usize;
    let a = state.x.read(instr.rs1() as usize);
    let b = state.x.read(instr.rs2() as usize);
    let shamt = b & 0x1F;
    proof { crate::bits::lemma_low_five_bits(b); }
    let result = a << shamt;
    state.x.write(rd, result);
}

fn SRL(instr: &Instruction, state: &mut EmulatorState)
    ensures
        final(state)@ == spec_execute(ISA::SRL, instr@, old(state)@),
{
    let rd = instr.rd() as usize;
    let a = state.x.read(instr.rs1() as usize);
    let b = state.x.read(instr.rs2() as usize);
    let shamt = b & 0x1F;
    proof { crate::bits::lemma_low_five_bits(b); }
    let result = a >> shamt;
    state.x.write(rd, result);
}

fn SRA(instr: &Instruction, state: &mut EmulatorState)
    ensures
        final(state)@ == spec_execute(ISA::SRA, instr@, old(state)@),
{
    let rd = instr.rd() as usize;
    let a = state.x.read(instr.rs1() as usize);
    let b = state.x.read(instr.rs2() as usize);
    let shamt = b & 0x1F;
    proof { crate::bits::lemma_low_five_bits(b); }
    let result = ((a as i32) >> shamt) as u32;
    state.x.write(rd, result);
}

/// Memory ordering has no effect in this emulator: a no-op.
fn FENCE(instr: &Instruction, state: &mut EmulatorState)
    ensures
        final(state)@ == spec_execute(ISA::FENCE, instr@, old(state)@),
{
}

/// Memory ordering has no effect in this emulator: a no-op.
fn FENCE_TSO(instr: &Instruction, state: &mut EmulatorState)
    ensures
        final(state)@ == spec_execute(ISA::FENCE_TSO, instr@, old(state)@),
{
}

/// Memory ordering has no effect in this emulator: a no-op.
fn PAUSE(instr: &Instruction, state: &mut EmulatorState)
    ensures
        final(state)@ == spec_execute(ISA::PAUSE, instr@, old(state)@),
{
}

/// There is no execution environment to trap into; the emulator never executes this.
fn ECALL(instr: &Instruction, state: &mut EmulatorState)
    requires
        !spec_handler_faults(ISA::ECALL, instr@, old(state)@),
    ensures
        final(state)@ == spec_execute(ISA::ECALL, instr@, old(state)@),
{
}

/// There is no execution environment to trap into; the emulator never executes this.
fn EBREAK(instr: &Instruction, state: &mut EmulatorState)
    requires
        !spec_handler_faults(ISA::EBREAK, instr@, old(state)@),
    ensures
        final(state)@ == spec_execute(ISA::EBREAK, instr@, old(state)@),
{
}

fn CSRRW(instr: &Instruction, state: &mut EmulatorState)
    ensures
        final(state)@ == spec_execute(ISA::CSRRW, instr@, old(state)@),
{
    let number = bits(instr.raw(), 20, 12);
    let old_value = match state.csr.get(&number) {
        Some(v) => *v,
        None => 0,
    };
    let src = state.x.read(instr.rs1() as usize);
    state.csr.insert(number, src);
    state.x.write(instr.rd() as usize, old_value);
}

fn CSRRS(instr: &Instruction, state: &mut EmulatorState)
    ensures
        final(state)@ == spec_execute(ISA::CSRRS, instr@, old(state)@),
{
    let number = bits(instr.raw(), 20, 12);
    let old_value = match state.csr.get(&number) {
        Some(v) => *v,
        None => 0,
    };
    let src = state.x.read(instr.rs1() as usize);
    state.csr.insert(number, old_value | src);
    state.x.write(instr.rd() as usize, old_value);
}

fn CSRRC(instr: &Instruction, state: &mut EmulatorState)
    ensures
        final(state)@ == spec_execute(ISA::CSRRC, instr@, old(state)@),
{
    let number = bits(instr.raw(), 20, 12);
    let old_value = match state.csr.get(&number) {
        Some(v) => *v,
        None => 0,
    };
    let src = state.x.read(instr.rs1() as usize);
    state.csr.insert(number, old_value & !src);
    state.x.write(instr.rd() as usize, old_value);
}

fn CSRRWI(instr: &Instruction, state: &mut EmulatorState)
    ensures
        final(state)@ == spec_execute(ISA::CSRRWI, instr@, old(state)@),
{
    let number = bits(instr.raw(), 20, 12);
    let old_value = match state.csr.get(&number) {
        Some(v) => *v,
        None => 0,
    };
    let src = instr.rs1() as u32;
    state.csr.insert(number, src);
    state.x.write(instr.rd() as usize, old_value);
}

fn CSRRSI(instr: &Instruction, state: &mut EmulatorState)
    ensures
        final(state)@ == spec_execute(ISA::CSRRSI, instr@, old(state)@),
{
    let number = bits(instr.raw(), 20, 12);
    let old_value = match state.csr.get(&number) {
        Some(v) => *v,
        None => 0,
    };
    let src = instr.rs1() as u32;
    state.csr.insert(number, old_value | src);
    state.x.write(instr.rd() as usize, old_value);
}

fn CSRRCI(instr: &Instruction, state: &mut EmulatorState)
    ensures
        final(state)@ == spec_execute(ISA::CSRRCI, instr@, old(state)@),
{
    let number = bits(instr.raw(), 20, 12);
    let old_value = match state.csr.get(&number) {
        Some(v) => *v,
        None => 0,
    };
    let src = instr.rs1() as u32;
    state.csr.insert(number, old_value & !src);
    state.x.write(instr.rd() as usize, old_value);
}

/// Fences change nothing: the core has no other hardware to order.
pub proof fn law_fence_is_nop(isa: ISA, w: u32, s: MachineState)
    requires
        isa == ISA::FENCE || isa == ISA::FENCE_TSO || isa == ISA::PAUSE,
    ensures
        spec_execute(isa, w, s) == s,
{
}

/// Whether `a` is below `b` when both are read as two's-complement
/// numbers: a negative number (top bit set) is below every non-negative
/// one, and two numbers of the same sign compare as their bit patterns.
pub open spec fn spec_signed_less(a: u32, b: u32) -> bool {
    if (a >= 0x8000_0000) != (b >= 0x8000_0000) {
        a >= 0x8000_0000
    } else {
        a < b
    }
}

proof fn lemma_signed_less(a: u32, b: u32)
    ensures
        ((a as i32) < (b as i32)) == spec_signed_less(a, b),
{
    assert(((a as i32) < (b as i32)) == (if (a >= 0x8000_0000u32) != (b >= 0x8000_0000u32) {
        a >= 0x8000_0000u32
    } else {
        a < b
    })) by (bit_vector);
}

proof fn lemma_bits_of_i32(x: i32)
    ensures
        ((x as u32) as i32) == x,
{
    assert(((x as u32) as i32) == x) by (bit_vector);
}

/// The register an instruction writes reads back the value written, for a
/// state with its 32 registers and a destination other than register 0.
proof fn lemma_destination_reads_back(s: MachineState, w: u32, v: u32)
    requires
        s.x.len() == 32,
        spec_rd(w) != 0,
    ensures
        spec_reg(spec_with_reg(s, spec_rd(w), v), spec_rd(w)) == v,
{
    crate::isa::instruction::lemma_field_ranges(w);
}

/// Register-register arithmetic: ADD and SUB give the sum and difference
/// modulo 2^32; SRL gives the first source divided by two to the power of
/// the low five bits of the second (zeros enter at the top); SLT gives 1
/// exactly when the first source is below the second as signed numbers,
/// SLTU as unsigned numbers, and 0 otherwise.
pub proof fn law_register_arithmetic(w: u32, s: MachineState)
    requires
        s.x.len() == 32,
        spec_rd(w) != 0,
    ensures
        ({
            let a = spec_reg(s, spec_rs1(w));
            let b = spec_reg(s, spec_rs2(w));
            let result = |isa: ISA| spec_reg(spec_execute(isa, w, s), spec_rd(w));
            &&& result(ISA::ADD) == (a + b) % 0x1_0000_0000
            &&& result(ISA::SUB) == (a - b + 0x1_0000_0000) % 0x1_0000_0000
            &&& result(ISA::SRL) as nat == a as nat / pow2((b & 0x1F) as nat)
            &&& result(ISA::SLT) == if spec_signed_less(a, b) { 1u32 } else { 0u32 }
            &&& result(ISA::SLTU) == if a < b { 1u32 } else { 0u32 }
        }),
{
    let a = spec_reg(s, spec_rs1(w));
    let b = spec_reg(s, spec_rs2(w));
    crate::bits::lemma_low_five_bits(b);
    vstd::bits::lemma_u32_shr_is_div(a, b & 0x1F);
    lemma_signed_less(a, b);
    lemma_destination_reads_back(s, w, spec_alu_reg(ISA::ADD, a, b));
    lemma_destination_reads_back(s, w, spec_alu_reg(ISA::SUB, a, b));
    lemma_destination_reads_back(s, w, spec_alu_reg(ISA::SRL, a, b));
    lemma_destination_reads_back(s, w, spec_alu_reg(ISA::SLT, a, b));
    lemma_destination_reads_back(s, w, spec_alu_reg(ISA::SLTU, a, b));
}

/// Register-immediate arithmetic, with the I-format immediate `imm`:
/// ADDI gives the sum modulo 2^32; SRLI divides by two to the power of the
/// low five bits of the immediate; SLTI gives 1 exactly when the source is
/// below the immediate as signed numbers, SLTIU when it is below the
/// immediate's bit pattern as unsigned numbers, and 0 otherwise.
pub proof fn law_immediate_arithmetic(w: u32, s: MachineState)
    requires
        s.x.len() == 32,
        spec_rd(w) != 0,
    ensures
        ({
            let a = spec_reg(s, spec_rs1(w));
            let imm = spec_immediate(w, InstructionFormat::I);
            let result = |isa: ISA| spec_reg(spec_execute(isa, w, s), spec_rd(w));
            &&& result(ISA::ADDI) == (a + imm + 0x1_0000_0000) % 0x1_0000_0000
            &&& result(ISA::SRLI) as nat == a as nat / pow2(((imm as u32) & 0x1F) as nat)
            &&& result(ISA::SLTI) == if spec_signed_less(a, imm as u32) { 1u32 } else { 0u32 }
            &&& result(ISA::SLTIU) == if a < (imm as u32) { 1u32 } else { 0u32 }
        }),
{
    let a = spec_reg(s, spec_rs1(w));
    let imm = spec_immediate(w, InstructionFormat::I);
    crate::bits::lemma_low_five_bits(imm as u32);
    vstd::bits::lemma_u32_shr_is_div(a, (imm as u32) & 0x1F);
    lemma_signed_less(a, imm as u32);
    lemma_bits_of_i32(imm);
    lemma_destination_reads_back(s, w, spec_alu_imm(ISA::ADDI, a, imm));
    lemma_destination_reads_back(s, w, spec_alu_imm(ISA::SRLI, a, imm));
    lemma_destination_reads_back(s, w, spec_alu_imm(ISA::SLTI, a, imm));
    lemma_destination_reads_back(s, w, spec_alu_imm(ISA::SLTIU, a, imm));
}

/// Branch conditions: BEQ and BNE compare for equality, BLT and BGE compare
/// as signed numbers, BLTU and BGEU as unsigned numbers.
pub proof fn law_branch_conditions(a: u32, b: u32)
    ensures
        spec_branch_taken(ISA::BEQ, a, b) == (a == b),
        spec_branch_taken(ISA::BNE, a, b) == (a != b),
        spec_branch_taken(ISA::BLT, a, b) == spec_signed_less(a, b),
        spec_branch_taken(ISA::BGE, a, b) == !spec_signed_less(a, b),
        spec_branch_taken(ISA::BLTU, a, b) == (a < b),
        spec_branch_taken(ISA::BGEU, a, b) == !(a < b),
{
    lemma_signed_less(a, b);
}

/// An arithmetic right shift by `k` divides a non-negative word by 2^k, and
/// complements, divides and complements back a negative one.
proof fn lemma_arithmetic_shift(a: u32, k: u32)
    requires
        k < 32,
    ensures
        (((a as i32) >> k) as u32) as int == if a < 0x8000_0000 {
            (a as nat / pow2(k as nat)) as int
        } else {
            0xFFFF_FFFF - (0xFFFF_FFFF - a) as nat / pow2(k as nat)
        },
{
    let na = !a;
    let shifted = na >> k;
    assert({
        &&& (((a as i32) >> k) as u32) == if a < 0x8000_0000u32 { a >> k } else { !shifted }
        &&& na == 0xFFFF_FFFFu32 - a
        &&& !shifted == 0xFFFF_FFFFu32 - shifted
    }) by (bit_vector)
        requires
            k < 32,
            na == !a,
            shifted == na >> k,
    ;
    vstd::bits::lemma_u32_shr_is_div(a, k);
    vstd::bits::lemma_u32_shr_is_div(na, k);
}

/// SRA and SRAI shift right arithmetically, by the low five bits of the
/// second source or of the immediate: a non-negative first source is
/// divided by two to the power of the shift amount, and a negative one (top
/// bit set) is complemented, divided, and complemented back, so that ones
/// enter at the top.
pub proof fn law_sra_shifts_arithmetically(w: u32, s: MachineState)
    requires
        s.x.len() == 32,
        spec_rd(w) != 0,
    ensures
        ({
            let a = spec_reg(s, spec_rs1(w));
            let b = spec_reg(s, spec_rs2(w));
            let imm = spec_immediate(w, InstructionFormat::I);
            let shifted = |k: nat| if a < 0x8000_0000 {
                (a as nat / pow2(k)) as int
            } else {
                0xFFFF_FFFF - (0xFFFF_FFFF - a) as nat / pow2(k)
            };
            let result = |isa: ISA| spec_reg(spec_execute(isa, w, s), spec_rd(w));
            &&& result(ISA::SRA) as int == shifted((b & 0x1F) as nat)
            &&& result(ISA::SRAI) as int == shifted(((imm as u32) & 0x1F) as nat)
        }),
{
    let a = spec_reg(s, spec_rs1(w));
    let b = spec_reg(s, spec_rs2(w));
    let imm = spec_immediate(w, InstructionFormat::I);
    crate::bits::lemma_low_five_bits(b);
    crate::bits::lemma_low_five_bits(imm as u32);
    lemma_arithmetic_shift(a, b & 0x1F);
    lemma_arithmetic_shift(a, (imm as u32) & 0x1F);
    lemma_destination_reads_back(s, w, spec_alu_reg(ISA::SRA, a, b));
    lemma_destination_reads_back(s, w, spec_alu_imm(ISA::SRAI, a, imm));
}

/// The U-format immediate, read as a `u32`, is the instruction word with
/// its low twelve bits cleared.
proof fn lemma_upper_immediate(w: u32)
    ensures
        spec_immediate(w, InstructionFormat::U) as u32 == (w / 4096) * 4096,
{
    let x = crate::isa::instruction::spec_immediate_bits(w, InstructionFormat::U);
    assert(x == (spec_bits(w, 12, 20) << 12u32) as u32);
    assert({
        &&& (((spec_bits(w, 12, 20) << 12u32) as u32) == (w / 4096) * 4096)
        &&& ((x as i32) as u32 == x)
    }) by (bit_vector)
        requires
            x == (spec_bits(w, 12, 20) << 12u32) as u32,
    ;
}

/// LUI writes the upper twenty bits of its instruction word, with the low
/// twelve bits zero; JAL and JALR link the address after the jump (the
/// decode address plus four, modulo 2^32).
pub proof fn law_upper_immediate_and_link(w: u32, s: MachineState)
    requires
        s.x.len() == 32,
        spec_rd(w) != 0,
    ensures
        ({
            let upper = (w / 4096) * 4096;
            let result = |isa: ISA| spec_reg(spec_execute(isa, w, s), spec_rd(w));
            &&& result(ISA::LUI) == upper
            &&& result(ISA::JAL) == (s.pipeline.ID_pc + 4) % 0x1_0000_0000
            &&& result(ISA::JALR) == (s.pipeline.ID_pc + 4) % 0x1_0000_0000
        }),
{
    lemma_upper_immediate(w);
    let imm = spec_immediate(w, InstructionFormat::U);
    let pc = s.pipeline.ID_pc;
    lemma_destination_reads_back(s, w, imm as u32);
    lemma_destination_reads_back(s, w, wrapping_add(pc, 4));
    let s_link = spec_with_reg(s, spec_rd(w), wrapping_add(pc, 4));
    assert(spec_reg(spec_with_pc(s_link, spec_relative_target(s, w, InstructionFormat::J) as u32), spec_rd(w))
        == spec_reg(s_link, spec_rd(w)));
    assert(spec_reg(spec_with_pc(s_link, spec_jalr_target(s, w)), spec_rd(w)) == spec_reg(s_link, spec_rd(w)));
    assert(spec_reg(spec_execute(ISA::LUI, w, s), spec_rd(w)) == (w / 4096) * 4096);
    assert(spec_reg(spec_execute(ISA::JAL, w, s), spec_rd(w)) == (s.pipeline.ID_pc + 4) % 0x1_0000_0000);
    assert(spec_reg(spec_execute(ISA::JALR, w, s), spec_rd(w)) == (s.pipeline.ID_pc + 4) % 0x1_0000_0000);
}

/// Facts of 32-bit arithmetic the laws below rest on: a left shift
/// multiplies modulo 2^32, masking keeps a remainder, clearing bit 0
/// subtracts the remainder by two, and an `i32` read as a `u32` is itself,
/// or itself plus 2^32 when negative.
proof fn lemma_word_arithmetic(a: u32, k: u32, y: u32, x: i32)
    requires
        k < 32,
    ensures
        (a << k) as int == (a as int * pow2(k as nat)) % 0x1_0000_0000,
        y & 0xFFu32 == y % 256,
        y & 0xFFFFu32 == y % 65536,
        (y & 0xFFFF_FFFEu32) as int == y - y % 2,
        (x as u32) as int == if x < 0 { x + 0x1_0000_0000 } else { x as int },
{
    let p = 1u32 << k;
    vstd::bits::lemma_u32_pow2_no_overflow(k as nat);
    vstd::bits::lemma_u32_shl_is_mul(1, k);
    assert(p as int == pow2(k as nat));
    assert({
        &&& (a << k) as int == ((a as u64) * (p as u64)) % 0x1_0000_0000
        &&& y & 0xFFu32 == y % 256
        &&& y & 0xFFFFu32 == y % 65536
        &&& (y & 0xFFFF_FFFEu32) == y - y % 2
        &&& (x as u32) as int == if x < 0 { x + 0x1_0000_0000 } else { x as int }
    }) by (bit_vector)
        requires
            p == 1u32 << k,
            k < 32,
    ;
}

/// Left shifts: SLL and SLLI multiply the first source by two to the power
/// of the shift amount (the low five bits of the second source, or of the
/// immediate), modulo 2^32, so that zeros enter at the bottom.
pub proof fn law_shift_left(w: u32, s: MachineState)
    requires
        s.x.len() == 32,
        spec_rd(w) != 0,
    ensures
        ({
            let a = spec_reg(s, spec_rs1(w));
            let b = spec_reg(s, spec_rs2(w));
            let imm = spec_immediate(w, InstructionFormat::I);
            let result = |isa: ISA| spec_reg(spec_execute(isa, w, s), spec_rd(w));
            &&& result(ISA::SLL) as int == (a * pow2((b & 0x1F) as nat)) % 0x1_0000_0000
            &&& result(ISA::SLLI) as int == (a * pow2(((imm as u32) & 0x1F) as nat)) % 0x1_0000_0000
        }),
{
    let a = spec_reg(s, spec_rs1(w));
    let b = spec_reg(s, spec_rs2(w));
    let imm = spec_immediate(w, InstructionFormat::I);
    crate::bits::lemma_low_five_bits(b);
    crate::bits::lemma_low_five_bits(imm as u32);
    lemma_word_arithmetic(a, b & 0x1F, 0, 0);
    lemma_word_arithmetic(a, (imm as u32) & 0x1F, 0, 0);
    lemma_destination_reads_back(s, w, spec_alu_reg(ISA::SLL, a, b));
    lemma_destination_reads_back(s, w, spec_alu_imm(ISA::SLLI, a, imm));
}

/// AUIPC adds the upper twenty bits of its instruction word (the low twelve
/// bits zero) to the fetch address, modulo 2^32.
pub proof fn law_add_upper_immediate_to_pc(w: u32, s: MachineState)
    requires
        s.x.len() == 32,
        spec_rd(w) != 0,
    ensures
        spec_reg(spec_execute(ISA::AUIPC, w, s), spec_rd(w)) == (s.pipeline.datapath.instr_addr_o + (w / 4096) * 4096)
            % 0x1_0000_0000,
{
    lemma_upper_immediate(w);
    let imm = spec_immediate(w, InstructionFormat::U);
    lemma_word_arithmetic(0, 0, 0, imm);
    let pc = s.pipeline.datapath.instr_addr_o;
    let upper: int = (w / 4096) * 4096;
    assert(upper == if imm < 0 { imm + 0x1_0000_0000 } else { imm as int });
    let v = wrapping_add_signed(pc, imm);
    assert(v == (pc + upper) % 0x1_0000_0000);
    lemma_destination_reads_back(s, w, v);
}

/// Loads and stores request one data access and write no register: the
/// address is the first source plus the immediate (S format for stores, I
/// format for loads) modulo 2^32. A store writes the low byte (SB),
/// half-word (SH) or whole word (SW) of the second source, with byte
/// enables 0x1, 0x3 and 0xF; a load reads, with the byte enables of its
/// width.
pub proof fn law_memory_requests(w: u32, s: MachineState)
    ensures
        ({
            let a = spec_reg(s, spec_rs1(w));
            let b = spec_reg(s, spec_rs2(w));
            let store_address = (a + spec_immediate(w, InstructionFormat::S) + 0x1_0000_0000) % 0x1_0000_0000;
            let load_address = (a + spec_immediate(w, InstructionFormat::I) + 0x1_0000_0000) % 0x1_0000_0000;
            let d = |isa: ISA| spec_execute(isa, w, s).pipeline.datapath;
            let stores = |isa: ISA| {
                &&& d(isa).data_req_o
                &&& d(isa).data_we_o
                &&& d(isa).data_addr_o == store_address
                &&& spec_execute(isa, w, s).x == s.x
            };
            let loads = |isa: ISA| {
                &&& d(isa).data_req_o
                &&& !d(isa).data_we_o
                &&& d(isa).data_addr_o == load_address
                &&& spec_execute(isa, w, s).x == s.x
            };
            &&& stores(ISA::SB) && d(ISA::SB).data_be_o == 0x1 && d(ISA::SB).data_wdata_o == b % 256
            &&& stores(ISA::SH) && d(ISA::SH).data_be_o == 0x3 && d(ISA::SH).data_wdata_o == b % 65536
            &&& stores(ISA::SW) && d(ISA::SW).data_be_o == 0xF && d(ISA::SW).data_wdata_o == b
            &&& loads(ISA::LB) && d(ISA::LB).data_be_o == 0x1
            &&& loads(ISA::LBU) && d(ISA::LBU).data_be_o == 0x1
            &&& loads(ISA::LH) && d(ISA::LH).data_be_o == 0x3
            &&& loads(ISA::LHU) && d(ISA::LHU).data_be_o == 0x3
            &&& loads(ISA::LW) && d(ISA::LW).data_be_o == 0xF
        }),
{
    let b = spec_reg(s, spec_rs2(w));
    lemma_word_arithmetic(0, 0, b, 0);
}

/// Jumps and branches, where the handler does not fault: JAL moves the
/// fetch address to the decode address plus the J-format immediate; a
/// branch whose condition holds moves it to the decode address plus the
/// B-format immediate and writes no register, and one whose condition fails
/// changes nothing; JALR moves it to the first source plus the I-format
/// immediate, modulo 2^32, with bit 0 cleared.
pub proof fn law_control_transfer(w: u32, s: MachineState)
    ensures
        !spec_handler_faults(ISA::JAL, w, s) ==> spec_execute(ISA::JAL, w, s).pipeline.datapath.instr_addr_o
            == s.pipeline.ID_pc + spec_immediate(w, InstructionFormat::J),
        forall|isa: ISA|
            (isa == ISA::BEQ || isa == ISA::BNE || isa == ISA::BLT || isa == ISA::BGE || isa == ISA::BLTU
                || isa == ISA::BGEU) && !spec_handler_faults(isa, w, s) ==> {
                let next = #[trigger] spec_execute(isa, w, s);
                if spec_branch_taken(isa, spec_reg(s, spec_rs1(w)), spec_reg(s, spec_rs2(w))) {
                    &&& next.pipeline.datapath.instr_addr_o == s.pipeline.ID_pc + spec_immediate(w, InstructionFormat::B)
                    &&& next.x == s.x
                } else {
                    next == s
                }
            },
        ({
            let t = (spec_reg(s, spec_rs1(w)) + spec_immediate(w, InstructionFormat::I) + 0x1_0000_0000) % 0x1_0000_0000;
            spec_execute(ISA::JALR, w, s).pipeline.datapath.instr_addr_o == t - t % 2
        }),
{
    let y = wrapping_add_signed(spec_reg(s, spec_rs1(w)), spec_immediate(w, InstructionFormat::I));
    lemma_word_arithmetic(0, 0, y, 0);
}

} // verus!
