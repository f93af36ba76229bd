//! The emulator: register file, machine state, memory access and the clock
//! that advances the two-stage pipeline by one cycle.
use std::collections::BTreeMap;
use vstd::prelude::*;

pub mod datapath;
pub mod handlers;

pub use datapath::{CVE2Datapath, CVE2Pipeline};
pub use handlers::get_handler;

use crate::isa::definitions::spec_decode;
use crate::isa::instruction::spec_rd;
use crate::isa::{Instruction, InstructionFormat, ISA};
use crate::assembler::AssembledProgram;
use handlers::{
    execute, spec_execute, spec_handler_faults, spec_bad_target, spec_jalr_target, spec_relative_target,
    spec_with_datapath, spec_with_reg,
};

verus! {

/// The 32 integer registers; register 0 always reads as zero.
#[derive(Copy, Clone, Debug)]
pub struct RegisterFile {
    pub x: [u32; 32],
}

/// The value register `index` reads as: zero for register 0.
pub open spec fn spec_read_reg(x: Seq<u32>, index: int) -> u32 {
    if index == 0 {
        0
    } else {
        x[index]
    }
}

/// The registers after writing `value` to register `index`: register 0 is
/// cleared first, so a write to it leaves the value only until the next write.
pub open spec fn spec_write_reg(x: Seq<u32>, index: int, value: u32) -> Seq<u32> {
    x.update(0, 0).update(index, value)
}

impl Default for RegisterFile {
    fn default() -> (r: Self)
        ensures
            r.x@ == Seq::new(32, |i: int| 0u32),
    {
        let r = RegisterFile { x: [0u32; 32] };
        assert(r.x@ =~= Seq::new(32, |i: int| 0u32));
        r
    }
}

impl RegisterFile {
    /// Reads register `index`.
    pub fn read(&self, index: usize) -> (r: u32)
        requires
            index < 32,
        ensures
            r == spec_read_reg(self.x@, index as int),
    {
        if index == 0 {
            0
        } else {
            self.x[index]
        }
    }

    /// Writes `value` to register `index`.
    pub fn write(&mut self, index: usize, value: u32)
        requires
            index < 32,
        ensures
            final(self).x@ == spec_write_reg(old(self).x@, index as int, value),
    {
        self.x[0] = 0;
        self.x[index] = value;
    }
}

/// What the emulator state holds, as mathematical values.
pub struct MachineState {
    pub x: Seq<u32>,
    pub csr: Map<u32, u32>,
    pub pipeline: CVE2Pipeline,
}

/// The state of the emulated core: registers, control and status registers
/// and the pipeline.
#[derive(Clone, Debug)]
pub struct EmulatorState {
    pub x: RegisterFile,
    pub csr: BTreeMap<u32, u32>,
    pub pipeline: CVE2Pipeline,
}

impl View for EmulatorState {
    type V = MachineState;

    open spec fn view(&self) -> MachineState {
        MachineState { x: self.x.x@, csr: self.csr@, pipeline: self.pipeline }
    }
}

impl Default for EmulatorState {
    /// The reset state: all registers zero, no control and status registers,
    /// the pipeline at reset.
    fn default() -> (r: Self)
        ensures
            r@.x == Seq::new(32, |i: int| 0u32),
            r@.csr == Map::<u32, u32>::empty(),
            r@.pipeline == (CVE2Pipeline {
                IF: 0,
                IF_pc: 0,
                ID: 0,
                ID_pc: 0,
                datapath: datapath::spec_reset_datapath(),
            }),
    {
        EmulatorState { x: RegisterFile::default(), csr: BTreeMap::new(), pipeline: CVE2Pipeline::default() }
    }
}

/// A copy of `state` with the same contents.
pub fn copy_state(state: &EmulatorState) -> (r: EmulatorState)
    ensures
        r@ == state@,
{
    EmulatorState { x: state.x, csr: state.csr.clone(), pipeline: state.pipeline }
}

/// The byte a memory holds at `a`; absent bytes read as zero.
pub open spec fn spec_mem_byte(m: Map<u32, u8>, a: u32) -> u8 {
    if m.contains_key(a) {
        m[a]
    } else {
        0
    }
}

/// Byte `i` (little-endian) of `w`.
pub open spec fn spec_byte_of(w: u32, i: int) -> u8 {
    ((w >> ((8 * i) as u32)) & 0xFFu32) as u8
}

/// The word whose little-endian bytes are `b`.
pub open spec fn spec_le_word(b: Seq<u8>) -> u32 {
    (b[0] as u32) | (((b[1] as u32) << 8u32) as u32) | (((b[2] as u32) << 16u32) as u32)
        | (((b[3] as u32) << 24u32) as u32)
}

/// Whether every enabled byte of an access at `address` has an address.
pub open spec fn spec_access_in_range(address: u32, byte_enable: Seq<bool>) -> bool {
    forall|i: int| 0 <= i < 4 && byte_enable[i] ==> address + i <= u32::MAX
}

/// The bytes an access at `address` reads: the memory's bytes where enabled,
/// zero elsewhere.
pub open spec fn spec_access_bytes(m: Map<u32, u8>, address: u32, byte_enable: Seq<bool>) -> Seq<u8> {
    Seq::new(4, |i: int| if byte_enable[i] { spec_mem_byte(m, (address + i) as u32) } else { 0u8 })
}

/// The word an access at `address` returns.
pub open spec fn spec_access_word(m: Map<u32, u8>, address: u32, byte_enable: Seq<bool>) -> u32 {
    spec_le_word(spec_access_bytes(m, address, byte_enable))
}

/// The memory after writing the enabled ones among the first `n` bytes of
/// `wdata` at `address`.
pub open spec fn spec_write_bytes(m: Map<u32, u8>, address: u32, byte_enable: Seq<bool>, wdata: u32, n: int) -> Map<u32, u8>
    decreases n,
{
    if n <= 0 {
        m
    } else {
        let prev = spec_write_bytes(m, address, byte_enable, wdata, n - 1);
        if byte_enable[n - 1] {
            prev.insert((address + n - 1) as u32, spec_byte_of(wdata, n - 1))
        } else {
            prev
        }
    }
}

/// The memory after an access: a write stores the enabled bytes of `wdata`,
/// a read leaves it as it was.
pub open spec fn spec_access_memory(m: Map<u32, u8>, address: u32, byte_enable: Seq<bool>, wenable: bool, wdata: u32) -> Map<u32, u8> {
    if wenable {
        spec_write_bytes(m, address, byte_enable, wdata, 4)
    } else {
        m
    }
}

proof fn lemma_write_bytes_elsewhere(m: Map<u32, u8>, address: u32, byte_enable: Seq<bool>, wdata: u32, n: int, a: u32)
    requires
        0 <= n <= 4,
        spec_access_in_range(address, byte_enable),
        byte_enable.len() == 4,
        forall|i: int| 0 <= i < n && byte_enable[i] ==> a != address + i,
    ensures
        spec_mem_byte(spec_write_bytes(m, address, byte_enable, wdata, n), a) == spec_mem_byte(m, a),
        spec_write_bytes(m, address, byte_enable, wdata, n).contains_key(a) == m.contains_key(a),
    decreases n,
{
    if n > 0 {
        lemma_write_bytes_elsewhere(m, address, byte_enable, wdata, n - 1, a);
    }
}

proof fn lemma_write_bytes_at(m: Map<u32, u8>, address: u32, byte_enable: Seq<bool>, wdata: u32, n: int, j: int)
    requires
        0 <= j < n <= 4,
        spec_access_in_range(address, byte_enable),
        byte_enable.len() == 4,
        byte_enable[j],
    ensures
        spec_mem_byte(spec_write_bytes(m, address, byte_enable, wdata, n), (address + j) as u32) == spec_byte_of(wdata, j),
    decreases n,
{
    if n - 1 != j {
        lemma_write_bytes_at(m, address, byte_enable, wdata, n - 1, j);
    }
}

/// Reads or writes up to four bytes of `memory` at `address`. The result is
/// the word made of the enabled bytes the memory held before the access
/// (zero where a byte is absent or not enabled); a write stores the enabled
/// bytes of `wdata`.
pub fn rw_memory(memory: &mut BTreeMap<u32, u8>, address: u32, byte_enable: [bool; 4], wenable: bool, wdata: u32) -> (r: Result<u32, ()>)
    requires
        spec_access_in_range(address, byte_enable@),
    ensures
        r == Ok::<u32, ()>(spec_access_word(old(memory)@, address, byte_enable@)),
        final(memory)@ == spec_access_memory(old(memory)@, address, byte_enable@, wenable, wdata),
{
    let ghost m0 = memory@;
    let mut rdata_bytes: [u8; 4] = [0; 4];
    let wdata_bytes: [u8; 4] = [
        (wdata & 0xFF) as u8,
        ((wdata >> 8) & 0xFF) as u8,
        ((wdata >> 16) & 0xFF) as u8,
        ((wdata >> 24) & 0xFF) as u8,
    ];
    assert(wdata_bytes@ =~= Seq::new(4, |i: int| spec_byte_of(wdata, i))) by {
        assert((wdata >> 0u32) & 0xFFu32 == wdata & 0xFFu32) by (bit_vector);
    }
    let mut i: usize = 0;
    while i < 4
        invariant
            0 <= i <= 4,
            spec_access_in_range(address, byte_enable@),
            wdata_bytes@ == Seq::new(4, |k: int| spec_byte_of(wdata, k)),
            memory@ == (if wenable { spec_write_bytes(m0, address, byte_enable@, wdata, i as int) } else { m0 }),
            forall|k: int| 0 <= k < i ==> rdata_bytes@[k] == spec_access_bytes(m0, address, byte_enable@)[k],
            forall|k: int| i <= k < 4 ==> rdata_bytes@[k] == 0,
        decreases 4 - i,
    {
        if byte_enable[i] {
            let addr = address + i as u32;
            proof {
                if wenable {
                    lemma_write_bytes_elsewhere(m0, address, byte_enable@, wdata, i as int, addr);
                }
            }
            let byte = if wenable {
                match memory.insert(addr, wdata_bytes[i]) {
                    Some(b) => b,
                    None => 0,
                }
            } else {
                match memory.get(&addr) {
                    Some(b) => *b,
                    None => 0,
                }
            };
            rdata_bytes[i] = byte;
        }
        i = i + 1;
    }
    let r = (rdata_bytes[0] as u32) | (rdata_bytes[1] as u32) << 8 | (rdata_bytes[2] as u32) << 16
        | (rdata_bytes[3] as u32) << 24;
    assert(rdata_bytes@ =~= spec_access_bytes(m0, address, byte_enable@));
    Ok(r)
}

/// Reading back the bytes just written gives the enabled bytes of the
/// written word.
pub proof fn law_read_after_write(m: Map<u32, u8>, address: u32, byte_enable: Seq<bool>, wdata: u32)
    requires
        byte_enable.len() == 4,
        spec_access_in_range(address, byte_enable),
    ensures
        spec_access_word(spec_access_memory(m, address, byte_enable, true, wdata), address, byte_enable)
            == spec_le_word(Seq::new(4, |i: int| if byte_enable[i] { spec_byte_of(wdata, i) } else { 0u8 })),
{
    let m2 = spec_access_memory(m, address, byte_enable, true, wdata);
    assert forall|j: int| 0 <= j < 4 && byte_enable[j] implies spec_mem_byte(m2, (address + j) as u32) == spec_byte_of(wdata, j) by {
        lemma_write_bytes_at(m, address, byte_enable, wdata, 4, j);
    }
    assert(spec_access_bytes(m2, address, byte_enable)
        =~= Seq::new(4, |i: int| if byte_enable[i] { spec_byte_of(wdata, i) } else { 0u8 }));
}

/// A write changes no byte outside the enabled bytes it addresses.
pub proof fn law_write_frame(m: Map<u32, u8>, address: u32, byte_enable: Seq<bool>, wdata: u32, a: u32)
    requires
        byte_enable.len() == 4,
        spec_access_in_range(address, byte_enable),
        forall|i: int| 0 <= i < 4 && byte_enable[i] ==> a != address + i,
    ensures
        spec_mem_byte(spec_access_memory(m, address, byte_enable, true, wdata), a) == spec_mem_byte(m, a),
{
    lemma_write_bytes_elsewhere(m, address, byte_enable, wdata, 4, a);
}

/// The four byte enables held in the low bits of `be`.
pub open spec fn spec_byte_enables(be: u8) -> Seq<bool> {
    seq![be & 1u8 != 0u8, be & 2u8 != 0u8, be & 4u8 != 0u8, be & 8u8 != 0u8]
}

/// The state after the fetch stage: when instructions are requested, the
/// word at the fetch address enters the fetch buffer.
pub open spec fn spec_fetch_stage(s: MachineState, imem: Map<u32, u8>) -> MachineState {
    let d = s.pipeline.datapath;
    if d.instr_req_o {
        let word = spec_access_word(imem, d.instr_addr_o, seq![true, true, true, true]);
        MachineState {
            x: s.x,
            csr: s.csr,
            pipeline: CVE2Pipeline {
                IF: word,
                IF_pc: d.instr_addr_o,
                datapath: CVE2Datapath {
                    instr_rdata_i: word,
                    instr_gnt_i: true,
                    instr_rvalid_i: true,
                    instr_err_i: false,
                    ..d
                },
                ..s.pipeline
            },
        }
    } else {
        s
    }
}

/// `s` with no data access requested.
pub open spec fn spec_quiet(s: MachineState) -> MachineState {
    spec_with_datapath(s, CVE2Datapath { data_req_o: false, data_we_o: false, ..s.pipeline.datapath })
}

/// The state after the instruction in the decode buffer executes; a word
/// that encodes no instruction changes nothing.
pub open spec fn spec_execute_stage(s: MachineState) -> MachineState {
    match spec_decode(s.pipeline.ID) {
        Some(isa) => spec_execute(isa, s.pipeline.ID, s),
        None => s,
    }
}

/// The state and data memory after the requested data access, if any.
pub open spec fn spec_memory_stage(s: MachineState, dmem: Map<u32, u8>) -> (MachineState, Map<u32, u8>) {
    let d = s.pipeline.datapath;
    if d.data_req_o {
        let be = spec_byte_enables(d.data_be_o);
        let rdata = spec_access_word(dmem, d.data_addr_o, be);
        (
            spec_with_datapath(s, CVE2Datapath {
                data_rdata_i: rdata,
                data_gnt_i: true,
                data_rvalid_i: true,
                data_err_i: false,
                ..d
            }),
            spec_access_memory(dmem, d.data_addr_o, be, d.data_we_o, d.data_wdata_o),
        )
    } else {
        (s, dmem)
    }
}

/// Whether `isa` loads from memory.
pub open spec fn spec_is_load(isa: ISA) -> bool {
    isa == ISA::LB || isa == ISA::LH || isa == ISA::LW || isa == ISA::LBU || isa == ISA::LHU
}

/// The register value a load produces from the word the memory returned:
/// bytes and half-words are sign- or zero-extended.
pub open spec fn spec_load_value(isa: ISA, r: u32) -> u32 {
    match isa {
        ISA::LB => (((r as u8) as i8) as i32) as u32,
        ISA::LBU => r & 0xFFu32,
        ISA::LH => (((r as u16) as i16) as i32) as u32,
        ISA::LHU => r & 0xFFFFu32,
        _ => r,
    }
}

/// The state after a load writes the returned data to its destination
/// register.
pub open spec fn spec_writeback_stage(s: MachineState) -> MachineState {
    let w = s.pipeline.ID;
    match spec_decode(w) {
        Some(isa) => if spec_is_load(isa) && s.pipeline.datapath.data_req_o {
            spec_with_reg(s, spec_rd(w), spec_load_value(isa, s.pipeline.datapath.data_rdata_i))
        } else {
            s
        },
        None => s,
    }
}

/// The state after the pipeline advances. When fetching is enabled the
/// fetched word moves into decode and the fetch address steps by four;
/// when the executed instruction moved the fetch address (a taken jump or
/// branch), the word fetched from the old address is dropped instead and
/// decode holds an empty slot.
pub open spec fn spec_advance_stage(s: MachineState, fetch_addr: u32) -> MachineState {
    let p = s.pipeline;
    if p.datapath.fetch_enable_i {
        if p.datapath.instr_addr_o != fetch_addr {
            MachineState { x: s.x, csr: s.csr, pipeline: CVE2Pipeline { ID: 0, ID_pc: p.datapath.instr_addr_o, ..p } }
        } else {
            MachineState {
                x: s.x,
                csr: s.csr,
                pipeline: CVE2Pipeline {
                    ID: p.IF,
                    ID_pc: p.IF_pc,
                    datapath: CVE2Datapath { instr_addr_o: (p.datapath.instr_addr_o + 4) as u32, ..p.datapath },
                    ..p
                },
            }
        }
    } else {
        s
    }
}

/// The state and data memory after one clock cycle.
pub open spec fn spec_clock(s: MachineState, imem: Map<u32, u8>, dmem: Map<u32, u8>) -> (MachineState, Map<u32, u8>) {
    let s1 = spec_quiet(spec_fetch_stage(s, imem));
    let s2 = spec_execute_stage(s1);
    let (s3, d3) = spec_memory_stage(s2, dmem);
    (spec_advance_stage(spec_writeback_stage(s3), s1.pipeline.datapath.instr_addr_o), d3)
}

/// Whether a clock cycle from `s` runs into something the core cannot do:
/// a fetch or data access past the end of the address space, an
/// instruction whose handler faults, or a fetch address that would step
/// past the end of the address space.
pub open spec fn spec_clock_faults(s: MachineState, imem: Map<u32, u8>) -> bool {
    let s1 = spec_quiet(spec_fetch_stage(s, imem));
    let s2 = spec_execute_stage(s1);
    let d2 = s2.pipeline.datapath;
    ||| s.pipeline.datapath.instr_req_o && s.pipeline.datapath.instr_addr_o > u32::MAX - 3
    ||| (match spec_decode(s1.pipeline.ID) {
        Some(isa) => spec_handler_faults(isa, s1.pipeline.ID, s1),
        None => false,
    })
    ||| d2.data_req_o && !spec_access_in_range(d2.data_addr_o, spec_byte_enables(d2.data_be_o))
    ||| d2.fetch_enable_i && d2.instr_addr_o == s1.pipeline.datapath.instr_addr_o && d2.instr_addr_o
        > u32::MAX - 4
}

/// Whether the handler of `isa` would fault on `instr` in `state`.
pub fn handler_faults(isa: ISA, instr: &Instruction, state: &EmulatorState) -> (r: bool)
    ensures
        r == spec_handler_faults(isa, instr@, state@),
{
    match isa {
        ISA::JAL => relative_target_faults(state.pipeline.ID_pc, instr.decode_immediate(InstructionFormat::J)),
        ISA::BEQ | ISA::BNE | ISA::BLT | ISA::BGE | ISA::BLTU | ISA::BGEU =>
            relative_target_faults(state.pipeline.ID_pc, instr.decode_immediate(InstructionFormat::B)),
        ISA::JALR => {
            let target = state.x.read(instr.rs1() as usize).wrapping_add_signed(
                instr.decode_immediate(InstructionFormat::I),
            ) & 0xFFFF_FFFE;
            proof { crate::bits::lemma_low_two_bits(target); }
            target & 3 != 0
        },
        ISA::ECALL | ISA::EBREAK => true,
        _ => false,
    }
}

fn relative_target_faults(pc: u32, offset: i32) -> (r: bool)
    ensures
        r == spec_bad_target(pc + offset),
{
    match pc.checked_add_signed(offset) {
        None => true,
        Some(target) => {
            proof { crate::bits::lemma_low_two_bits(target); }
            target & 3 != 0
        },
    }
}

fn byte_enables(be: u8) -> (r: [bool; 4])
    ensures
        r@ == spec_byte_enables(be),
{
    let r = [be & 1 != 0, be & 2 != 0, be & 4 != 0, be & 8 != 0];
    assert(r@ =~= spec_byte_enables(be));
    r
}

fn access_in_range(address: u32, byte_enable: &[bool; 4]) -> (r: bool)
    ensures
        r == spec_access_in_range(address, byte_enable@),
{
    let mut i: usize = 0;
    while i < 4
        invariant
            i <= 4,
            forall|k: int| 0 <= k < i && byte_enable@[k] ==> address + k <= u32::MAX,
        decreases 4 - i,
    {
        if byte_enable[i] && address > u32::MAX - (i as u32) {
            return false;
        }
        i = i + 1;
    }
    true
}

fn load_value(isa: ISA, r: u32) -> (v: u32)
    ensures
        v == spec_load_value(isa, r),
{
    match isa {
        ISA::LB => (((r as u8) as i8) as i32) as u32,
        ISA::LBU => r & 0xFF,
        ISA::LH => (((r as u16) as i16) as i32) as u32,
        ISA::LHU => r & 0xFFFF,
        _ => r,
    }
}

fn fetch_stage(state: &mut EmulatorState, instruction_memory: &mut BTreeMap<u32, u8>)
    requires
        !(old(state).pipeline.datapath.instr_req_o && old(state).pipeline.datapath.instr_addr_o > u32::MAX - 3),
    ensures
        final(state)@ == spec_quiet(spec_fetch_stage(old(state)@, old(instruction_memory)@)),
        final(instruction_memory)@ == old(instruction_memory)@,
{
    if state.pipeline.datapath.instr_req_o {
        let address = state.pipeline.datapath.instr_addr_o;
        let all: [bool; 4] = [true, true, true, true];
        assert(all@ =~= seq![true, true, true, true]);
        let word = rw_memory(instruction_memory, address, all, false, 0);
        match word {
            Ok(instr) => {
                state.pipeline = CVE2Pipeline {
                    IF: instr,
                    IF_pc: address,
                    datapath: CVE2Datapath {
                        instr_rdata_i: instr,
                        instr_gnt_i: true,
                        instr_rvalid_i: true,
                        instr_err_i: false,
                        ..state.pipeline.datapath
                    },
                    ..state.pipeline
                };
            },
            Err(_) => {
                state.pipeline.datapath = CVE2Datapath {
                    instr_gnt_i: true,
                    instr_rvalid_i: false,
                    instr_err_i: true,
                    ..state.pipeline.datapath
                };
            },
        }
    }
    state.pipeline.datapath = CVE2Datapath { data_req_o: false, data_we_o: false, ..state.pipeline.datapath };
}

/// Executes the instruction in the decode buffer; `true` (leaving the state
/// as it was) where its handler would fault.
fn execute_stage(state: &mut EmulatorState) -> (faulted: bool)
    ensures
        faulted == (match spec_decode(old(state)@.pipeline.ID) {
            Some(isa) => spec_handler_faults(isa, old(state)@.pipeline.ID, old(state)@),
            None => false,
        }),
        !faulted ==> final(state)@ == spec_execute_stage(old(state)@),
{
    let instr = Instruction::from_raw(state.pipeline.ID);
    match get_handler(instr) {
        Ok(isa) => {
            if handler_faults(isa, &instr, state) {
                return true;
            }
            execute(isa, &instr, state);
            false
        },
        Err(()) => false,
    }
}

fn memory_stage(state: &mut EmulatorState, data_memory: &mut BTreeMap<u32, u8>)
    requires
        old(state).pipeline.datapath.data_req_o ==> spec_access_in_range(
            old(state).pipeline.datapath.data_addr_o,
            spec_byte_enables(old(state).pipeline.datapath.data_be_o),
        ),
    ensures
        (final(state)@, final(data_memory)@) == spec_memory_stage(old(state)@, old(data_memory)@),
{
    if state.pipeline.datapath.data_req_o {
        let d = state.pipeline.datapath;
        let be = byte_enables(d.data_be_o);
        match rw_memory(data_memory, d.data_addr_o, be, d.data_we_o, d.data_wdata_o) {
            Ok(rdata) => {
                state.pipeline.datapath = CVE2Datapath {
                    data_rdata_i: rdata,
                    data_gnt_i: true,
                    data_rvalid_i: true,
                    data_err_i: false,
                    ..state.pipeline.datapath
                };
            },
            Err(_) => {
                state.pipeline.datapath = CVE2Datapath {
                    data_gnt_i: true,
                    data_rvalid_i: false,
                    data_err_i: true,
                    ..state.pipeline.datapath
                };
            },
        }
    }
}

fn writeback_stage(state: &mut EmulatorState)
    ensures
        final(state)@ == spec_writeback_stage(old(state)@),
{
    let instr = Instruction::from_raw(state.pipeline.ID);
    if let Ok(isa) = get_handler(instr) {
        if (isa == ISA::LB || isa == ISA::LH || isa == ISA::LW || isa == ISA::LBU || isa == ISA::LHU)
            && state.pipeline.datapath.data_req_o {
            let value = load_value(isa, state.pipeline.datapath.data_rdata_i);
            state.x.write(instr.rd() as usize, value);
        }
    }
}

fn advance_stage(state: &mut EmulatorState, fetch_address: u32)
    requires
        !(old(state).pipeline.datapath.fetch_enable_i && old(state).pipeline.datapath.instr_addr_o == fetch_address
            && fetch_address > u32::MAX - 4),
    ensures
        final(state)@ == spec_advance_stage(old(state)@, fetch_address),
{
    if state.pipeline.datapath.fetch_enable_i {
        if state.pipeline.datapath.instr_addr_o != fetch_address {
            state.pipeline = CVE2Pipeline { ID: 0, ID_pc: state.pipeline.datapath.instr_addr_o, ..state.pipeline };
        } else {
            state.pipeline = CVE2Pipeline {
                ID: state.pipeline.IF,
                ID_pc: state.pipeline.IF_pc,
                datapath: CVE2Datapath {
                    instr_addr_o: state.pipeline.datapath.instr_addr_o + 4,
                    ..state.pipeline.datapath
                },
                ..state.pipeline
            };
        }
    }
}

/// Advances the emulator by one clock cycle over the program's memories:
/// fetch, execute, memory access, write-back, and the step to the next
/// instruction. Where the cycle would fault (see `spec_clock_faults`) it
/// gives `None` and leaves the program as it was.
pub fn clock_checked(org_state: &EmulatorState, program: &mut AssembledProgram) -> (r: Option<EmulatorState>)
    ensures
        final(program).instruction_memory@ == old(program).instruction_memory@,
        final(program).source_map == old(program).source_map,
        final(program).labels == old(program).labels,
        spec_clock_faults(org_state@, old(program).instruction_memory@) ==> r is None
            && final(program).data_memory@ == old(program).data_memory@,
        !spec_clock_faults(org_state@, old(program).instruction_memory@) ==> r is Some && (r->0@, final(program).data_memory@)
            == spec_clock(org_state@, old(program).instruction_memory@, old(program).data_memory@),
{
    let ghost imem = program.instruction_memory@;
    let ghost dmem = program.data_memory@;
    let ghost s1 = spec_quiet(spec_fetch_stage(org_state@, imem));
    let ghost s2 = spec_execute_stage(s1);
    let mut next_state = copy_state(org_state);
    if next_state.pipeline.datapath.instr_req_o && next_state.pipeline.datapath.instr_addr_o > u32::MAX - 3 {
        return None;
    }
    fetch_stage(&mut next_state, &mut program.instruction_memory);
    assert(next_state@ == s1);
    let fetch_address = next_state.pipeline.datapath.instr_addr_o;
    if execute_stage(&mut next_state) {
        return None;
    }
    assert(next_state@ == s2);
    let be = byte_enables(next_state.pipeline.datapath.data_be_o);
    if next_state.pipeline.datapath.data_req_o && !access_in_range(next_state.pipeline.datapath.data_addr_o, &be) {
        return None;
    }
    if next_state.pipeline.datapath.fetch_enable_i && next_state.pipeline.datapath.instr_addr_o == fetch_address
        && fetch_address > u32::MAX - 4 {
        return None;
    }
    memory_stage(&mut next_state, &mut program.data_memory);
    let ghost s3 = next_state@;
    assert((s3, program.data_memory@) == spec_memory_stage(s2, dmem));
    writeback_stage(&mut next_state);
    advance_stage(&mut next_state, fetch_address);
    assert((next_state@, program.data_memory@) == spec_clock(org_state@, imem, dmem));
    Some(next_state)
}

/// Advances the emulator by one clock cycle over the program's memories,
/// on a state and program where the cycle does not fault.
pub fn clock(org_state: &EmulatorState, program: &mut AssembledProgram) -> (r: EmulatorState)
    requires
        !spec_clock_faults(org_state@, old(program).instruction_memory@),
    ensures
        final(program).instruction_memory@ == old(program).instruction_memory@,
        final(program).source_map == old(program).source_map,
        final(program).labels == old(program).labels,
        (r@, final(program).data_memory@) == spec_clock(org_state@, old(program).instruction_memory@, old(program).data_memory@),
{
    match clock_checked(org_state, program) {
        Some(next_state) => next_state,
        None => {
            proof { assert(false); }
            copy_state(org_state)
        },
    }
}

/// A history of emulator states, the latest last.
pub struct Emulator {
    pub states: Vec<EmulatorState>,
}

impl Emulator {
    /// Executes `instruction` on the latest state and appends the state it
    /// leads to; an instruction that decodes to nothing leaves the state as
    /// it was, and that state is appended again.
    pub fn decode(&mut self, instruction: Instruction)
        requires
            old(self).states@.len() > 0,
            match spec_decode(instruction@) {
                Some(isa) => !spec_handler_faults(isa, instruction@, old(self).states@.last()@),
                None => true,
            },
        ensures
            final(self).states@.len() == old(self).states@.len() + 1,
            final(self).states@.subrange(0, old(self).states@.len() as int) == old(self).states@,
            final(self).states@.last()@ == match spec_decode(instruction@) {
                Some(isa) => spec_execute(isa, instruction@, old(self).states@.last()@),
                None => old(self).states@.last()@,
            },
    {
        let last = self.states.len() - 1;
        let mut next_state = copy_state(&self.states[last]);
        match get_handler(instruction) {
            Err(()) => {},
            Ok(isa) => execute(isa, &instruction, &mut next_state),
        }
        self.states.push(next_state);
        assert(self.states@.subrange(0, old(self).states@.len() as int) =~= old(self).states@);
    }
}

proof fn lemma_execute_keeps_fetch(s1: MachineState)
    ensures
        spec_execute_stage(s1).pipeline.IF == s1.pipeline.IF,
        spec_execute_stage(s1).pipeline.IF_pc == s1.pipeline.IF_pc,
{
}

proof fn lemma_advance_after(s2: MachineState, fetch_addr: u32, dmem: Map<u32, u8>)
    ensures
        ({
            let next = spec_advance_stage(spec_writeback_stage(spec_memory_stage(s2, dmem).0), fetch_addr);
            s2.pipeline.datapath.fetch_enable_i ==> if s2.pipeline.datapath.instr_addr_o != fetch_addr {
                &&& next.pipeline.ID == 0
                &&& next.pipeline.ID_pc == s2.pipeline.datapath.instr_addr_o
                &&& next.pipeline.datapath.instr_addr_o == s2.pipeline.datapath.instr_addr_o
            } else {
                &&& next.pipeline.ID == s2.pipeline.IF
                &&& next.pipeline.ID_pc == s2.pipeline.IF_pc
                &&& next.pipeline.datapath.instr_addr_o == (fetch_addr + 4) as u32
            }
        }),
{
    let s3 = spec_memory_stage(s2, dmem).0;
    assert(s3.pipeline.IF == s2.pipeline.IF && s3.pipeline.IF_pc == s2.pipeline.IF_pc
        && s3.pipeline.datapath.instr_addr_o == s2.pipeline.datapath.instr_addr_o
        && s3.pipeline.datapath.fetch_enable_i == s2.pipeline.datapath.fetch_enable_i);
    let s4 = spec_writeback_stage(s3);
    assert(s4.pipeline == s3.pipeline);
}

/// Without branch prediction: when the instruction executed in a cycle
/// moves the fetch address (a taken jump or branch), the word fetched in
/// that cycle is dropped and decode holds an empty slot at the new address;
/// otherwise decode takes the fetched word and fetching steps on by four.
pub proof fn law_clock_advance(s: MachineState, imem: Map<u32, u8>, dmem: Map<u32, u8>)
    ensures
        ({
            let s1 = spec_quiet(spec_fetch_stage(s, imem));
            let s2 = spec_execute_stage(s1);
            let next = spec_clock(s, imem, dmem).0;
            s2.pipeline.datapath.fetch_enable_i ==> if s2.pipeline.datapath.instr_addr_o != s1.pipeline.datapath.instr_addr_o {
                &&& next.pipeline.ID == 0
                &&& next.pipeline.ID_pc == s2.pipeline.datapath.instr_addr_o
                &&& next.pipeline.datapath.instr_addr_o == s2.pipeline.datapath.instr_addr_o
            } else {
                &&& next.pipeline.ID == s1.pipeline.IF
                &&& next.pipeline.ID_pc == s1.pipeline.IF_pc
                &&& next.pipeline.datapath.instr_addr_o == (s1.pipeline.datapath.instr_addr_o + 4) as u32
            }
        }),
{
    let s1 = spec_quiet(spec_fetch_stage(s, imem));
    let s2 = spec_execute_stage(s1);
    lemma_execute_keeps_fetch(s1);
    lemma_advance_after(s2, s1.pipeline.datapath.instr_addr_o, dmem);
}

/// A load writes to its destination register the data the memory
/// returned, extended to 32 bits: LB and LH copy the sign bit (bit 7 or 15)
/// into every higher bit, LBU and LHU fill them with zeros, and LW takes
/// the whole word.
pub proof fn law_load_writeback(s: MachineState)
    requires
        s.x.len() == 32,
        s.pipeline.datapath.data_req_o,
        spec_decode(s.pipeline.ID) matches Some(isa) && spec_is_load(isa),
        spec_rd(s.pipeline.ID) != 0,
    ensures
        ({
            let r = s.pipeline.datapath.data_rdata_i;
            let v = handlers::spec_reg(spec_writeback_stage(s), spec_rd(s.pipeline.ID));
            let byte = r % 256;
            let half = r % 65536;
            match spec_decode(s.pipeline.ID)->0 {
                ISA::LB => v == if byte < 128 { byte as int } else { byte + 0xFFFF_FF00 },
                ISA::LBU => v == byte,
                ISA::LH => v == if half < 0x8000 { half as int } else { half + 0xFFFF_0000 },
                ISA::LHU => v == half,
                _ => v == r,
            }
        }),
{
    let r = s.pipeline.datapath.data_rdata_i;
    crate::isa::instruction::lemma_field_ranges(s.pipeline.ID);
    assert({
        &&& (((r as u8) as i8) as i32) as u32 == if r % 256 < 128 { r % 256 } else { ((r % 256) + 0xFFFF_FF00u32) as u32 }
        &&& r & 0xFFu32 == r % 256
        &&& (((r as u16) as i16) as i32) as u32 == if r % 65536 < 0x8000 { r % 65536 } else { ((r % 65536) + 0xFFFF_0000u32) as u32 }
        &&& r & 0xFFFFu32 == r % 65536
    }) by (bit_vector);
}

/// The byte enables of one, two and four bytes, and the word that four
/// little-endian bytes make.
proof fn lemma_enables_and_bytes(b0: u8, b1: u8, b2: u8, b3: u8)
    ensures
        spec_byte_enables(0x1) == seq![true, false, false, false],
        spec_byte_enables(0x3) == seq![true, true, false, false],
        spec_byte_enables(0xF) == seq![true, true, true, true],
        spec_le_word(seq![b0, b1, b2, b3]) == b0 + 256 * b1 + 65536 * b2 + 16777216 * b3,
{
    assert({
        &&& (1u8 & 1u8 != 0u8) && !(1u8 & 2u8 != 0u8) && !(1u8 & 4u8 != 0u8) && !(1u8 & 8u8 != 0u8)
        &&& (3u8 & 1u8 != 0u8) && (3u8 & 2u8 != 0u8) && !(3u8 & 4u8 != 0u8) && !(3u8 & 8u8 != 0u8)
        &&& (15u8 & 1u8 != 0u8) && (15u8 & 2u8 != 0u8) && (15u8 & 4u8 != 0u8) && (15u8 & 8u8 != 0u8)
        &&& (b0 as u32) | (((b1 as u32) << 8u32) as u32) | (((b2 as u32) << 16u32) as u32) | (((b3 as u32) << 24u32)
            as u32) == b0 + 256 * b1 + 65536 * b2 + 16777216 * b3
    }) by (bit_vector);
    assert(spec_byte_enables(0x1) =~= seq![true, false, false, false]);
    assert(spec_byte_enables(0x3) =~= seq![true, true, false, false]);
    assert(spec_byte_enables(0xF) =~= seq![true, true, true, true]);
}

/// A clock cycle that executes a load brings data memory into the
/// destination register: the byte (LB, LBU), the little-endian half-word
/// (LH, LHU) or word (LW) at the first source plus the immediate, modulo
/// 2^32, sign-extended by LB and LH and zero-extended by LBU and LHU.
/// Absent bytes read as zero.
#[verifier::spinoff_prover]
#[verifier::rlimit(60)]
pub proof fn law_load_cycle(s: MachineState, imem: Map<u32, u8>, dmem: Map<u32, u8>)
    requires
        s.x.len() == 32,
        spec_decode(s.pipeline.ID) matches Some(isa) && spec_is_load(isa),
        spec_rd(s.pipeline.ID) != 0,
    ensures
        ({
            let w = s.pipeline.ID;
            let a = (handlers::spec_reg(s, crate::isa::instruction::spec_rs1(w))
                + crate::isa::instruction::spec_immediate(w, InstructionFormat::I) + 0x1_0000_0000) % 0x1_0000_0000;
            let byte = |i: int| spec_mem_byte(dmem, (a + i) as u32) as int;
            let half = byte(0) + 256 * byte(1);
            let v = handlers::spec_reg(spec_clock(s, imem, dmem).0, spec_rd(w)) as int;
            match spec_decode(w)->0 {
                ISA::LB => v == if byte(0) < 128 { byte(0) } else { byte(0) + 0xFFFF_FF00 },
                ISA::LBU => v == byte(0),
                ISA::LH => v == if half < 0x8000 { half } else { half + 0xFFFF_0000 },
                ISA::LHU => v == half,
                _ => v == half + 65536 * byte(2) + 16777216 * byte(3),
            }
        }),
{
    let w = s.pipeline.ID;
    let isa = spec_decode(w)->0;
    let s1 = spec_quiet(spec_fetch_stage(s, imem));
    let s2 = spec_execute_stage(s1);
    let (s3, d3) = spec_memory_stage(s2, dmem);
    assert(s1.x == s.x && s1.pipeline.ID == w);
    handlers::law_memory_requests(w, s1);
    assert(s2 == handlers::spec_execute(isa, w, s1));
    let a = s2.pipeline.datapath.data_addr_o;
    let b0 = spec_mem_byte(dmem, a);
    let b1 = spec_mem_byte(dmem, (a + 1) as u32);
    let b2 = spec_mem_byte(dmem, (a + 2) as u32);
    let b3 = spec_mem_byte(dmem, (a + 3) as u32);
    lemma_enables_and_bytes(b0, 0, 0, 0);
    lemma_enables_and_bytes(b0, b1, 0, 0);
    lemma_enables_and_bytes(b0, b1, b2, b3);
    let be = spec_byte_enables(s2.pipeline.datapath.data_be_o);
    let r = s3.pipeline.datapath.data_rdata_i;
    assert(r == spec_le_word(spec_access_bytes(dmem, a, be)));
    if isa == ISA::LB || isa == ISA::LBU {
        assert(spec_access_bytes(dmem, a, be) =~= seq![b0, 0u8, 0u8, 0u8]);
    } else if isa == ISA::LH || isa == ISA::LHU {
        assert(spec_access_bytes(dmem, a, be) =~= seq![b0, b1, 0u8, 0u8]);
    } else {
        assert(spec_access_bytes(dmem, a, be) =~= seq![b0, b1, b2, b3]);
    }
    assert(s3.x == s.x && s3.pipeline.ID == w && s3.pipeline.datapath.data_req_o);
    law_load_writeback(s3);
    let s4 = spec_writeback_stage(s3);
    assert(spec_advance_stage(s4, s1.pipeline.datapath.instr_addr_o).x == s4.x);
}

} // verus!
