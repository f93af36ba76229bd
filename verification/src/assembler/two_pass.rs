//! A self-contained two-pass assembler for RV32I source text: the first
//! pass assigns an address to every instruction line and records labels,
//! the second encodes each instruction.
use std::collections::BTreeMap;
use vstd::prelude::*;

use crate::assembler::parse::{spec_clean_line, spec_register};
use crate::bits::spec_bits;
use crate::isa::instruction::{
    law_encode_b_fields, law_encode_i_fields, law_encode_j_fields, law_encode_r_fields, law_encode_s_fields,
    law_encode_u_fields, spec_encode_b, spec_encode_i, spec_encode_j, spec_encode_r, spec_encode_s, spec_encode_u,
    spec_funct3, spec_funct7, spec_opcode, spec_rd, spec_rs1, spec_rs2,
};
use crate::isa::InstructionFormat;
use crate::labels::LabelMap;
use crate::text::{
    chars_to_string, lines, parse_i32, push_chars, push_str, radix_chars, slice_chars, spec_lines, spec_parse_i32,
    spec_radix_chars, spec_tokens, spec_trim, spec_views, starts_with_str, str_to_chars, to_uppercase, tokens, trim,
    spec_uppercase, Separator,
};

verus! {

/// The encoding format of an instruction.
#[derive(Debug, Clone, Copy, PartialEq, Eq, Structural)]
pub enum Format {
    R,
    I,
    S,
    B,
    U,
    J,
}

/// The fixed fields of an instruction.
#[derive(Debug, Clone, Copy)]
pub struct InstructionInfo {
    pub format: Format,
    pub opcode: u32,
    pub funct3: Option<u32>,
    pub funct7: Option<u32>,
}

/// The instructions this assembler knows, by mnemonic.
pub open spec fn spec_instruction_table() -> Seq<(Seq<char>, InstructionInfo)> {
    seq![
        ("ADD"@, InstructionInfo { format: Format::R, opcode: 0b0110011, funct3: Some(0x0u32), funct7: Some(0x00u32) }),
        ("SUB"@, InstructionInfo { format: Format::R, opcode: 0b0110011, funct3: Some(0x0u32), funct7: Some(0x20u32) }),
        ("SLT"@, InstructionInfo { format: Format::R, opcode: 0b0110011, funct3: Some(0x2u32), funct7: Some(0x00u32) }),
        ("SLTU"@, InstructionInfo { format: Format::R, opcode: 0b0110011, funct3: Some(0x3u32), funct7: Some(0x00u32) }),
        ("AND"@, InstructionInfo { format: Format::R, opcode: 0b0110011, funct3: Some(0x7u32), funct7: Some(0x00u32) }),
        ("OR"@, InstructionInfo { format: Format::R, opcode: 0b0110011, funct3: Some(0x6u32), funct7: Some(0x00u32) }),
        ("XOR"@, InstructionInfo { format: Format::R, opcode: 0b0110011, funct3: Some(0x4u32), funct7: Some(0x00u32) }),
        ("SLL"@, InstructionInfo { format: Format::R, opcode: 0b0110011, funct3: Some(0x1u32), funct7: Some(0x00u32) }),
        ("SRL"@, InstructionInfo { format: Format::R, opcode: 0b0110011, funct3: Some(0x5u32), funct7: Some(0x00u32) }),
        ("SRA"@, InstructionInfo { format: Format::R, opcode: 0b0110011, funct3: Some(0x5u32), funct7: Some(0x20u32) }),
        ("ADDI"@, InstructionInfo { format: Format::I, opcode: 0b0010011, funct3: Some(0x0u32), funct7: None }),
        ("SLTI"@, InstructionInfo { format: Format::I, opcode: 0b0010011, funct3: Some(0x2u32), funct7: None }),
        ("SLTIU"@, InstructionInfo { format: Format::I, opcode: 0b0010011, funct3: Some(0x3u32), funct7: None }),
        ("ANDI"@, InstructionInfo { format: Format::I, opcode: 0b0010011, funct3: Some(0x7u32), funct7: None }),
        ("ORI"@, InstructionInfo { format: Format::I, opcode: 0b0010011, funct3: Some(0x6u32), funct7: None }),
        ("XORI"@, InstructionInfo { format: Format::I, opcode: 0b0010011, funct3: Some(0x4u32), funct7: None }),
        ("SLLI"@, InstructionInfo { format: Format::I, opcode: 0b0010011, funct3: Some(0x1u32), funct7: Some(0x00u32) }),
        ("SRLI"@, InstructionInfo { format: Format::I, opcode: 0b0010011, funct3: Some(0x5u32), funct7: Some(0x00u32) }),
        ("SRAI"@, InstructionInfo { format: Format::I, opcode: 0b0010011, funct3: Some(0x5u32), funct7: Some(0x20u32) }),
        ("JALR"@, InstructionInfo { format: Format::I, opcode: 0b1100111, funct3: Some(0x0u32), funct7: None }),
        ("LW"@, InstructionInfo { format: Format::I, opcode: 0b0000011, funct3: Some(0x2u32), funct7: None }),
        ("LH"@, InstructionInfo { format: Format::I, opcode: 0b0000011, funct3: Some(0x1u32), funct7: None }),
        ("LHU"@, InstructionInfo { format: Format::I, opcode: 0b0000011, funct3: Some(0x5u32), funct7: None }),
        ("LB"@, InstructionInfo { format: Format::I, opcode: 0b0000011, funct3: Some(0x0u32), funct7: None }),
        ("LBU"@, InstructionInfo { format: Format::I, opcode: 0b0000011, funct3: Some(0x4u32), funct7: None }),
        ("FENCE"@, InstructionInfo { format: Format::I, opcode: 0b0001111, funct3: Some(0x0u32), funct7: None }),
        ("ECALL"@, InstructionInfo { format: Format::I, opcode: 0b1110011, funct3: Some(0x0u32), funct7: None }),
        ("EBREAK"@, InstructionInfo { format: Format::I, opcode: 0b1110011, funct3: Some(0x0u32), funct7: None }),
        ("SW"@, InstructionInfo { format: Format::S, opcode: 0b0100011, funct3: Some(0x2u32), funct7: None }),
        ("SH"@, InstructionInfo { format: Format::S, opcode: 0b0100011, funct3: Some(0x1u32), funct7: None }),
        ("SB"@, InstructionInfo { format: Format::S, opcode: 0b0100011, funct3: Some(0x0u32), funct7: None }),
        ("BEQ"@, InstructionInfo { format: Format::B, opcode: 0b1100011, funct3: Some(0x0u32), funct7: None }),
        ("BNE"@, InstructionInfo { format: Format::B, opcode: 0b1100011, funct3: Some(0x1u32), funct7: None }),
        ("BLT"@, InstructionInfo { format: Format::B, opcode: 0b1100011, funct3: Some(0x4u32), funct7: None }),
        ("BLTU"@, InstructionInfo { format: Format::B, opcode: 0b1100011, funct3: Some(0x6u32), funct7: None }),
        ("BGE"@, InstructionInfo { format: Format::B, opcode: 0b1100011, funct3: Some(0x5u32), funct7: None }),
        ("BGEU"@, InstructionInfo { format: Format::B, opcode: 0b1100011, funct3: Some(0x7u32), funct7: None }),
        ("LUI"@, InstructionInfo { format: Format::U, opcode: 0b0110111, funct3: None, funct7: None }),
        ("AUIPC"@, InstructionInfo { format: Format::U, opcode: 0b0010111, funct3: None, funct7: None }),
        ("JAL"@, InstructionInfo { format: Format::J, opcode: 0b1101111, funct3: None, funct7: None })
    ]
}

/// The first entry named `name` in `entries`.
pub open spec fn spec_find_info(entries: Seq<(Seq<char>, InstructionInfo)>, name: Seq<char>) -> Option<InstructionInfo>
    decreases entries.len(),
{
    if entries.len() == 0 {
        None
    } else if entries[0].0 == name {
        Some(entries[0].1)
    } else {
        spec_find_info(entries.drop_first(), name)
    }
}

/// The instructions this assembler knows.
struct InstructionSet {
    instructions: Vec<(&'static str, InstructionInfo)>,
}

impl InstructionSet {
    closed spec fn entries(&self) -> Seq<(Seq<char>, InstructionInfo)> {
        self.instructions@.map_values(|e: (&'static str, InstructionInfo)| (e.0@, e.1))
    }

    fn new() -> (r: Self)
        ensures
            r.entries() == spec_instruction_table(),
    {
        let mut instructions: Vec<(&'static str, InstructionInfo)> = Vec::new();
        instructions.push(("ADD", InstructionInfo { format: Format::R, opcode: 0b0110011, funct3: Some(0x0u32), funct7: Some(0x00u32) }));
        instructions.push(("SUB", InstructionInfo { format: Format::R, opcode: 0b0110011, funct3: Some(0x0u32), funct7: Some(0x20u32) }));
        instructions.push(("SLT", InstructionInfo { format: Format::R, opcode: 0b0110011, funct3: Some(0x2u32), funct7: Some(0x00u32) }));
        instructions.push(("SLTU", InstructionInfo { format: Format::R, opcode: 0b0110011, funct3: Some(0x3u32), funct7: Some(0x00u32) }));
        instructions.push(("AND", InstructionInfo { format: Format::R, opcode: 0b0110011, funct3: Some(0x7u32), funct7: Some(0x00u32) }));
        instructions.push(("OR", InstructionInfo { format: Format::R, opcode: 0b0110011, funct3: Some(0x6u32), funct7: Some(0x00u32) }));
        instructions.push(("XOR", InstructionInfo { format: Format::R, opcode: 0b0110011, funct3: Some(0x4u32), funct7: Some(0x00u32) }));
        instructions.push(("SLL", InstructionInfo { format: Format::R, opcode: 0b0110011, funct3: Some(0x1u32), funct7: Some(0x00u32) }));
        instructions.push(("SRL", InstructionInfo { format: Format::R, opcode: 0b0110011, funct3: Some(0x5u32), funct7: Some(0x00u32) }));
        instructions.push(("SRA", InstructionInfo { format: Format::R, opcode: 0b0110011, funct3: Some(0x5u32), funct7: Some(0x20u32) }));
        instructions.push(("ADDI", InstructionInfo { format: Format::I, opcode: 0b0010011, funct3: Some(0x0u32), funct7: None }));
        instructions.push(("SLTI", InstructionInfo { format: Format::I, opcode: 0b0010011, funct3: Some(0x2u32), funct7: None }));
        instructions.push(("SLTIU", InstructionInfo { format: Format::I, opcode: 0b0010011, funct3: Some(0x3u32), funct7: None }));
        instructions.push(("ANDI", InstructionInfo { format: Format::I, opcode: 0b0010011, funct3: Some(0x7u32), funct7: None }));
        instructions.push(("ORI", InstructionInfo { format: Format::I, opcode: 0b0010011, funct3: Some(0x6u32), funct7: None }));
        instructions.push(("XORI", InstructionInfo { format: Format::I, opcode: 0b0010011, funct3: Some(0x4u32), funct7: None }));
        instructions.push(("SLLI", InstructionInfo { format: Format::I, opcode: 0b0010011, funct3: Some(0x1u32), funct7: Some(0x00u32) }));
        instructions.push(("SRLI", InstructionInfo { format: Format::I, opcode: 0b0010011, funct3: Some(0x5u32), funct7: Some(0x00u32) }));
        instructions.push(("SRAI", InstructionInfo { format: Format::I, opcode: 0b0010011, funct3: Some(0x5u32), funct7: Some(0x20u32) }));
        instructions.push(("JALR", InstructionInfo { format: Format::I, opcode: 0b1100111, funct3: Some(0x0u32), funct7: None }));
        instructions.push(("LW", InstructionInfo { format: Format::I, opcode: 0b0000011, funct3: Some(0x2u32), funct7: None }));
        instructions.push(("LH", InstructionInfo { format: Format::I, opcode: 0b0000011, funct3: Some(0x1u32), funct7: None }));
        instructions.push(("LHU", InstructionInfo { format: Format::I, opcode: 0b0000011, funct3: Some(0x5u32), funct7: None }));
        instructions.push(("LB", InstructionInfo { format: Format::I, opcode: 0b0000011, funct3: Some(0x0u32), funct7: None }));
        instructions.push(("LBU", InstructionInfo { format: Format::I, opcode: 0b0000011, funct3: Some(0x4u32), funct7: None }));
        instructions.push(("FENCE", InstructionInfo { format: Format::I, opcode: 0b0001111, funct3: Some(0x0u32), funct7: None }));
        instructions.push(("ECALL", InstructionInfo { format: Format::I, opcode: 0b1110011, funct3: Some(0x0u32), funct7: None }));
        instructions.push(("EBREAK", InstructionInfo { format: Format::I, opcode: 0b1110011, funct3: Some(0x0u32), funct7: None }));
        instructions.push(("SW", InstructionInfo { format: Format::S, opcode: 0b0100011, funct3: Some(0x2u32), funct7: None }));
        instructions.push(("SH", InstructionInfo { format: Format::S, opcode: 0b0100011, funct3: Some(0x1u32), funct7: None }));
        instructions.push(("SB", InstructionInfo { format: Format::S, opcode: 0b0100011, funct3: Some(0x0u32), funct7: None }));
        instructions.push(("BEQ", InstructionInfo { format: Format::B, opcode: 0b1100011, funct3: Some(0x0u32), funct7: None }));
        instructions.push(("BNE", InstructionInfo { format: Format::B, opcode: 0b1100011, funct3: Some(0x1u32), funct7: None }));
        instructions.push(("BLT", InstructionInfo { format: Format::B, opcode: 0b1100011, funct3: Some(0x4u32), funct7: None }));
        instructions.push(("BLTU", InstructionInfo { format: Format::B, opcode: 0b1100011, funct3: Some(0x6u32), funct7: None }));
        instructions.push(("BGE", InstructionInfo { format: Format::B, opcode: 0b1100011, funct3: Some(0x5u32), funct7: None }));
        instructions.push(("BGEU", InstructionInfo { format: Format::B, opcode: 0b1100011, funct3: Some(0x7u32), funct7: None }));
        instructions.push(("LUI", InstructionInfo { format: Format::U, opcode: 0b0110111, funct3: None, funct7: None }));
        instructions.push(("AUIPC", InstructionInfo { format: Format::U, opcode: 0b0010111, funct3: None, funct7: None }));
        instructions.push(("JAL", InstructionInfo { format: Format::J, opcode: 0b1101111, funct3: None, funct7: None }));
        let r = InstructionSet { instructions };
        assert(r.entries() =~= spec_instruction_table());
        r
    }

    fn get(&self, name: &Vec<char>) -> (r: Option<InstructionInfo>)
        ensures
            r == spec_find_info(self.entries(), name@),
    {
        let n = self.instructions.len();
        let mut i: usize = 0;
        assert(self.entries().subrange(0, n as int) =~= self.entries());
        while i < n
            invariant
                n == self.instructions@.len(),
                i <= n,
                spec_find_info(self.entries(), name@) == spec_find_info(self.entries().subrange(i as int, n as int), name@),
            decreases n - i,
        {
            let entry = self.instructions[i];
            assert(self.entries().subrange(i as int, n as int).drop_first() =~= self.entries().subrange(i + 1, n as int));
            if crate::text::chars_equal_str(name, entry.0) {
                return Some(entry.1);
            }
            i = i + 1;
        }
        None
    }
}

/// One parsed source instruction: its table entry and the operands present.
#[derive(Debug, Clone, Copy)]
pub struct Instruction {
    pub info: InstructionInfo,
    pub rd: Option<u32>,
    pub rs1: Option<u32>,
    pub rs2: Option<u32>,
    pub immediate: Option<i32>,
}

/// Whether an exec result with a character-vector error is the spec result.
pub open spec fn spec_same<T>(r: Result<T, Vec<char>>, s: Result<T, Seq<char>>) -> bool {
    match r {
        Ok(v) => s == Ok::<T, Seq<char>>(v),
        Err(e) => s == Err::<T, Seq<char>>(e@),
    }
}

/// The immediate `imm` denotes: a decimal or `0x`-prefixed hexadecimal `i32`.
pub open spec fn spec_immediate(imm: Seq<char>) -> Result<i32, Seq<char>> {
    let t = spec_trim(imm);
    let parsed = if t.len() >= 2 && t.subrange(0, 2) == "0x"@ {
        spec_parse_i32(t.subrange(2, t.len() as int), 16)
    } else {
        spec_parse_i32(t, 10)
    };
    match parsed {
        Some(v) => Ok(v),
        None => Err("Invalid immediate value: "@ + t),
    }
}

/// The offset and base register of a memory operand `offset(register)`.
spec fn spec_mem_address(addr: Seq<char>) -> Result<(i32, u32), Seq<char>> {
    let parts = spec_tokens(addr, Separator::Paren);
    if parts.len() != 2 {
        Err("Memory address must be in format: offset(register)"@)
    } else {
        match spec_immediate(parts[0]) {
            Err(e) => Err(e),
            Ok(offset) => match spec_register(parts[1]) {
                Err(e) => Err(e),
                Ok(reg) => Ok((offset, reg)),
            },
        }
    }
}

impl Assembler {
    fn parse_register(&self, reg: &Vec<char>) -> (r: Result<u32, Vec<char>>)
        ensures
            spec_same(r, spec_register(reg@)),
    {
        crate::assembler::parse::parse_register(reg)
    }

    fn parse_immediate(&self, imm: &Vec<char>) -> (r: Result<i32, Vec<char>>)
        ensures
            spec_same(r, spec_immediate(imm@)),
    {
        let imm = trim(imm);
        proof { reveal_strlit("0x"); }
        let parsed = if starts_with_str(&imm, "0x") {
            let digits = slice_chars(&imm, 2, imm.len());
            parse_i32(&digits, 16)
        } else {
            parse_i32(&imm, 10)
        };
        match parsed {
            Some(v) => Ok(v),
            None => {
                let mut m = crate::text::literal_chars("Invalid immediate value: ");
                push_chars(&mut m, &imm);
                Err(m)
            },
        }
    }

    fn parse_mem_address(&self, addr: &Vec<char>) -> (r: Result<(i32, u32), Vec<char>>)
        ensures
            spec_same(r, spec_mem_address(addr@)),
    {
        let parts = tokens(addr, Separator::Paren);
        proof { assert(parts@.map_values(|v: Vec<char>| v@).len() == parts@.len()); }
        if parts.len() != 2 {
            return Err(crate::text::literal_chars("Memory address must be in format: offset(register)"));
        }
        proof {
            assert(parts@.map_values(|v: Vec<char>| v@)[0] == parts@[0]@);
            assert(parts@.map_values(|v: Vec<char>| v@)[1] == parts@[1]@);
        }
        let offset = self.parse_immediate(&parts[0])?;
        let reg = self.parse_register(&parts[1])?;
        Ok((offset, reg))
    }
}

/// The assembler, holding its instruction table.
struct Assembler {
    instruction_set: InstructionSet,
}

spec fn spec_parse_r_type(parts: Seq<Seq<char>>, info: InstructionInfo) -> Result<Instruction, Seq<char>> {
    if parts.len() != 4 {
        Err("R-type instructions need 3 registers"@)
    } else {
        match (spec_register(parts[1]), spec_register(parts[2]), spec_register(parts[3])) {
            (Err(e), _, _) => Err(e),
            (Ok(_), Err(e), _) => Err(e),
            (Ok(_), Ok(_), Err(e)) => Err(e),
            (Ok(rd), Ok(rs1), Ok(rs2)) => Ok(
                Instruction { info, rd: Some(rd), rs1: Some(rs1), rs2: Some(rs2), immediate: None },
            ),
        }
    }
}

spec fn spec_parse_load_type(parts: Seq<Seq<char>>, info: InstructionInfo) -> Result<Instruction, Seq<char>> {
    if parts.len() != 3 {
        Err("Load instructions need a register and a memory address"@)
    } else {
        match spec_mem_address(parts[2]) {
            Err(e) => Err(e),
            Ok((offset, base)) => match spec_register(parts[1]) {
                Err(e) => Err(e),
                Ok(rd) => Ok(Instruction { info, rd: Some(rd), rs1: Some(base), rs2: None, immediate: Some(offset) }),
            },
        }
    }
}

spec fn spec_parse_i_type(parts: Seq<Seq<char>>, info: InstructionInfo) -> Result<Instruction, Seq<char>> {
    if info.opcode == 0b0000011 {
        spec_parse_load_type(parts, info)
    } else if parts.len() != 4 {
        Err("I-type instructions need 2 registers and an immediate"@)
    } else {
        match (spec_register(parts[1]), spec_register(parts[2]), spec_immediate(parts[3])) {
            (Err(e), _, _) => Err(e),
            (Ok(_), Err(e), _) => Err(e),
            (Ok(_), Ok(_), Err(e)) => Err(e),
            (Ok(rd), Ok(rs1), Ok(imm)) => Ok(
                Instruction { info, rd: Some(rd), rs1: Some(rs1), rs2: None, immediate: Some(imm) },
            ),
        }
    }
}

spec fn spec_parse_s_type(parts: Seq<Seq<char>>, info: InstructionInfo) -> Result<Instruction, Seq<char>> {
    if parts.len() != 3 {
        Err("Store instructions need a register and a memory address"@)
    } else {
        match spec_mem_address(parts[2]) {
            Err(e) => Err(e),
            Ok((offset, base)) => match spec_register(parts[1]) {
                Err(e) => Err(e),
                Ok(rs2) => Ok(Instruction { info, rd: None, rs1: Some(base), rs2: Some(rs2), immediate: Some(offset) }),
            },
        }
    }
}

spec fn spec_parse_b_type(
    parts: Seq<Seq<char>>,
    info: InstructionInfo,
    labels: Map<Seq<char>, u32>,
    current_address: u32,
) -> Result<Instruction, Seq<char>> {
    if parts.len() != 4 {
        Err("B-type instructions need 2 registers and a label"@)
    } else if !labels.contains_key(parts[3]) {
        Err("Undefined label: "@ + parts[3])
    } else {
        let offset = labels[parts[3]] as int - current_address as int;
        if offset % 2 != 0 {
            Err("Branch target must be aligned to 2 bytes"@)
        } else {
            match (spec_register(parts[1]), spec_register(parts[2])) {
                (Err(e), _) => Err(e),
                (Ok(_), Err(e)) => Err(e),
                (Ok(rs1), Ok(rs2)) => Ok(
                    Instruction { info, rd: None, rs1: Some(rs1), rs2: Some(rs2), immediate: Some(offset as i32) },
                ),
            }
        }
    }
}

spec fn spec_parse_u_type(parts: Seq<Seq<char>>, info: InstructionInfo) -> Result<Instruction, Seq<char>> {
    if parts.len() != 3 {
        Err("U-type instructions need a register and an immediate"@)
    } else {
        match (spec_register(parts[1]), spec_immediate(parts[2])) {
            (Err(e), _) => Err(e),
            (Ok(_), Err(e)) => Err(e),
            (Ok(rd), Ok(imm)) => Ok(Instruction { info, rd: Some(rd), rs1: None, rs2: None, immediate: Some(imm) }),
        }
    }
}

spec fn spec_parse_j_type(
    parts: Seq<Seq<char>>,
    info: InstructionInfo,
    labels: Map<Seq<char>, u32>,
    current_address: u32,
) -> Result<Instruction, Seq<char>> {
    if parts.len() != 3 {
        Err("J-type instructions need a register and a label/offset"@)
    } else {
        let offset: Result<i32, Seq<char>> = match spec_immediate(parts[2]) {
            Ok(imm) => if imm % 2 != 0 { Err("Jump target must be aligned to 2 bytes"@) } else { Ok(imm) },
            Err(_) => if !labels.contains_key(parts[2]) {
                Err("Undefined label: "@ + parts[2])
            } else {
                let o = labels[parts[2]] as int - current_address as int;
                if o % 2 != 0 { Err("Jump target must be aligned to 2 bytes"@) } else { Ok(o as i32) }
            },
        };
        match offset {
            Err(e) => Err(e),
            Ok(o) => match spec_register(parts[1]) {
                Err(e) => Err(e),
                Ok(rd) => Ok(Instruction { info, rd: Some(rd), rs1: None, rs2: None, immediate: Some(o) }),
            },
        }
    }
}

spec fn spec_parse_instruction(
    line: Seq<char>,
    labels: Map<Seq<char>, u32>,
    current_address: u32,
) -> Result<Instruction, Seq<char>> {
    let parts = spec_tokens(line, Separator::SpaceOrComma);
    if parts.len() == 0 {
        Err("Empty instruction"@)
    } else {
        let name = spec_uppercase(parts[0]);
        match spec_find_info(spec_instruction_table(), name) {
            None => Err("Unknown instruction: "@ + name),
            Some(info) => match info.format {
                Format::R => spec_parse_r_type(parts, info),
                Format::I => spec_parse_i_type(parts, info),
                Format::S => spec_parse_s_type(parts, info),
                Format::B => spec_parse_b_type(parts, info, labels, current_address),
                Format::U => spec_parse_u_type(parts, info),
                Format::J => spec_parse_j_type(parts, info, labels, current_address),
            },
        }
    }
}

impl Assembler {
    fn parse_r_type(&self, parts: &Vec<Vec<char>>, info: InstructionInfo) -> (r: Result<Instruction, Vec<char>>)
        ensures
            spec_same(r, spec_parse_r_type(spec_views(parts@), info)),
    {
        if parts.len() != 4 {
            return Err(crate::text::literal_chars("R-type instructions need 3 registers"));
        }
        Ok(Instruction {
            info,
            rd: Some(self.parse_register(&parts[1])?),
            rs1: Some(self.parse_register(&parts[2])?),
            rs2: Some(self.parse_register(&parts[3])?),
            immediate: None,
        })
    }

    fn parse_i_type(&self, parts: &Vec<Vec<char>>, info: InstructionInfo) -> (r: Result<Instruction, Vec<char>>)
        ensures
            spec_same(r, spec_parse_i_type(spec_views(parts@), info)),
    {
        if info.opcode == 0b0000011 {
            return self.parse_load_type(parts, info);
        }
        if parts.len() != 4 {
            return Err(crate::text::literal_chars("I-type instructions need 2 registers and an immediate"));
        }
        Ok(Instruction {
            info,
            rd: Some(self.parse_register(&parts[1])?),
            rs1: Some(self.parse_register(&parts[2])?),
            rs2: None,
            immediate: Some(self.parse_immediate(&parts[3])?),
        })
    }

    fn parse_load_type(&self, parts: &Vec<Vec<char>>, info: InstructionInfo) -> (r: Result<Instruction, Vec<char>>)
        ensures
            spec_same(r, spec_parse_load_type(spec_views(parts@), info)),
    {
        if parts.len() != 3 {
            return Err(crate::text::literal_chars("Load instructions need a register and a memory address"));
        }
        let (offset, base) = self.parse_mem_address(&parts[2])?;
        Ok(Instruction {
            info,
            rd: Some(self.parse_register(&parts[1])?),
            rs1: Some(base),
            rs2: None,
            immediate: Some(offset),
        })
    }

    fn parse_s_type(&self, parts: &Vec<Vec<char>>, info: InstructionInfo) -> (r: Result<Instruction, Vec<char>>)
        ensures
            spec_same(r, spec_parse_s_type(spec_views(parts@), info)),
    {
        if parts.len() != 3 {
            return Err(crate::text::literal_chars("Store instructions need a register and a memory address"));
        }
        let (offset, base) = self.parse_mem_address(&parts[2])?;
        Ok(Instruction {
            info,
            rd: None,
            rs1: Some(base),
            rs2: Some(self.parse_register(&parts[1])?),
            immediate: Some(offset),
        })
    }

    fn parse_b_type(
        &self,
        parts: &Vec<Vec<char>>,
        info: InstructionInfo,
        labels: &LabelMap<u32>,
        current_address: u32,
    ) -> (r: Result<Instruction, Vec<char>>)
        requires
            labels.wf(),
            current_address < 0x8000_0000,
            forall|k: Seq<char>| labels@.contains_key(k) ==> labels@[k] < 0x8000_0000,
        ensures
            spec_same(r, spec_parse_b_type(spec_views(parts@), info, labels@, current_address)),
    {
        if parts.len() != 4 {
            return Err(crate::text::literal_chars("B-type instructions need 2 registers and a label"));
        }
        let target = match labels.get(&parts[3]) {
            Some(t) => t,
            None => {
                let mut m = crate::text::literal_chars("Undefined label: ");
                push_chars(&mut m, &parts[3]);
                return Err(m);
            },
        };
        let offset = (target as i32) - (current_address as i32);
        if offset & 1 != 0 {
            proof { crate::bits::lemma_even_low_bit(offset); }
            return Err(crate::text::literal_chars("Branch target must be aligned to 2 bytes"));
        }
        proof { crate::bits::lemma_even_low_bit(offset); }
        Ok(Instruction {
            info,
            rd: None,
            rs1: Some(self.parse_register(&parts[1])?),
            rs2: Some(self.parse_register(&parts[2])?),
            immediate: Some(offset),
        })
    }

    fn parse_u_type(&self, parts: &Vec<Vec<char>>, info: InstructionInfo) -> (r: Result<Instruction, Vec<char>>)
        ensures
            spec_same(r, spec_parse_u_type(spec_views(parts@), info)),
    {
        if parts.len() != 3 {
            return Err(crate::text::literal_chars("U-type instructions need a register and an immediate"));
        }
        Ok(Instruction {
            info,
            rd: Some(self.parse_register(&parts[1])?),
            rs1: None,
            rs2: None,
            immediate: Some(self.parse_immediate(&parts[2])?),
        })
    }

    fn parse_j_type(
        &self,
        parts: &Vec<Vec<char>>,
        info: InstructionInfo,
        labels: &LabelMap<u32>,
        current_address: u32,
    ) -> (r: Result<Instruction, Vec<char>>)
        requires
            labels.wf(),
            current_address < 0x8000_0000,
            forall|k: Seq<char>| labels@.contains_key(k) ==> labels@[k] < 0x8000_0000,
        ensures
            spec_same(r, spec_parse_j_type(spec_views(parts@), info, labels@, current_address)),
    {
        if parts.len() != 3 {
            return Err(crate::text::literal_chars("J-type instructions need a register and a label/offset"));
        }
        let offset = if let Ok(imm) = self.parse_immediate(&parts[2]) {
            if imm & 1 != 0 {
                proof { crate::bits::lemma_even_low_bit(imm); }
                return Err(crate::text::literal_chars("Jump target must be aligned to 2 bytes"));
            }
            proof { crate::bits::lemma_even_low_bit(imm); }
            imm
        } else {
            let target = match labels.get(&parts[2]) {
                Some(t) => t,
                None => {
                    let mut m = crate::text::literal_chars("Undefined label: ");
                    push_chars(&mut m, &parts[2]);
                    return Err(m);
                },
            };
            let offset = (target as i32) - (current_address as i32);
            if offset & 1 != 0 {
                proof { crate::bits::lemma_even_low_bit(offset); }
                return Err(crate::text::literal_chars("Jump target must be aligned to 2 bytes"));
            }
            proof { crate::bits::lemma_even_low_bit(offset); }
            offset
        };
        Ok(Instruction {
            info,
            rd: Some(self.parse_register(&parts[1])?),
            rs1: None,
            rs2: None,
            immediate: Some(offset),
        })
    }

    fn parse_instruction(&self, line: &Vec<char>, labels: &LabelMap<u32>, current_address: u32) -> (r: Result<Instruction, Vec<char>>)
        requires
            self.instruction_set.entries() == spec_instruction_table(),
            labels.wf(),
            current_address < 0x8000_0000,
            forall|k: Seq<char>| labels@.contains_key(k) ==> labels@[k] < 0x8000_0000,
        ensures
            spec_same(r, spec_parse_instruction(line@, labels@, current_address)),
    {
        let parts = tokens(line, Separator::SpaceOrComma);
        if parts.len() == 0 {
            return Err(crate::text::literal_chars("Empty instruction"));
        }
        let name = to_uppercase(&parts[0]);
        let info = match self.instruction_set.get(&name) {
            Some(info) => info,
            None => {
                let mut m = crate::text::literal_chars("Unknown instruction: ");
                push_chars(&mut m, &name);
                return Err(m);
            },
        };
        match info.format {
            Format::R => self.parse_r_type(&parts, info),
            Format::I => self.parse_i_type(&parts, info),
            Format::S => self.parse_s_type(&parts, info),
            Format::B => self.parse_b_type(&parts, info, labels, current_address),
            Format::U => self.parse_u_type(&parts, info),
            Format::J => self.parse_j_type(&parts, info, labels, current_address),
        }
    }
}

/// The value of an optional field, zero when it is absent.
pub open spec fn spec_or_zero(o: Option<u32>) -> u32 {
    match o {
        Some(v) => v,
        None => 0,
    }
}

/// The 32-bit machine word of an instruction: its fields masked to their
/// widths and placed at their bit positions for its format.
pub open spec fn spec_encode_instruction(inst: Instruction) -> u32 {
    let opcode = inst.info.opcode;
    let rd = spec_or_zero(inst.rd) & 0x1F;
    let rs1 = spec_or_zero(inst.rs1) & 0x1F;
    let rs2 = spec_or_zero(inst.rs2) & 0x1F;
    let funct3 = spec_or_zero(inst.info.funct3) & 0x7;
    let funct7 = spec_or_zero(inst.info.funct7) & 0x7F;
    let imm: i32 = match inst.immediate {
        Some(v) => v,
        None => 0,
    };
    let uimm = imm as u32;
    match inst.info.format {
        Format::R => (funct7 << 25u32) | (rs2 << 20u32) | (rs1 << 15u32) | (funct3 << 12u32) | (rd << 7u32) | opcode,
        Format::I => (((imm & 0xFFF) as u32) << 20u32) | (rs1 << 15u32) | (funct3 << 12u32) | (rd << 7u32) | opcode,
        Format::S => (((uimm >> 5u32) & 0x7F) << 25u32) | (rs2 << 20u32) | (rs1 << 15u32) | (funct3 << 12u32)
            | ((uimm & 0x1F) << 7u32) | opcode,
        Format::B => (((uimm >> 12u32) & 0x1) << 31u32) | (((uimm >> 5u32) & 0x3F) << 25u32) | (rs2 << 20u32)
            | (rs1 << 15u32) | (funct3 << 12u32) | (((uimm >> 1u32) & 0xF) << 8u32) | (((uimm >> 11u32) & 0x1) << 7u32)
            | opcode,
        Format::U => (uimm << 12u32) | (rd << 7u32) | opcode,
        Format::J => (((uimm >> 20u32) & 0x1) << 31u32) | (((uimm >> 1u32) & 0x3FF) << 21u32)
            | (((uimm >> 11u32) & 0x1) << 20u32) | (((uimm >> 12u32) & 0xFF) << 12u32) | (rd << 7u32) | opcode,
    }
}

fn or_zero(o: Option<u32>) -> (r: u32)
    ensures
        r == spec_or_zero(o),
{
    match o {
        Some(v) => v,
        None => 0,
    }
}

impl Assembler {
    fn encode_instruction(&self, inst: &Instruction) -> (r: u32)
        ensures
            r == spec_encode_instruction(*inst),
    {
        let opcode = inst.info.opcode;
        let rd = or_zero(inst.rd) & 0x1F;
        let rs1 = or_zero(inst.rs1) & 0x1F;
        let rs2 = or_zero(inst.rs2) & 0x1F;
        let funct3 = or_zero(inst.info.funct3) & 0x7;
        let funct7 = or_zero(inst.info.funct7) & 0x7F;
        let imm: i32 = match inst.immediate {
            Some(v) => v,
            None => 0,
        };
        let uimm = imm as u32;
        match inst.info.format {
            Format::R => (funct7 << 25u32) | (rs2 << 20u32) | (rs1 << 15u32) | (funct3 << 12u32) | (rd << 7u32) | opcode,
            Format::I => (((imm & 0xFFF) as u32) << 20u32) | (rs1 << 15u32) | (funct3 << 12u32) | (rd << 7u32) | opcode,
            Format::S => (((uimm >> 5u32) & 0x7F) << 25u32) | (rs2 << 20u32) | (rs1 << 15u32) | (funct3 << 12u32)
                | ((uimm & 0x1F) << 7u32) | opcode,
            Format::B => (((uimm >> 12u32) & 0x1) << 31u32) | (((uimm >> 5u32) & 0x3F) << 25u32) | (rs2 << 20u32)
                | (rs1 << 15u32) | (funct3 << 12u32) | (((uimm >> 1u32) & 0xF) << 8u32)
                | (((uimm >> 11u32) & 0x1) << 7u32) | opcode,
            Format::U => (uimm << 12u32) | (rd << 7u32) | opcode,
            Format::J => (((uimm >> 20u32) & 0x1) << 31u32) | (((uimm >> 1u32) & 0x3FF) << 21u32)
                | (((uimm >> 11u32) & 0x1) << 20u32) | (((uimm >> 12u32) & 0xFF) << 12u32) | (rd << 7u32) | opcode,
        }
    }
}

/// Whether a cleaned line defines a label: it ends with a colon.
pub open spec fn spec_is_label_line(c: Seq<char>) -> bool {
    c.len() > 0 && c.last() == ':'
}

/// `s` with all its trailing colons removed.
pub open spec fn spec_strip_colons(s: Seq<char>) -> Seq<char>
    decreases s.len(),
{
    if s.len() > 0 && s.last() == ':' {
        spec_strip_colons(s.drop_last())
    } else {
        s
    }
}

/// The labels defined by the first `n` lines and the address of the next
/// instruction: each instruction line takes four bytes, from address 0, and
/// a label names the address of the instruction that follows it.
pub open spec fn spec_first_pass(lines: Seq<Seq<char>>, n: nat) -> (Map<Seq<char>, u32>, int)
    decreases n,
{
    if n == 0 {
        (Map::empty(), 0)
    } else {
        let (labels, address) = spec_first_pass(lines, (n - 1) as nat);
        let c = spec_clean_line(lines[n - 1]);
        if c.len() == 0 {
            (labels, address)
        } else if spec_is_label_line(c) {
            (labels.insert(spec_strip_colons(c), address as u32), address)
        } else {
            (labels, address + 4)
        }
    }
}

/// `m` with the four bytes of `w`, least significant first, stored from
/// `address` on.
pub open spec fn spec_write_word(m: Map<u32, u8>, address: u32, w: u32) -> Map<u32, u8> {
    m.insert(address, (w & 0xFF) as u8)
        .insert((address + 1) as u32, ((w >> 8u32) & 0xFF) as u8)
        .insert((address + 2) as u32, ((w >> 16u32) & 0xFF) as u8)
        .insert((address + 3) as u32, ((w >> 24u32) & 0xFF) as u8)
}

/// The instruction bytes, the map from instruction addresses to (1-based)
/// line numbers, and the next address after the first `n` lines, or the
/// first error met, prefixed with its line number.
spec fn spec_second_pass(lines: Seq<Seq<char>>, labels: Map<Seq<char>, u32>, n: nat)
    -> Result<(Map<u32, u8>, Map<u32, usize>, int), Seq<char>>
    decreases n,
{
    if n == 0 {
        Ok((Map::empty(), Map::empty(), 0))
    } else {
        match spec_second_pass(lines, labels, (n - 1) as nat) {
            Err(e) => Err(e),
            Ok((mem, source, address)) => {
                let c = spec_clean_line(lines[n - 1]);
                if c.len() == 0 || spec_is_label_line(c) {
                    Ok((mem, source, address))
                } else {
                    match spec_parse_instruction(c, labels, address as u32) {
                        Err(e) => Err("Error on line "@ + spec_radix_chars(n, 10) + ": "@ + e),
                        Ok(inst) => Ok((
                            spec_write_word(mem, address as u32, spec_encode_instruction(inst)),
                            source.insert(address as u32, n as usize),
                            address + 4,
                        )),
                    }
                }
            },
        }
    }
}

proof fn lemma_second_pass_error_stays(lines: Seq<Seq<char>>, labels: Map<Seq<char>, u32>, k: nat, n: nat)
    requires
        k <= n,
        spec_second_pass(lines, labels, k) is Err,
    ensures
        spec_second_pass(lines, labels, n) == spec_second_pass(lines, labels, k),
    decreases n - k,
{
    if k < n {
        lemma_second_pass_error_stays(lines, labels, k, (n - 1) as nat);
    }
}

/// What assembling `program` gives: the instruction memory, the source map
/// and an empty data memory, or the first error.
pub closed spec fn spec_emulator_maps(program: Seq<char>)
    -> Result<(Map<u32, u8>, Map<u32, usize>, Map<u32, u8>), Seq<char>>
{
    let lines = spec_lines(program);
    let labels = spec_first_pass(lines, lines.len()).0;
    match spec_second_pass(lines, labels, lines.len()) {
        Ok((mem, source, _)) => Ok((mem, source, Map::empty())),
        Err(e) => Err(e),
    }
}

/// `s` without its trailing colons.
fn strip_colons(s: &Vec<char>) -> (r: Vec<char>)
    ensures
        r@ == spec_strip_colons(s@),
{
    let mut j = s.len();
    assert(s@.subrange(0, j as int) =~= s@);
    while j > 0 && s[j - 1] == ':'
        invariant
            j <= s.len(),
            spec_strip_colons(s@) == spec_strip_colons(s@.subrange(0, j as int)),
        decreases j,
    {
        assert(s@.subrange(0, j as int).drop_last() =~= s@.subrange(0, j - 1));
        j = j - 1;
    }
    slice_chars(s, 0, j)
}

/// The program being built: instruction bytes, source lines and labels.
struct AssembledProgram {
    instruction_memory: BTreeMap<u32, u8>,
    source_map: BTreeMap<u32, usize>,
    labels: LabelMap<u32>,
}

impl AssembledProgram {
    fn new() -> (r: Self)
        ensures
            r.instruction_memory@ == Map::<u32, u8>::empty(),
            r.source_map@ == Map::<u32, usize>::empty(),
            r.labels.wf(),
            r.labels@ == Map::<Seq<char>, u32>::empty(),
    {
        AssembledProgram { instruction_memory: BTreeMap::new(), source_map: BTreeMap::new(), labels: LabelMap::new() }
    }

    fn add_label(&mut self, label: Vec<char>, address: u32)
        requires
            old(self).labels.wf(),
        ensures
            final(self).labels.wf(),
            final(self).labels@ == old(self).labels@.insert(label@, address),
            final(self).instruction_memory@ == old(self).instruction_memory@,
            final(self).source_map@ == old(self).source_map@,
    {
        self.labels.insert(label, address);
    }

    fn add_instruction(&mut self, address: u32, encoded: u32, line_num: usize)
        requires
            address <= 0xFFFF_FFFC,
        ensures
            final(self).instruction_memory@ == spec_write_word(old(self).instruction_memory@, address, encoded),
            final(self).source_map@ == old(self).source_map@.insert(address, line_num),
            final(self).labels == old(self).labels,
    {
        self.instruction_memory.insert(address, (encoded & 0xFF) as u8);
        self.instruction_memory.insert(address + 1, ((encoded >> 8u32) & 0xFF) as u8);
        self.instruction_memory.insert(address + 2, ((encoded >> 16u32) & 0xFF) as u8);
        self.instruction_memory.insert(address + 3, ((encoded >> 24u32) & 0xFF) as u8);
        self.source_map.insert(address, line_num);
    }
}

impl Assembler {
    fn new() -> (r: Self)
        ensures
            r.instruction_set.entries() == spec_instruction_table(),
    {
        Assembler { instruction_set: InstructionSet::new() }
    }

    fn clean_line(&self, line: &Vec<char>) -> (r: Vec<char>)
        ensures
            r@ == spec_clean_line(line@),
    {
        crate::assembler::parse::clean_line(line)
    }

    fn assemble(&self, program: &str) -> (r: Result<AssembledProgram, Vec<char>>)
        requires
            self.instruction_set.entries() == spec_instruction_table(),
            spec_lines(program@).len() < 0x2000_0000,
        ensures
            match r {
                Ok(p) => spec_emulator_maps(program@) == Ok::<_, Seq<char>>(
                    (p.instruction_memory@, p.source_map@, Map::<u32, u8>::empty()),
                ),
                Err(e) => spec_emulator_maps(program@) == Err::<(Map<u32, u8>, Map<u32, usize>, Map<u32, u8>), Seq<char>>(e@),
            },
    {
        let text = str_to_chars(program);
        let ls = lines(&text);
        let ghost lv = spec_views(ls@);
        assert(lv == spec_lines(program@));
        let n = ls.len();
        let mut assembled = AssembledProgram::new();

        // First pass: give each instruction line an address and record labels.
        let mut address: u32 = 0;
        let mut i: usize = 0;
        while i < n
            invariant
                n == ls@.len(),
                lv == spec_views(ls@),
                n < 0x2000_0000,
                i <= n,
                assembled.labels.wf(),
                assembled.instruction_memory@ == Map::<u32, u8>::empty(),
                assembled.source_map@ == Map::<u32, usize>::empty(),
                (assembled.labels@, address as int) == spec_first_pass(lv, i as nat),
                address <= 4 * i,
                forall|k: Seq<char>| assembled.labels@.contains_key(k) ==> assembled.labels@[k] <= address,
            decreases n - i,
        {
            assert(lv[i as int] == ls@[i as int]@);
            let line = self.clean_line(&ls[i]);
            if line.len() > 0 {
                if line[line.len() - 1] == ':' {
                    let label = strip_colons(&line);
                    assembled.add_label(label, address);
                } else {
                    address = address + 4;
                }
            }
            i = i + 1;
        }

        // Second pass: encode each instruction.
        let ghost labels = assembled.labels@;
        assert(labels == spec_first_pass(lv, n as nat).0);
        address = 0;
        i = 0;
        while i < n
            invariant
                n == ls@.len(),
                lv == spec_views(ls@),
                n < 0x2000_0000,
                i <= n,
                self.instruction_set.entries() == spec_instruction_table(),
                assembled.labels.wf(),
                assembled.labels@ == labels,
                labels == spec_first_pass(lv, n as nat).0,
                lv == spec_lines(program@),
                forall|k: Seq<char>| labels.contains_key(k) ==> labels[k] < 0x8000_0000,
                spec_second_pass(lv, labels, i as nat) == Ok::<_, Seq<char>>(
                    (assembled.instruction_memory@, assembled.source_map@, address as int),
                ),
                address <= 4 * i,
            decreases n - i,
        {
            assert(lv[i as int] == ls@[i as int]@);
            let line = self.clean_line(&ls[i]);
            if line.len() > 0 && line[line.len() - 1] != ':' {
                match self.parse_instruction(&line, &assembled.labels, address) {
                    Ok(instruction) => {
                        let encoded = self.encode_instruction(&instruction);
                        assembled.add_instruction(address, encoded, i + 1);
                        address = address + 4;
                    },
                    Err(e) => {
                        let mut message = crate::text::literal_chars("Error on line ");
                        let number = radix_chars((i + 1) as u64, 10);
                        push_chars(&mut message, &number);
                        push_str(&mut message, ": ");
                        push_chars(&mut message, &e);
                        proof {
                            assert(message@ == "Error on line "@ + spec_radix_chars((i + 1) as nat, 10) + ": "@ + e@);
                            lemma_second_pass_error_stays(lv, labels, (i + 1) as nat, n as nat);
                        }
                        return Err(message);
                    },
                }
            }
            i = i + 1;
        }
        Ok(assembled)
    }
}

/// Assembles `program` and returns its instruction memory (address to
/// byte), its source map (instruction address to 1-based line number) and
/// its data memory, which this assembler leaves empty; or, for the first
/// line that does not assemble, `Error on line N: ` and the reason.
/// Programs of 2^29 lines or more are out of its address range.
pub fn get_emulator_maps(program: &str) -> (r: Result<(BTreeMap<u32, u8>, BTreeMap<u32, usize>, BTreeMap<u32, u8>), String>)
    requires
        spec_lines(program@).len() < 0x2000_0000,
    ensures
        match r {
            Ok((mem, source, data)) => spec_emulator_maps(program@) == Ok::<_, Seq<char>>((mem@, source@, data@)),
            Err(e) => spec_emulator_maps(program@) == Err::<(Map<u32, u8>, Map<u32, usize>, Map<u32, u8>), Seq<char>>(e@),
        },
{
    let assembler = Assembler::new();
    match assembler.assemble(program) {
        Ok(assembled) => {
            let data_memory: BTreeMap<u32, u8> = BTreeMap::new();
            Ok((assembled.instruction_memory, assembled.source_map, data_memory))
        },
        Err(e) => Err(chars_to_string(&e)),
    }
}

proof fn lemma_second_pass_layout(lines: Seq<Seq<char>>, labels: Map<Seq<char>, u32>, n: nat)
    requires
        n < 0x2000_0000,
    ensures
        match spec_second_pass(lines, labels, n) {
            Ok((mem, source, address)) => {
                &&& 0 <= address <= 4 * n
                &&& address % 4 == 0
                &&& forall|a: u32| mem.contains_key(a) <==> a < address
                &&& forall|a: u32| source.contains_key(a) <==> (a < address && a % 4 == 0)
            },
            Err(_) => true,
        },
    decreases n,
{
    if n > 0 {
        lemma_second_pass_layout(lines, labels, (n - 1) as nat);
    }
}

/// Instructions are laid out from address 0 on, four bytes each, with no
/// gap: the addresses of instruction memory run without a hole from 0 up,
/// always to the end of a word; the source map has an entry exactly at
/// those addresses that start a word; and the data memory is empty.
pub proof fn law_emulator_maps_layout(program: Seq<char>)
    requires
        spec_lines(program).len() < 0x2000_0000,
        spec_emulator_maps(program) is Ok,
    ensures
        spec_emulator_maps(program) matches Ok((mem, source, data)) && {
            &&& data == Map::<u32, u8>::empty()
            &&& forall|a: u32, b: u32| #[trigger] mem.contains_key(a) && b <= a ==> #[trigger] mem.contains_key(b)
            &&& forall|a: u32| #[trigger] mem.contains_key(a) ==> mem.contains_key((a - a % 4 + 3) as u32)
            &&& forall|a: u32| #[trigger] source.contains_key(a) <==> (mem.contains_key(a) && a % 4 == 0)
        },
{
    let lines = spec_lines(program);
    let labels = spec_first_pass(lines, lines.len()).0;
    lemma_second_pass_layout(lines, labels, lines.len());
}

/// The four bytes stored for an instruction read back, least significant
/// first, as its word.
pub proof fn law_write_word_reads_back(m: Map<u32, u8>, address: u32, w: u32)
    requires
        address <= 0xFFFF_FFFC,
    ensures
        ({
            let m2 = spec_write_word(m, address, w);
            (m2[address] as u32) | ((m2[(address + 1) as u32] as u32) << 8u32) | ((m2[(address + 2) as u32] as u32) << 16u32)
                | ((m2[(address + 3) as u32] as u32) << 24u32) == w
        }),
{
    let m2 = spec_write_word(m, address, w);
    let b0 = (w & 0xFF) as u8;
    let b1 = ((w >> 8u32) & 0xFF) as u8;
    let b2 = ((w >> 16u32) & 0xFF) as u8;
    let b3 = ((w >> 24u32) & 0xFF) as u8;
    assert(m2[address] == b0 && m2[(address + 1) as u32] == b1 && m2[(address + 2) as u32] == b2 && m2[(address + 3) as u32] == b3);
    assert((b0 as u32) | ((b1 as u32) << 8u32) | ((b2 as u32) << 16u32) | ((b3 as u32) << 24u32) == w) by (bit_vector)
        requires
            b0 == (w & 0xFF) as u8,
            b1 == ((w >> 8u32) & 0xFF) as u8,
            b2 == ((w >> 16u32) & 0xFF) as u8,
            b3 == ((w >> 24u32) & 0xFF) as u8,
    ;
}

/// Whether the codes of a table entry fit their fields.
pub open spec fn spec_codes_fit(info: InstructionInfo) -> bool {
    &&& info.opcode < 128
    &&& spec_or_zero(info.funct3) < 8
    &&& spec_or_zero(info.funct7) < 128
}

/// The word of an instruction with fields that fit is the word the
/// instruction table builds for the same fields.
proof fn lemma_encode_as_table(inst: Instruction)
    requires
        spec_codes_fit(inst.info),
        spec_or_zero(inst.rd) < 32,
        spec_or_zero(inst.rs1) < 32,
        spec_or_zero(inst.rs2) < 32,
    ensures
        ({
            let op = inst.info.opcode;
            let rd = spec_or_zero(inst.rd);
            let rs1 = spec_or_zero(inst.rs1);
            let rs2 = spec_or_zero(inst.rs2);
            let f3 = spec_or_zero(inst.info.funct3);
            let f7 = spec_or_zero(inst.info.funct7);
            let imm: i32 = match inst.immediate {
                Some(v) => v,
                None => 0,
            };
            spec_encode_instruction(inst) == match inst.info.format {
                Format::R => spec_encode_r(op, rd, f3, rs1, rs2, f7),
                Format::I => spec_encode_i(op, rd, f3, rs1, imm),
                Format::S => spec_encode_s(op, f3, rs1, rs2, imm),
                Format::B => spec_encode_b(op, f3, rs1, rs2, imm),
                Format::U => spec_encode_u(op, rd, imm),
                Format::J => spec_encode_j(op, rd, imm),
            }
        }),
{
    let op = inst.info.opcode;
    let rd = spec_or_zero(inst.rd);
    let rs1 = spec_or_zero(inst.rs1);
    let rs2 = spec_or_zero(inst.rs2);
    let f3 = spec_or_zero(inst.info.funct3);
    let f7 = spec_or_zero(inst.info.funct7);
    let imm: i32 = match inst.immediate {
        Some(v) => v,
        None => 0,
    };
    let u = imm as u32;
    assert({
        &&& rd & 0x1F == rd
        &&& rs1 & 0x1F == rs1
        &&& rs2 & 0x1F == rs2
        &&& f3 & 0x7 == f3
        &&& f7 & 0x7F == f7
        &&& (((imm & 0xFFF) as u32) << 20u32) == (((imm as u32) << 20u32) as u32)
        &&& ((u >> 5u32) & 0x7F) == spec_bits(u, 5, 7)
        &&& (u & 0x1F) == spec_bits(u, 0, 5)
        &&& ((u >> 12u32) & 0x1) == spec_bits(u, 12, 1)
        &&& ((u >> 5u32) & 0x3F) == spec_bits(u, 5, 6)
        &&& ((u >> 1u32) & 0xF) == spec_bits(u, 1, 4)
        &&& ((u >> 11u32) & 0x1) == spec_bits(u, 11, 1)
        &&& (u << 12u32) == ((spec_bits(u, 0, 20) << 12u32) as u32)
        &&& ((u >> 20u32) & 0x1) == spec_bits(u, 20, 1)
        &&& ((u >> 1u32) & 0x3FF) == spec_bits(u, 1, 10)
        &&& ((u >> 12u32) & 0xFF) == spec_bits(u, 12, 8)
    }) by (bit_vector)
        requires
            rd < 32,
            rs1 < 32,
            rs2 < 32,
            f3 < 8,
            f7 < 128,
            u == imm as u32,
    ;
}

/// A register-register instruction's word holds its fields where the R
/// format puts them: the opcode, destination, both sources and both
/// function codes read back from the word.
pub proof fn law_encode_r_type_fields(info: InstructionInfo, rd: u32, rs1: u32, rs2: u32)
    requires
        info.format == Format::R,
        spec_codes_fit(info),
        rd < 32,
        rs1 < 32,
        rs2 < 32,
    ensures
        ({
            let w = spec_encode_instruction(Instruction { info, rd: Some(rd), rs1: Some(rs1), rs2: Some(rs2), immediate: None });
            &&& spec_opcode(w) == info.opcode
            &&& spec_rd(w) == rd
            &&& spec_rs1(w) == rs1
            &&& spec_rs2(w) == rs2
            &&& spec_funct3(w) == spec_or_zero(info.funct3)
            &&& spec_funct7(w) == spec_or_zero(info.funct7)
        }),
{
    let inst = Instruction { info, rd: Some(rd), rs1: Some(rs1), rs2: Some(rs2), immediate: None };
    lemma_encode_as_table(inst);
    law_encode_r_fields(info.opcode, rd, spec_or_zero(info.funct3), rs1, rs2, spec_or_zero(info.funct7));
}

/// A register-immediate instruction's word holds its opcode, destination,
/// function code, source and immediate (in -2048..=2047) where the I
/// format puts them.
pub proof fn law_encode_i_type_fields(info: InstructionInfo, rd: u32, rs1: u32, imm: i32)
    requires
        info.format == Format::I,
        spec_codes_fit(info),
        rd < 32,
        rs1 < 32,
        -2048 <= imm <= 2047,
    ensures
        ({
            let w = spec_encode_instruction(Instruction { info, rd: Some(rd), rs1: Some(rs1), rs2: None, immediate: Some(imm) });
            &&& spec_opcode(w) == info.opcode
            &&& spec_rd(w) == rd
            &&& spec_rs1(w) == rs1
            &&& spec_funct3(w) == spec_or_zero(info.funct3)
            &&& crate::isa::instruction::spec_immediate(w, InstructionFormat::I) == imm
        }),
{
    let inst = Instruction { info, rd: Some(rd), rs1: Some(rs1), rs2: None, immediate: Some(imm) };
    lemma_encode_as_table(inst);
    law_encode_i_fields(info.opcode, rd, spec_or_zero(info.funct3), rs1, imm);
}

/// A store's word holds its opcode, function code, base and source
/// registers and offset (in -2048..=2047) where the S format puts them.
pub proof fn law_encode_s_type_fields(info: InstructionInfo, rs1: u32, rs2: u32, imm: i32)
    requires
        info.format == Format::S,
        spec_codes_fit(info),
        rs1 < 32,
        rs2 < 32,
        -2048 <= imm <= 2047,
    ensures
        ({
            let w = spec_encode_instruction(Instruction { info, rd: None, rs1: Some(rs1), rs2: Some(rs2), immediate: Some(imm) });
            &&& spec_opcode(w) == info.opcode
            &&& spec_rs1(w) == rs1
            &&& spec_rs2(w) == rs2
            &&& spec_funct3(w) == spec_or_zero(info.funct3)
            &&& crate::isa::instruction::spec_immediate(w, InstructionFormat::S) == imm
        }),
{
    let inst = Instruction { info, rd: None, rs1: Some(rs1), rs2: Some(rs2), immediate: Some(imm) };
    lemma_encode_as_table(inst);
    law_encode_s_fields(info.opcode, spec_or_zero(info.funct3), rs1, rs2, imm);
}

/// A branch's word holds its opcode, function code, both registers and
/// its even offset (in -2048..=2046) where the B format puts them.
pub proof fn law_encode_b_type_fields(info: InstructionInfo, rs1: u32, rs2: u32, imm: i32)
    requires
        info.format == Format::B,
        spec_codes_fit(info),
        rs1 < 32,
        rs2 < 32,
        -2048 <= imm <= 2047,
        imm % 2 == 0,
    ensures
        ({
            let w = spec_encode_instruction(Instruction { info, rd: None, rs1: Some(rs1), rs2: Some(rs2), immediate: Some(imm) });
            &&& spec_opcode(w) == info.opcode
            &&& spec_rs1(w) == rs1
            &&& spec_rs2(w) == rs2
            &&& spec_funct3(w) == spec_or_zero(info.funct3)
            &&& crate::isa::instruction::spec_immediate(w, InstructionFormat::B) == imm
        }),
{
    let inst = Instruction { info, rd: None, rs1: Some(rs1), rs2: Some(rs2), immediate: Some(imm) };
    lemma_encode_as_table(inst);
    law_encode_b_fields(info.opcode, spec_or_zero(info.funct3), rs1, rs2, imm);
    crate::bits::lemma_even_clear_low_bit(imm);
}

/// An upper-immediate instruction's word holds its opcode, destination and
/// the low twenty bits of its immediate, as the upper twenty bits of the
/// value it denotes.
pub proof fn law_encode_u_type_fields(info: InstructionInfo, rd: u32, imm: i32)
    requires
        info.format == Format::U,
        spec_codes_fit(info),
        rd < 32,
    ensures
        ({
            let w = spec_encode_instruction(Instruction { info, rd: Some(rd), rs1: None, rs2: None, immediate: Some(imm) });
            &&& spec_opcode(w) == info.opcode
            &&& spec_rd(w) == rd
            &&& crate::isa::instruction::spec_immediate(w, InstructionFormat::U) as u32 == ((imm as u32) % 0x10_0000) * 0x1000
        }),
{
    let inst = Instruction { info, rd: Some(rd), rs1: None, rs2: None, immediate: Some(imm) };
    lemma_encode_as_table(inst);
    law_encode_u_fields(info.opcode, rd, imm);
    let u = imm as u32;
    assert(((((u & 0xF_FFFFu32) << 12u32) as u32) as i32) as u32 == (u % 0x10_0000) * 0x1000) by (bit_vector);
}

/// A jump's word holds its opcode, destination and even offset (in
/// -2^20..2^20) where the J format puts them.
pub proof fn law_encode_j_type_fields(info: InstructionInfo, rd: u32, imm: i32)
    requires
        info.format == Format::J,
        spec_codes_fit(info),
        rd < 32,
        -0x10_0000 <= imm < 0x10_0000,
        imm % 2 == 0,
    ensures
        ({
            let w = spec_encode_instruction(Instruction { info, rd: Some(rd), rs1: None, rs2: None, immediate: Some(imm) });
            &&& spec_opcode(w) == info.opcode
            &&& spec_rd(w) == rd
            &&& crate::isa::instruction::spec_immediate(w, InstructionFormat::J) == imm
        }),
{
    let inst = Instruction { info, rd: Some(rd), rs1: None, rs2: None, immediate: Some(imm) };
    lemma_encode_as_table(inst);
    law_encode_j_fields(info.opcode, rd, imm);
    crate::bits::lemma_even_clear_low_bit(imm);
}

/// An immediate operand written in decimal, or in hexadecimal after `0x`,
/// denotes that number: `100` and `0x64` both denote 100, for every number
/// that fits an `i32`.
pub proof fn law_immediate_digits(n: nat)
    requires
        n <= i32::MAX,
    ensures
        spec_immediate(spec_radix_chars(n, 10)) == Ok::<i32, Seq<char>>(n as i32),
        spec_immediate("0x"@ + spec_radix_chars(n, 16)) == Ok::<i32, Seq<char>>(n as i32),
{
    reveal_strlit("0x");
    let d = spec_radix_chars(n, 10);
    let h = spec_radix_chars(n, 16);
    crate::text::law_digits_read_back(n, 10);
    crate::text::law_digits_read_back(n, 16);
    crate::text::law_parse_i32_digits(n, 10);
    crate::text::law_parse_i32_digits(n, 16);
    assert(('0' <= d[0] <= '9') || ('A' <= d[0] <= 'F'));
    assert(d.last() == d[d.len() - 1]);
    assert(('0' <= d.last() <= '9') || ('A' <= d.last() <= 'F'));
    crate::text::lemma_trim_unchanged(d);
    if d.len() >= 2 {
        assert(d.subrange(0, 2)[1] == d[1]);
        assert(('0' <= d[1] <= '9') || ('A' <= d[1] <= 'F'));
        assert(d.subrange(0, 2)[1] != "0x"@[1]);
    }
    let x = "0x"@ + h;
    assert(x[0] == '0');
    assert(x.last() == h.last());
    assert(h.last() == h[h.len() - 1]);
    assert(('0' <= h.last() <= '9') || ('A' <= h.last() <= 'F'));
    crate::text::lemma_trim_unchanged(x);
    assert(x.subrange(0, 2) =~= "0x"@);
    assert(x.subrange(2, x.len() as int) =~= h);
}

} // verus!
