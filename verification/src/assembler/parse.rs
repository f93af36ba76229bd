//! Parsing of instruction lines into encoded instructions, for the
//! assembler that works with sections and data labels.
use vstd::prelude::*;

use crate::bits::spec_bits;
use crate::isa::definitions::{law_decode_build, lemma_definition_codes_fit, spec_decode, spec_definition, spec_isa_from_name};
use crate::isa::instruction::{
    law_encode_i_fields, spec_encode_definition, spec_encode_i, spec_immediate_encodable, spec_rd, spec_rs1, spec_rs2,
};
use crate::isa::{Instruction, InstructionDefinition, InstructionFormat, Operands, ISA};
use crate::labels::LabelMap;
use crate::text::{
    chars_equal_str, copy_chars, literal_chars, parse_i32, parse_u32, push_chars, push_str, radix_chars, slice_chars,
    spec_before_separator, spec_find_separator, spec_parse_i32, spec_parse_u32, spec_radix_chars, spec_tokens, spec_trim,
    spec_views, spec_lowercase, spec_uppercase,
    spec_ascii_upper, spec_is_ascii, starts_with_str, to_lowercase, to_uppercase, tokens, trim, before_separator,
    Separator,
};

verus! {

/// Why a line was not turned into an instruction.
#[derive(Debug)]
pub enum LineError {
    /// A syntax error, with its message.
    Message(Vec<char>),
    /// An input on which the assembler stops without a message: an
    /// instruction it cannot encode or an arithmetic overflow.
    Abort,
}

/// A result with its error as a message (`Some`) or a stop (`None`).
pub open spec fn spec_line_result<T>(r: Result<T, LineError>) -> Result<T, Option<Seq<char>>> {
    match r {
        Ok(v) => Ok(v),
        Err(LineError::Message(m)) => Err(Some(m@)),
        Err(LineError::Abort) => Err(None),
    }
}

/// A parse result with the instruction taken as its machine word.
pub open spec fn spec_line_word(r: Result<Instruction, LineError>) -> Result<u32, Option<Seq<char>>> {
    match r {
        Ok(i) => Ok(i@),
        Err(LineError::Message(m)) => Err(Some(m@)),
        Err(LineError::Abort) => Err(None),
    }
}

/// A line without its comment and the white space around it.
pub open spec fn spec_clean_line(line: Seq<char>) -> Seq<char> {
    spec_trim(spec_before_separator(line, Separator::Hash))
}

/// Removes the comment and the white space around a line.
pub fn clean_line(line: &Vec<char>) -> (r: Vec<char>)
    ensures
        r@ == spec_clean_line(line@),
{
    let before = before_separator(line, Separator::Hash);
    trim(&before)
}

/// A line split at its first colon into the label before it and the
/// content after it, both trimmed; a line without a colon has no label.
pub open spec fn spec_split_label(line: Seq<char>) -> (Option<Seq<char>>, Seq<char>) {
    match spec_find_separator(line, Separator::Colon) {
        Some(i) => (Some(spec_trim(line.subrange(0, i))), spec_trim(line.subrange(i + 1, line.len() as int))),
        None => (None, line),
    }
}

/// Splits a line at its first colon into a label and the rest.
pub fn split_label_and_content(line: &Vec<char>) -> (r: (Option<Vec<char>>, Vec<char>))
    ensures
        (match r.0 { Some(l) => Some(l@), None => None::<Seq<char>> }, r.1@) == spec_split_label(line@),
{
    proof { crate::text::lemma_find_separator(line@, Separator::Colon); }
    match crate::text::find_separator(line, 0, Separator::Colon) {
        Some(i) => {
            assert(line@.subrange(0, line@.len() as int) =~= line@);
            let raw_label = slice_chars(line, 0, i);
            let rest = slice_chars(line, i + 1, line.len());
            (Some(trim(&raw_label)), trim(&rest))
        },
        None => {
            assert(line@.subrange(0, line@.len() as int) =~= line@);
            (None, slice_chars(line, 0, line.len()))
        },
    }
}

/// The register `reg` names: `x` (either case) and a decimal number below
/// 32, with white space around allowed.
pub open spec fn spec_register(reg: Seq<char>) -> Result<u32, Seq<char>> {
    let r = spec_lowercase(spec_trim(reg));
    if !(r.len() > 0 && r[0] == 'x') {
        Err("Invalid register: "@ + r)
    } else {
        match spec_parse_u32(r.drop_first(), 10) {
            Some(n) => if n < 32 {
                Ok(n)
            } else {
                Err("Invalid register number: "@ + r)
            },
            None => Err("Invalid register number: "@ + r),
        }
    }
}

/// The register `reg` names.
pub fn parse_register(reg: &Vec<char>) -> (r: Result<u32, Vec<char>>)
    ensures
        match r {
            Ok(n) => spec_register(reg@) == Ok::<u32, Seq<char>>(n),
            Err(m) => spec_register(reg@) == Err::<u32, Seq<char>>(m@),
        },
{
    let reg = to_lowercase(&trim(reg));
    if !(reg.len() > 0 && reg[0] == 'x') {
        let mut m = literal_chars("Invalid register: ");
        push_chars(&mut m, &reg);
        return Err(m);
    }
    let number = slice_chars(&reg, 1, reg.len());
    assert(number@ =~= reg@.drop_first());
    match parse_u32(&number, 10) {
        Some(num) => if num < 32 {
            Ok(num)
        } else {
            let mut m = literal_chars("Invalid register number: ");
            push_chars(&mut m, &reg);
            Err(m)
        },
        None => {
            let mut m = literal_chars("Invalid register number: ");
            push_chars(&mut m, &reg);
            Err(m)
        },
    }
}

/// The register, as a line result.
fn register(reg: &Vec<char>) -> (r: Result<u32, LineError>)
    ensures
        spec_line_result(r) == match spec_register(reg@) {
            Ok(n) => Ok::<u32, Option<Seq<char>>>(n),
            Err(m) => Err(Some(m)),
        },
{
    match parse_register(reg) {
        Ok(n) => Ok(n),
        Err(m) => Err(LineError::Message(m)),
    }
}

/// The register result as a line result.
pub open spec fn spec_reg(reg: Seq<char>) -> Result<u32, Option<Seq<char>>> {
    match spec_register(reg) {
        Ok(n) => Ok(n),
        Err(m) => Err(Some(m)),
    }
}

/// The immediate `value` denotes: an optional minus sign, then a decimal
/// or `0x`-prefixed hexadecimal `i32`, which is negated after the sign.
/// Negating the least `i32` overflows: the assembler stops.
pub open spec fn spec_parse_immediate(value: Seq<char>) -> Result<i32, Option<Seq<char>>> {
    let v = spec_trim(value);
    let negative = v.len() > 0 && v[0] == '-';
    let w = if negative { v.drop_first() } else { v };
    let magnitude = if w.len() >= 2 && w.subrange(0, 2) == "0x"@ {
        spec_parse_i32(w.subrange(2, w.len() as int), 16)
    } else {
        spec_parse_i32(w, 10)
    };
    match magnitude {
        None => Err(Some("Invalid immediate value: "@ + w)),
        Some(a) => if !negative {
            Ok(a)
        } else if a == i32::MIN {
            Err(None)
        } else {
            Ok((-a) as i32)
        },
    }
}

/// Parses an immediate value.
pub fn parse_immediate(value: &Vec<char>) -> (r: Result<i32, LineError>)
    ensures
        spec_line_result(r) == spec_parse_immediate(value@),
{
    let v = trim(value);
    let negative = v.len() > 0 && v[0] == '-';
    let w = if negative { slice_chars(&v, 1, v.len()) } else { slice_chars(&v, 0, v.len()) };
    assert(v@.subrange(0, v@.len() as int) =~= v@);
    assert(v@.subrange(1, v@.len() as int) =~= v@.drop_first());
    proof { reveal_strlit("0x"); }
    let magnitude = if starts_with_str(&w, "0x") {
        let digits = slice_chars(&w, 2, w.len());
        parse_i32(&digits, 16)
    } else {
        parse_i32(&w, 10)
    };
    match magnitude {
        None => {
            let mut m = literal_chars("Invalid immediate value: ");
            push_chars(&mut m, &w);
            Err(LineError::Message(m))
        },
        Some(a) => if !negative {
            Ok(a)
        } else if a == i32::MIN {
            Err(LineError::Abort)
        } else {
            Ok(-a)
        },
    }
}

/// The offset and base register of a memory operand `offset(register)`;
/// the offset must lie in -2048..=2047.
pub open spec fn spec_parse_mem_address(addr: Seq<char>) -> Result<(i32, u32), Option<Seq<char>>> {
    let parts = spec_tokens(addr, Separator::Paren);
    if parts.len() != 2 {
        Err(Some("Memory address must be in format: offset(register)"@))
    } else {
        match spec_parse_immediate(parts[0]) {
            Err(e) => Err(e),
            Ok(offset) => if offset > 2047 || offset < -2048 {
                Err(Some("Memory offset out of range (-2048 to 2047)"@))
            } else {
                match spec_reg(parts[1]) {
                    Err(e) => Err(e),
                    Ok(reg) => Ok((offset, reg)),
                }
            },
        }
    }
}

/// Parses a memory operand `offset(register)`.
pub fn parse_mem_address(addr: &Vec<char>) -> (r: Result<(i32, u32), LineError>)
    ensures
        spec_line_result(r) == spec_parse_mem_address(addr@),
{
    let parts = tokens(addr, Separator::Paren);
    proof { assert(spec_views(parts@).len() == parts@.len()); }
    if parts.len() != 2 {
        return Err(LineError::Message(literal_chars("Memory address must be in format: offset(register)")));
    }
    proof {
        assert(spec_views(parts@)[0] == parts@[0]@);
        assert(spec_views(parts@)[1] == parts@[1]@);
    }
    let offset = parse_immediate(&parts[0])?;
    if offset > 2047 || offset < -2048 {
        return Err(LineError::Message(literal_chars("Memory offset out of range (-2048 to 2047)")));
    }
    let reg = register(&parts[1])?;
    Ok((offset, reg))
}

/// The operands with the given fields.
pub open spec fn ops(rd: u32, rs1: u32, rs2: u32, imm: i32) -> Operands {
    Operands { rd, rs1, rs2, imm }
}

/// An R-type line: three registers.
pub open spec fn spec_parse_r_type(parts: Seq<Seq<char>>, def: InstructionDefinition) -> Result<u32, Option<Seq<char>>> {
    if parts.len() != 4 {
        Err(Some("R-type instructions need 3 registers"@))
    } else {
        match (spec_reg(parts[1]), spec_reg(parts[2]), spec_reg(parts[3])) {
            (Err(e), _, _) => Err(e),
            (Ok(_), Err(e), _) => Err(e),
            (Ok(_), Ok(_), Err(e)) => Err(e),
            (Ok(rd), Ok(rs1), Ok(rs2)) => Ok(spec_encode_definition(def, ops(rd, rs1, rs2, 0))),
        }
    }
}

/// The immediate of a shift by an immediate (SLLI, SRLI, SRAI): the
/// function code in the upper bits and the shift amount in the low five;
/// other immediates are unchanged.
pub open spec fn spec_shift_immediate(def: InstructionDefinition, imm: i32) -> i32 {
    match def.funct7 {
        Some(f7) => if def.opcode == 0b0010011 && (def.funct3 == Some(1u8) || def.funct3 == Some(5u8)) {
            (((f7 as i32) << 5i32) | (imm & 0x1F)) as i32
        } else {
            imm
        },
        None => imm,
    }
}

/// An I-type line: a load, a system instruction (ECALL, EBREAK, and the
/// others of that opcode), a fence, or two registers and an immediate in
/// -2048..=2047.
pub open spec fn spec_parse_i_type(parts: Seq<Seq<char>>, def: InstructionDefinition) -> Result<u32, Option<Seq<char>>> {
    if def.opcode == 0b0000011 {
        spec_parse_load_type(parts, def)
    } else if def.opcode == 0b1110011 {
        if parts.len() != 1 {
            Err(Some("ECALL/EBREAK instructions take no operands"@))
        } else if parts[0] == "ECALL"@ {
            Ok(spec_encode_definition(def, ops(0, 0, 0, 0)))
        } else if parts[0] == "EBREAK"@ {
            Ok(spec_encode_definition(def, ops(0, 0, 0, 1)))
        } else {
            Err(None)
        }
    } else if def.opcode == 0b0001111 {
        if parts.len() != 1 {
            Err(Some("FENCE instruction takes no operands"@))
        } else {
            Ok(spec_encode_definition(def, ops(0, 0, 0, 0)))
        }
    } else if parts.len() != 4 {
        Err(Some("I-type instructions need 2 registers and an immediate"@))
    } else {
        match spec_parse_immediate(parts[3]) {
            Err(e) => Err(e),
            Ok(imm) => if imm > 2047 || imm < -2048 {
                Err(Some("Immediate value out of range (-2048 to 2047)"@))
            } else {
                match (spec_reg(parts[1]), spec_reg(parts[2])) {
                    (Err(e), _) => Err(e),
                    (Ok(_), Err(e)) => Err(e),
                    (Ok(rd), Ok(rs1)) => Ok(spec_encode_definition(def, ops(rd, rs1, 0, spec_shift_immediate(def, imm)))),
                }
            },
        }
    }
}

/// A load: a destination register and a memory operand.
pub open spec fn spec_parse_load_type(parts: Seq<Seq<char>>, def: InstructionDefinition) -> Result<u32, Option<Seq<char>>> {
    if parts.len() != 3 {
        Err(Some("Load instructions need a register and a memory address"@))
    } else {
        match spec_parse_mem_address(parts[2]) {
            Err(e) => Err(e),
            Ok((offset, base)) => match spec_reg(parts[1]) {
                Err(e) => Err(e),
                Ok(rd) => Ok(spec_encode_definition(def, ops(rd, base, 0, offset))),
            },
        }
    }
}

/// A store: a source register and a memory operand.
pub open spec fn spec_parse_s_type(parts: Seq<Seq<char>>, def: InstructionDefinition) -> Result<u32, Option<Seq<char>>> {
    if parts.len() != 3 {
        Err(Some("Store instructions need a register and a memory address"@))
    } else {
        match spec_parse_mem_address(parts[2]) {
            Err(e) => Err(e),
            Ok((offset, base)) => match spec_reg(parts[1]) {
                Err(e) => Err(e),
                Ok(rs2) => Ok(spec_encode_definition(def, ops(0, base, rs2, offset))),
            },
        }
    }
}

/// The distance from `current_address` to `target`, both read as `i32`;
/// `None` where the subtraction overflows.
pub open spec fn spec_label_offset(target: u32, current_address: u32) -> Option<i32> {
    (target as i32).checked_sub(current_address as i32)
}

/// A branch: two registers and a label, at an even distance in
/// -4096..=4095. Distances below -2048 cannot be encoded: the assembler
/// stops.
pub open spec fn spec_parse_b_type(
    parts: Seq<Seq<char>>,
    def: InstructionDefinition,
    labels: Map<Seq<char>, u32>,
    current_address: u32,
) -> Result<u32, Option<Seq<char>>> {
    if parts.len() != 4 {
        Err(Some("B-type instructions need 2 registers and a label"@))
    } else if !labels.contains_key(parts[3]) {
        Err(Some("Undefined label: "@ + parts[3]))
    } else {
        match spec_label_offset(labels[parts[3]], current_address) {
            None => Err(None),
            Some(offset) => if offset % 2 != 0 {
                Err(Some("Branch target must be 2-byte aligned"@))
            } else if offset > 4095 || offset < -4096 {
                Err(Some("Branch offset out of range (-4096 to +4095)"@))
            } else {
                match (spec_reg(parts[1]), spec_reg(parts[2])) {
                    (Err(e), _) => Err(e),
                    (Ok(_), Err(e)) => Err(e),
                    (Ok(rs1), Ok(rs2)) => if offset < -2048 {
                        Err(None)
                    } else {
                        Ok(spec_encode_definition(def, ops(0, rs1, rs2, offset)))
                    },
                }
            },
        }
    }
}

/// An upper-immediate instruction: a register and an immediate, of which
/// the low twenty bits are kept.
pub open spec fn spec_parse_u_type(parts: Seq<Seq<char>>, def: InstructionDefinition) -> Result<u32, Option<Seq<char>>> {
    if parts.len() != 3 {
        Err(Some("U-type instructions need a register and an immediate"@))
    } else {
        match spec_parse_immediate(parts[2]) {
            Err(e) => Err(e),
            Ok(imm) => match spec_reg(parts[1]) {
                Err(e) => Err(e),
                Ok(rd) => Ok(spec_encode_definition(def, ops(rd, 0, 0, ((imm as u32) & 0xFFFFF) as i32))),
            },
        }
    }
}

/// The offset of a jump: an even immediate, or else a label at an even
/// distance in -1048576..=1048575.
pub open spec fn spec_jump_offset(target: Seq<char>, labels: Map<Seq<char>, u32>, current_address: u32) -> Result<i32, Option<Seq<char>>> {
    match spec_parse_immediate(target) {
        Err(None) => Err(None),
        Ok(imm) => if imm % 2 != 0 {
            Err(Some("Jump target must be 2-byte aligned"@))
        } else {
            Ok(imm)
        },
        Err(Some(_)) => if !labels.contains_key(target) {
            Err(Some("Undefined label: "@ + target))
        } else {
            match spec_label_offset(labels[target], current_address) {
                None => Err(None),
                Some(offset) => if offset % 2 != 0 {
                    Err(Some("Jump target must be 2-byte aligned"@))
                } else if offset > 1048575 || offset < -1048576 {
                    Err(Some("Jump offset out of range (-1048576 to +1048575)"@))
                } else {
                    Ok(offset)
                },
            }
        },
    }
}

/// A jump: a register and an immediate or label. An immediate that the
/// J format cannot hold makes the assembler stop.
pub open spec fn spec_parse_j_type(
    parts: Seq<Seq<char>>,
    def: InstructionDefinition,
    labels: Map<Seq<char>, u32>,
    current_address: u32,
) -> Result<u32, Option<Seq<char>>> {
    if parts.len() != 3 {
        Err(Some("J-type instructions need a register and a label/offset"@))
    } else {
        match spec_jump_offset(parts[2], labels, current_address) {
            Err(e) => Err(e),
            Ok(offset) => match spec_reg(parts[1]) {
                Err(e) => Err(e),
                Ok(rd) => if !spec_immediate_encodable(InstructionFormat::J, offset) {
                    Err(None)
                } else {
                    Ok(spec_encode_definition(def, ops(rd, 0, 0, offset)))
                },
            },
        }
    }
}

/// Whether an instruction is a load or a store, whose memory operand may
/// name a data label.
pub open spec fn spec_is_memory_access(def: InstructionDefinition) -> bool {
    (def.format == InstructionFormat::I && def.opcode == 0b0000011)
        || (def.format == InstructionFormat::S && def.opcode == 0b0100011)
}

/// The machine word of an instruction line: a mnemonic (of any case) and
/// operands separated by spaces or commas. A load or store whose memory
/// operand is a data label addresses that label's offset from `x0`.
pub open spec fn spec_parse_instruction(
    line: Seq<char>,
    text_labels: Map<Seq<char>, u32>,
    data_labels: Map<Seq<char>, u32>,
    current_address: u32,
) -> Result<u32, Option<Seq<char>>> {
    let parts = spec_tokens(line, Separator::SpaceOrComma);
    if parts.len() == 0 {
        Err(Some("Empty instruction"@))
    } else {
        let name = spec_uppercase(parts[0]);
        match spec_isa_from_name(name) {
            None => Err(Some("Unknown instruction: "@ + name)),
            Some(isa) => {
                let def = spec_definition(isa);
                if spec_is_memory_access(def) && parts.len() == 3 && data_labels.contains_key(parts[2]) {
                    let modified = parts.update(2, spec_radix_chars(data_labels[parts[2]] as nat, 10) + "(x0)"@);
                    if def.format == InstructionFormat::I {
                        spec_parse_i_type(modified, def)
                    } else {
                        spec_parse_s_type(modified, def)
                    }
                } else {
                    match def.format {
                        InstructionFormat::R => spec_parse_r_type(parts, def),
                        InstructionFormat::I => spec_parse_i_type(parts, def),
                        InstructionFormat::S => spec_parse_s_type(parts, def),
                        InstructionFormat::B => spec_parse_b_type(parts, def, text_labels, current_address),
                        InstructionFormat::U => spec_parse_u_type(parts, def),
                        InstructionFormat::J => spec_parse_j_type(parts, def, text_labels, current_address),
                    }
                }
            },
        }
    }
}

/// Parses an R-type line.
fn parse_r_type(parts: &Vec<Vec<char>>, def: InstructionDefinition) -> (r: Result<Instruction, LineError>)
    requires
        def.codes_fit(),
    ensures
        spec_line_word(r) == spec_parse_r_type(spec_views(parts@), def),
{
    if parts.len() != 4 {
        return Err(LineError::Message(literal_chars("R-type instructions need 3 registers")));
    }
    let operands = Operands { rd: register(&parts[1])?, rs1: register(&parts[2])?, rs2: register(&parts[3])?, imm: 0 };
    Ok(Instruction::from_def_operands(def, operands))
}

/// Parses an I-type line.
fn parse_i_type(parts: &Vec<Vec<char>>, def: InstructionDefinition) -> (r: Result<Instruction, LineError>)
    requires
        def.codes_fit(),
        def.format == InstructionFormat::I,
    ensures
        spec_line_word(r) == spec_parse_i_type(spec_views(parts@), def),
{
    if def.opcode == 0b0000011 {
        return parse_load_type(parts, def);
    }
    if def.opcode == 0b1110011 {
        if parts.len() != 1 {
            return Err(LineError::Message(literal_chars("ECALL/EBREAK instructions take no operands")));
        }
        assert(spec_views(parts@)[0] == parts@[0]@);
        let imm: i32 = if chars_equal_str(&parts[0], "ECALL") {
            0
        } else if chars_equal_str(&parts[0], "EBREAK") {
            1
        } else {
            return Err(LineError::Abort);
        };
        let operands = Operands { rd: 0, rs1: 0, rs2: 0, imm };
        return Ok(Instruction::from_def_operands(def, operands));
    }
    if def.opcode == 0b0001111 {
        if parts.len() != 1 {
            return Err(LineError::Message(literal_chars("FENCE instruction takes no operands")));
        }
        let operands = Operands { rd: 0, rs1: 0, rs2: 0, imm: 0 };
        return Ok(Instruction::from_def_operands(def, operands));
    }
    if parts.len() != 4 {
        return Err(LineError::Message(literal_chars("I-type instructions need 2 registers and an immediate")));
    }
    let mut imm = parse_immediate(&parts[3])?;
    if imm > 2047 || imm < -2048 {
        return Err(LineError::Message(literal_chars("Immediate value out of range (-2048 to 2047)")));
    }
    if let Some(funct7) = def.funct7 {
        let shift = def.opcode == 0b0010011 && match def.funct3 {
            Some(f) => f == 1 || f == 5,
            None => false,
        };
        if shift {
            let shamt = imm & 0x1F;
            assert(0 <= shamt <= 31) by (bit_vector)
                requires
                    shamt == imm & 0x1F,
            ;
            let shifted = ((funct7 as i32) << 5i32) | shamt;
            assert(0 <= shifted <= 4095) by (bit_vector)
                requires
                    funct7 < 128,
                    0 <= shamt <= 31,
                    shifted == ((funct7 as i32) << 5i32) | shamt,
            ;
            imm = shifted;
        }
    }
    let operands = Operands { rd: register(&parts[1])?, rs1: register(&parts[2])?, rs2: 0, imm };
    Ok(Instruction::from_def_operands(def, operands))
}

/// Parses a load line.
fn parse_load_type(parts: &Vec<Vec<char>>, def: InstructionDefinition) -> (r: Result<Instruction, LineError>)
    requires
        def.codes_fit(),
        def.format == InstructionFormat::I,
    ensures
        spec_line_word(r) == spec_parse_load_type(spec_views(parts@), def),
{
    if parts.len() != 3 {
        return Err(LineError::Message(literal_chars("Load instructions need a register and a memory address")));
    }
    let (offset, base) = parse_mem_address(&parts[2])?;
    let operands = Operands { rd: register(&parts[1])?, rs1: base, rs2: 0, imm: offset };
    Ok(Instruction::from_def_operands(def, operands))
}

/// Parses a store line.
fn parse_s_type(parts: &Vec<Vec<char>>, def: InstructionDefinition) -> (r: Result<Instruction, LineError>)
    requires
        def.codes_fit(),
        def.format == InstructionFormat::S,
    ensures
        spec_line_word(r) == spec_parse_s_type(spec_views(parts@), def),
{
    if parts.len() != 3 {
        return Err(LineError::Message(literal_chars("Store instructions need a register and a memory address")));
    }
    let (offset, base) = parse_mem_address(&parts[2])?;
    let operands = Operands { rd: 0, rs1: base, rs2: register(&parts[1])?, imm: offset };
    Ok(Instruction::from_def_operands(def, operands))
}

/// The distance from `current_address` to `target`, both read as `i32`.
fn label_offset(target: u32, current_address: u32) -> (r: Option<i32>)
    ensures
        r == spec_label_offset(target, current_address),
{
    (target as i32).checked_sub(current_address as i32)
}

/// Parses a branch line.
fn parse_b_type(
    parts: &Vec<Vec<char>>,
    def: InstructionDefinition,
    labels: &LabelMap<u32>,
    current_address: u32,
) -> (r: Result<Instruction, LineError>)
    requires
        def.codes_fit(),
        def.format == InstructionFormat::B,
        labels.wf(),
    ensures
        spec_line_word(r) == spec_parse_b_type(spec_views(parts@), def, labels@, current_address),
{
    if parts.len() != 4 {
        return Err(LineError::Message(literal_chars("B-type instructions need 2 registers and a label")));
    }
    assert(spec_views(parts@)[3] == parts@[3]@);
    let target = match labels.get(&parts[3]) {
        Some(t) => t,
        None => {
            let mut m = literal_chars("Undefined label: ");
            push_chars(&mut m, &parts[3]);
            return Err(LineError::Message(m));
        },
    };
    let offset = match label_offset(target, current_address) {
        Some(o) => o,
        None => return Err(LineError::Abort),
    };
    if offset & 1 != 0 {
        proof { crate::bits::lemma_even_low_bit(offset); }
        return Err(LineError::Message(literal_chars("Branch target must be 2-byte aligned")));
    }
    proof { crate::bits::lemma_even_low_bit(offset); }
    if offset > 4095 || offset < -4096 {
        return Err(LineError::Message(literal_chars("Branch offset out of range (-4096 to +4095)")));
    }
    let operands = Operands { rd: 0, rs1: register(&parts[1])?, rs2: register(&parts[2])?, imm: offset };
    if offset < -2048 {
        return Err(LineError::Abort);
    }
    Ok(Instruction::from_def_operands(def, operands))
}

/// Parses an upper-immediate line.
fn parse_u_type(parts: &Vec<Vec<char>>, def: InstructionDefinition) -> (r: Result<Instruction, LineError>)
    requires
        def.codes_fit(),
        def.format == InstructionFormat::U,
    ensures
        spec_line_word(r) == spec_parse_u_type(spec_views(parts@), def),
{
    if parts.len() != 3 {
        return Err(LineError::Message(literal_chars("U-type instructions need a register and an immediate")));
    }
    let imm = parse_immediate(&parts[2])?;
    let imm_value = (imm as u32) & 0xFFFFF;
    let operands = Operands { rd: register(&parts[1])?, rs1: 0, rs2: 0, imm: imm_value as i32 };
    Ok(Instruction::from_def_operands(def, operands))
}

/// The offset of a jump line's target.
fn jump_offset(target: &Vec<char>, labels: &LabelMap<u32>, current_address: u32) -> (r: Result<i32, LineError>)
    requires
        labels.wf(),
    ensures
        spec_line_result(r) == spec_jump_offset(target@, labels@, current_address),
{
    match parse_immediate(target) {
        Err(LineError::Abort) => Err(LineError::Abort),
        Ok(imm) => {
            if imm & 1 != 0 {
                proof { crate::bits::lemma_even_low_bit(imm); }
                return Err(LineError::Message(literal_chars("Jump target must be 2-byte aligned")));
            }
            proof { crate::bits::lemma_even_low_bit(imm); }
            Ok(imm)
        },
        Err(LineError::Message(_)) => {
            let t = match labels.get(target) {
                Some(t) => t,
                None => {
                    let mut m = literal_chars("Undefined label: ");
                    push_chars(&mut m, target);
                    return Err(LineError::Message(m));
                },
            };
            let offset = match label_offset(t, current_address) {
                Some(o) => o,
                None => return Err(LineError::Abort),
            };
            if offset & 1 != 0 {
                proof { crate::bits::lemma_even_low_bit(offset); }
                return Err(LineError::Message(literal_chars("Jump target must be 2-byte aligned")));
            }
            proof { crate::bits::lemma_even_low_bit(offset); }
            if offset > 1048575 || offset < -1048576 {
                return Err(LineError::Message(literal_chars("Jump offset out of range (-1048576 to +1048575)")));
            }
            Ok(offset)
        },
    }
}

/// Parses a jump line.
fn parse_j_type(
    parts: &Vec<Vec<char>>,
    def: InstructionDefinition,
    labels: &LabelMap<u32>,
    current_address: u32,
) -> (r: Result<Instruction, LineError>)
    requires
        def.codes_fit(),
        def.format == InstructionFormat::J,
        labels.wf(),
    ensures
        spec_line_word(r) == spec_parse_j_type(spec_views(parts@), def, labels@, current_address),
{
    if parts.len() != 3 {
        return Err(LineError::Message(literal_chars("J-type instructions need a register and a label/offset")));
    }
    assert(spec_views(parts@)[2] == parts@[2]@);
    let offset = jump_offset(&parts[2], labels, current_address)?;
    let rd = register(&parts[1])?;
    let encodable = if offset >= 0 { offset < 0x20_0000 && offset % 2 == 0 } else { offset >= -0x10_0000 };
    if !encodable {
        return Err(LineError::Abort);
    }
    let operands = Operands { rd, rs1: 0, rs2: 0, imm: offset };
    Ok(Instruction::from_def_operands(def, operands))
}

/// Parses an instruction line at `current_address`; branches and jumps
/// resolve `text_labels`, loads and stores `data_labels`. What a line with
/// an ASCII mnemonic assembles to decodes to the instruction the line
/// names, but for FENCE_TSO and PAUSE, which assemble as a plain FENCE.
pub fn parse_instruction(
    line: &Vec<char>,
    text_labels: &LabelMap<u32>,
    data_labels: &LabelMap<u32>,
    current_address: u32,
) -> (r: Result<Instruction, LineError>)
    requires
        text_labels.wf(),
        data_labels.wf(),
    ensures
        spec_line_word(r) == spec_parse_instruction(line@, text_labels@, data_labels@, current_address),
        r is Ok && spec_is_ascii(spec_tokens(line@, Separator::SpaceOrComma)[0]) && spec_mnemonic(line@) != Some(
            ISA::FENCE_TSO,
        ) && spec_mnemonic(line@) != Some(ISA::PAUSE) ==> spec_mnemonic(line@) is Some && spec_decode(r->Ok_0@)
            == spec_mnemonic(line@),
{
    let r = parse_instruction_word(line, text_labels, data_labels, current_address);
    proof {
        if r is Ok && spec_is_ascii(spec_tokens(line@, Separator::SpaceOrComma)[0]) && spec_mnemonic(line@) != Some(
            ISA::FENCE_TSO,
        ) && spec_mnemonic(line@) != Some(ISA::PAUSE) {
            law_parse_instruction_decodes(line@, text_labels@, data_labels@, current_address);
        }
    }
    r
}

fn parse_instruction_word(
    line: &Vec<char>,
    text_labels: &LabelMap<u32>,
    data_labels: &LabelMap<u32>,
    current_address: u32,
) -> (r: Result<Instruction, LineError>)
    requires
        text_labels.wf(),
        data_labels.wf(),
    ensures
        spec_line_word(r) == spec_parse_instruction(line@, text_labels@, data_labels@, current_address),
{
    let parts = tokens(line, Separator::SpaceOrComma);
    let ghost pv = spec_views(parts@);
    assert(pv.len() == parts@.len());
    if parts.len() == 0 {
        return Err(LineError::Message(literal_chars("Empty instruction")));
    }
    assert(pv[0] == parts@[0]@);
    let name = to_uppercase(&parts[0]);
    let isa = match ISA::from_name(&name) {
        Some(isa) => isa,
        None => {
            let mut m = literal_chars("Unknown instruction: ");
            push_chars(&mut m, &name);
            return Err(LineError::Message(m));
        },
    };
    let def = isa.definition();
    proof { lemma_definition_codes_fit(isa); }
    let memory_access = (def.format == InstructionFormat::I && def.opcode == 0b0000011)
        || (def.format == InstructionFormat::S && def.opcode == 0b0100011);
    if memory_access && parts.len() == 3 {
        assert(pv[2] == parts@[2]@);
        if let Some(offset) = data_labels.get(&parts[2]) {
            let mut modified_addr = radix_chars(offset as u64, 10);
            push_str(&mut modified_addr, "(x0)");
            let mut modified_parts: Vec<Vec<char>> = Vec::new();
            modified_parts.push(copy_chars(&parts[0]));
            modified_parts.push(copy_chars(&parts[1]));
            modified_parts.push(modified_addr);
            assert(spec_views(modified_parts@) =~= pv.update(2, spec_radix_chars(data_labels@[pv[2]] as nat, 10) + "(x0)"@));
            return if def.format == InstructionFormat::I {
                parse_i_type(&modified_parts, def)
            } else {
                parse_s_type(&modified_parts, def)
            };
        }
    }
    match def.format {
        InstructionFormat::R => parse_r_type(&parts, def),
        InstructionFormat::I => parse_i_type(&parts, def),
        InstructionFormat::S => parse_s_type(&parts, def),
        InstructionFormat::B => parse_b_type(&parts, def, text_labels, current_address),
        InstructionFormat::U => parse_u_type(&parts, def),
        InstructionFormat::J => parse_j_type(&parts, def, text_labels, current_address),
    }
}

/// The instruction a line names by its first token, upper-cased.
pub open spec fn spec_mnemonic(line: Seq<char>) -> Option<ISA> {
    let parts = spec_tokens(line, Separator::SpaceOrComma);
    if parts.len() == 0 {
        None
    } else {
        spec_isa_from_name(spec_uppercase(parts[0]))
    }
}

proof fn lemma_reg_bound(reg: Seq<char>)
    ensures
        spec_reg(reg) matches Ok(n) ==> n < 32,
{
}

proof fn lemma_mem_address_bounds(addr: Seq<char>)
    ensures
        spec_parse_mem_address(addr) matches Ok((offset, base)) ==> -2048 <= offset <= 2047 && base < 32,
{
    let parts = spec_tokens(addr, Separator::Paren);
    if parts.len() == 2 {
        lemma_reg_bound(parts[1]);
    }
}

/// The words of ECALL, EBREAK and FENCE as the assembler encodes them.
proof fn lemma_system_words()
    ensures
        spec_encode_i(0b1110011, 0, 0, 0, 0) == 0x0000_0073,
        spec_encode_i(0b1110011, 0, 0, 0, 1) == 0x0010_0073,
        spec_encode_i(0b0001111, 0, 0, 0, 0) == 0x0000_000F,
{
    assert(spec_encode_i(0b1110011, 0, 0, 0, 0) == 0x0000_0073 && spec_encode_i(0b1110011, 0, 0, 0, 1) == 0x0010_0073
        && spec_encode_i(0b0001111, 0, 0, 0, 0) == 0x0000_000F) by (bit_vector);
}

/// A shift immediate holds the function code in its bits 11..5 and fits
/// the I format.
proof fn lemma_shift_immediate(def: InstructionDefinition, imm: i32)
    requires
        def.codes_fit(),
        -2048 <= imm <= 2047,
    ensures
        -2048 <= spec_shift_immediate(def, imm) <= 4095,
        (def.funct7 matches Some(f7) && def.opcode == 0b0010011 && (def.funct3 == Some(1u8) || def.funct3 == Some(5u8)))
            ==> spec_bits(spec_shift_immediate(def, imm) as u32, 5, 7) == def.funct7->0 as u32,
{
    match def.funct7 {
        Some(f7) => {
            let v = (((f7 as i32) << 5i32) | (imm & 0x1F)) as i32;
            assert(0 <= v <= 4095 && spec_bits(v as u32, 5, 7) == f7 as u32) by (bit_vector)
                requires
                    f7 < 128,
                    v == (((f7 as i32) << 5i32) | (imm & 0x1F)) as i32,
            ;
        },
        None => {},
    }
}

proof fn lemma_r_type_decodes(parts: Seq<Seq<char>>, isa: ISA, w: u32)
    requires
        spec_definition(isa).format == InstructionFormat::R,
        spec_parse_r_type(parts, spec_definition(isa)) == Ok::<u32, Option<Seq<char>>>(w),
    ensures
        spec_decode(w) == Some(isa),
{
    lemma_definition_codes_fit(isa);
    lemma_reg_bound(parts[1]);
    lemma_reg_bound(parts[2]);
    lemma_reg_bound(parts[3]);
    law_decode_build(isa, ops(spec_reg(parts[1])->Ok_0, spec_reg(parts[2])->Ok_0, spec_reg(parts[3])->Ok_0, 0));
}

proof fn lemma_i_type_decodes(parts: Seq<Seq<char>>, isa: ISA, w: u32)
    requires
        spec_definition(isa).format == InstructionFormat::I,
        isa != ISA::FENCE_TSO,
        isa != ISA::PAUSE,
        parts.len() > 0 && parts[0] == "ECALL"@ ==> isa == ISA::ECALL,
        parts.len() > 0 && parts[0] == "EBREAK"@ ==> isa == ISA::EBREAK,
        spec_parse_i_type(parts, spec_definition(isa)) == Ok::<u32, Option<Seq<char>>>(w),
    ensures
        spec_decode(w) == Some(isa),
{
    let def = spec_definition(isa);
    lemma_definition_codes_fit(isa);
    if def.opcode == 0b0000011 {
        lemma_mem_address_bounds(parts[2]);
        lemma_reg_bound(parts[1]);
        let (offset, base) = spec_parse_mem_address(parts[2])->Ok_0;
        law_decode_build(isa, ops(spec_reg(parts[1])->Ok_0, base, 0, offset));
    } else if def.opcode == 0b1110011 {
        lemma_system_words();
        if isa == ISA::ECALL {
            law_decode_build(isa, ops(0, 0, 0, 0));
        } else {
            law_decode_build(isa, ops(0, 0, 0, 1));
        }
    } else if def.opcode == 0b0001111 {
        lemma_system_words();
        law_decode_build(isa, ops(0, 0, 0, 0));
    } else {
        let imm = spec_parse_immediate(parts[3])->Ok_0;
        lemma_reg_bound(parts[1]);
        lemma_reg_bound(parts[2]);
        lemma_shift_immediate(def, imm);
        let rd = spec_reg(parts[1])->Ok_0;
        let rs1 = spec_reg(parts[2])->Ok_0;
        let shifted = spec_shift_immediate(def, imm);
        law_encode_i_fields(def.opcode as u32, rd, crate::isa::instruction::spec_code_or_zero(def.funct3), rs1, shifted);
        law_decode_build(isa, ops(rd, rs1, 0, shifted));
    }
}

proof fn lemma_s_type_decodes(parts: Seq<Seq<char>>, isa: ISA, w: u32)
    requires
        spec_definition(isa).format == InstructionFormat::S,
        spec_parse_s_type(parts, spec_definition(isa)) == Ok::<u32, Option<Seq<char>>>(w),
    ensures
        spec_decode(w) == Some(isa),
{
    lemma_definition_codes_fit(isa);
    lemma_mem_address_bounds(parts[2]);
    lemma_reg_bound(parts[1]);
    let (offset, base) = spec_parse_mem_address(parts[2])->Ok_0;
    law_decode_build(isa, ops(0, base, spec_reg(parts[1])->Ok_0, offset));
}

proof fn lemma_b_type_decodes(parts: Seq<Seq<char>>, isa: ISA, labels: Map<Seq<char>, u32>, current_address: u32, w: u32)
    requires
        spec_definition(isa).format == InstructionFormat::B,
        spec_parse_b_type(parts, spec_definition(isa), labels, current_address) == Ok::<u32, Option<Seq<char>>>(w),
    ensures
        spec_decode(w) == Some(isa),
{
    lemma_definition_codes_fit(isa);
    lemma_reg_bound(parts[1]);
    lemma_reg_bound(parts[2]);
    let offset = spec_label_offset(labels[parts[3]], current_address)->Some_0;
    law_decode_build(isa, ops(0, spec_reg(parts[1])->Ok_0, spec_reg(parts[2])->Ok_0, offset));
}

proof fn lemma_u_type_decodes(parts: Seq<Seq<char>>, isa: ISA, w: u32)
    requires
        spec_definition(isa).format == InstructionFormat::U,
        spec_parse_u_type(parts, spec_definition(isa)) == Ok::<u32, Option<Seq<char>>>(w),
    ensures
        spec_decode(w) == Some(isa),
{
    lemma_definition_codes_fit(isa);
    lemma_reg_bound(parts[1]);
    let imm = spec_parse_immediate(parts[2])->Ok_0;
    law_decode_build(isa, ops(spec_reg(parts[1])->Ok_0, 0, 0, ((imm as u32) & 0xFFFFF) as i32));
}

proof fn lemma_j_type_decodes(parts: Seq<Seq<char>>, isa: ISA, labels: Map<Seq<char>, u32>, current_address: u32, w: u32)
    requires
        spec_definition(isa).format == InstructionFormat::J,
        spec_parse_j_type(parts, spec_definition(isa), labels, current_address) == Ok::<u32, Option<Seq<char>>>(w),
    ensures
        spec_decode(w) == Some(isa),
{
    lemma_definition_codes_fit(isa);
    lemma_reg_bound(parts[1]);
    let offset = spec_jump_offset(parts[2], labels, current_address)->Ok_0;
    law_decode_build(isa, ops(spec_reg(parts[1])->Ok_0, 0, 0, offset));
}

/// What an instruction line with an ASCII mnemonic assembles to decodes
/// to the instruction the line names; FENCE_TSO and PAUSE assemble as a
/// plain FENCE and are left out.
pub proof fn law_parse_instruction_decodes(
    line: Seq<char>,
    text_labels: Map<Seq<char>, u32>,
    data_labels: Map<Seq<char>, u32>,
    current_address: u32,
)
    requires
        spec_tokens(line, Separator::SpaceOrComma).len() > 0 ==> spec_is_ascii(spec_tokens(line, Separator::SpaceOrComma)[0]),
        spec_mnemonic(line) != Some(ISA::FENCE_TSO),
        spec_mnemonic(line) != Some(ISA::PAUSE),
        spec_parse_instruction(line, text_labels, data_labels, current_address) is Ok,
    ensures
        spec_mnemonic(line) is Some,
        spec_decode(spec_parse_instruction(line, text_labels, data_labels, current_address)->Ok_0) == spec_mnemonic(line),
{
    let parts = spec_tokens(line, Separator::SpaceOrComma);
    let w = spec_parse_instruction(line, text_labels, data_labels, current_address)->Ok_0;
    let name = spec_uppercase(parts[0]);
    let isa = spec_isa_from_name(name)->Some_0;
    let def = spec_definition(isa);
    assert(parts[0] == "ECALL"@ ==> isa == ISA::ECALL) by {
        if parts[0] == "ECALL"@ {
            reveal_strlit("ECALL");
            assert(name =~= "ECALL"@);
            crate::isa::definitions::lemma_isa_from_name_system();
        }
    }
    assert(parts[0] == "EBREAK"@ ==> isa == ISA::EBREAK) by {
        if parts[0] == "EBREAK"@ {
            reveal_strlit("EBREAK");
            assert(name =~= "EBREAK"@);
            crate::isa::definitions::lemma_isa_from_name_system();
        }
    }
    if spec_is_memory_access(def) && parts.len() == 3 && data_labels.contains_key(parts[2]) {
        let modified = parts.update(2, spec_radix_chars(data_labels[parts[2]] as nat, 10) + "(x0)"@);
        if def.format == InstructionFormat::I {
            lemma_i_type_decodes(modified, isa, w);
        } else {
            lemma_s_type_decodes(modified, isa, w);
        }
    } else {
        match def.format {
            InstructionFormat::R => lemma_r_type_decodes(parts, isa, w),
            InstructionFormat::I => lemma_i_type_decodes(parts, isa, w),
            InstructionFormat::S => lemma_s_type_decodes(parts, isa, w),
            InstructionFormat::B => lemma_b_type_decodes(parts, isa, text_labels, current_address, w),
            InstructionFormat::U => lemma_u_type_decodes(parts, isa, w),
            InstructionFormat::J => lemma_j_type_decodes(parts, isa, text_labels, current_address, w),
        }
    }
}

/// A register operand written `x` and the number of a register in decimal
/// names that register: `x10` is register 10, for every register 0..=31.
pub proof fn law_register_decimal(n: nat)
    requires
        n < 32,
    ensures
        spec_register("x"@ + spec_radix_chars(n, 10)) == Ok::<u32, Seq<char>>(n as u32),
{
    reveal_strlit("x");
    let digits = spec_radix_chars(n, 10);
    let s = "x"@ + digits;
    crate::text::law_decimal_digits_read_back(n);
    crate::text::law_parse_u32_decimal(n);
    assert(s[0] == 'x');
    assert forall|i: int| 1 <= i < s.len() implies '0' <= #[trigger] s[i] <= '9' by {
        assert(s[i] == digits[i - 1]);
    }
    assert(!crate::text::spec_is_whitespace(s[0]));
    assert(!crate::text::spec_is_whitespace(s.last()));
    assert(crate::text::spec_trim_start(s) == s);
    assert(crate::text::spec_trim_end(s) == s);
    assert(spec_trim(s) == s);
    assert(crate::text::spec_is_ascii(s));
    assert(spec_lowercase(s) =~= s);
    assert(s.drop_first() =~= digits);
}

/// The immediate that `sign` (empty or `-`), `prefix` (empty or `0x`) and
/// the digits of `n` in `radix` denote, where the prefix names the radix.
proof fn lemma_immediate_digits(sign: Seq<char>, prefix: Seq<char>, n: nat, radix: nat)
    requires
        n <= i32::MAX,
        sign == Seq::<char>::empty() || sign == seq!['-'],
        (radix == 10 && prefix == Seq::<char>::empty()) || (radix == 16 && prefix == seq!['0', 'x']),
    ensures
        spec_parse_immediate(sign + prefix + spec_radix_chars(n, radix)) == Ok::<i32, Option<Seq<char>>>(
            if sign.len() == 0 { n as i32 } else { (-n) as i32 },
        ),
{
    reveal_strlit("0x");
    let digits = spec_radix_chars(n, radix);
    crate::text::law_digits_read_back(n, radix);
    crate::text::law_parse_i32_digits(n, radix);
    let w = prefix + digits;
    let v = sign + w;
    assert(sign + prefix + digits =~= v);
    assert(('0' <= digits[0] <= '9') || ('A' <= digits[0] <= 'F'));
    assert(('0' <= digits.last() <= '9') || ('A' <= digits.last() <= 'F')) by {
        assert(digits.last() == digits[digits.len() - 1]);
    }
    assert(v.last() == digits.last());
    assert(v[0] == if sign.len() > 0 { '-' } else if prefix.len() > 0 { '0' } else { digits[0] });
    crate::text::lemma_trim_unchanged(v);
    assert(v.len() > 0 && v[0] == '-' <==> sign.len() > 0);
    if sign.len() > 0 {
        assert(v.drop_first() =~= w);
    } else {
        assert(v =~= w);
    }
    if radix == 16 {
        assert(w.subrange(0, 2) =~= "0x"@);
        assert(w.subrange(2, w.len() as int) =~= digits);
    } else {
        assert(w =~= digits);
        if w.len() >= 2 {
            assert(w[1] == digits[1]);
            assert(w.subrange(0, 2)[1] != "0x"@[1]);
        }
    }
    let vt = spec_trim(v);
    let negative = vt.len() > 0 && vt[0] == '-';
    let wt = if negative { vt.drop_first() } else { vt };
    assert(wt == w);
    assert(negative == (sign.len() > 0));
}

/// An immediate written in decimal denotes that number, and with a minus
/// sign before it its negation: `42` is 42 and `-42` is -42, for every
/// magnitude that fits an `i32`.
pub proof fn law_immediate_decimal(n: nat)
    requires
        n <= i32::MAX,
    ensures
        spec_parse_immediate(spec_radix_chars(n, 10)) == Ok::<i32, Option<Seq<char>>>(n as i32),
        spec_parse_immediate("-"@ + spec_radix_chars(n, 10)) == Ok::<i32, Option<Seq<char>>>((-n) as i32),
{
    reveal_strlit("-");
    let digits = spec_radix_chars(n, 10);
    let e = Seq::<char>::empty();
    lemma_immediate_digits(e, e, n, 10);
    lemma_immediate_digits(seq!['-'], e, n, 10);
    assert(e + e + digits =~= digits);
    assert(seq!['-'] + e + digits =~= "-"@ + digits);
}

/// An immediate written `0x` and hexadecimal digits denotes the number
/// those digits name in base sixteen, and with a minus sign before it its
/// negation: `0x1F` is 31 and `-0x1F` is -31, for every magnitude that fits
/// an `i32`.
pub proof fn law_immediate_hexadecimal(n: nat)
    requires
        n <= i32::MAX,
    ensures
        spec_parse_immediate("0x"@ + spec_radix_chars(n, 16)) == Ok::<i32, Option<Seq<char>>>(n as i32),
        spec_parse_immediate("-0x"@ + spec_radix_chars(n, 16)) == Ok::<i32, Option<Seq<char>>>((-n) as i32),
{
    reveal_strlit("0x");
    reveal_strlit("-0x");
    let digits = spec_radix_chars(n, 16);
    let e = Seq::<char>::empty();
    let p = seq!['0', 'x'];
    lemma_immediate_digits(e, p, n, 16);
    lemma_immediate_digits(seq!['-'], p, n, 16);
    assert(e + p + digits =~= "0x"@ + digits);
    assert(seq!['-'] + p + digits =~= "-0x"@ + digits);
}

/// What an instruction line assembles to holds its operands, in the order
/// they are written, in the fields of its format: `op rd, rs1, rs2` for
/// register arithmetic; `op rd, rs1, imm` for register-immediate arithmetic
/// other than shifts, with the immediate as written; and `op rs1, rs2,
/// label` for branches, with the distance from the instruction to the label
/// as the immediate.
pub proof fn law_parse_instruction_operands(
    line: Seq<char>,
    text_labels: Map<Seq<char>, u32>,
    data_labels: Map<Seq<char>, u32>,
    current_address: u32,
)
    requires
        spec_mnemonic(line) is Some,
        spec_parse_instruction(line, text_labels, data_labels, current_address) is Ok,
    ensures
        ({
            let parts = spec_tokens(line, Separator::SpaceOrComma);
            let isa = spec_mnemonic(line)->Some_0;
            let format = spec_definition(isa).format;
            let w = spec_parse_instruction(line, text_labels, data_labels, current_address)->Ok_0;
            let reg = |i: int| spec_register(parts[i])->Ok_0;
            &&& format == InstructionFormat::R ==> {
                &&& spec_rd(w) == reg(1)
                &&& spec_rs1(w) == reg(2)
                &&& spec_rs2(w) == reg(3)
            }
            &&& (isa == ISA::ADDI || isa == ISA::SLTI || isa == ISA::SLTIU || isa == ISA::XORI || isa == ISA::ORI
                || isa == ISA::ANDI) ==> {
                &&& spec_rd(w) == reg(1)
                &&& spec_rs1(w) == reg(2)
                &&& crate::isa::instruction::spec_immediate(w, InstructionFormat::I) == spec_parse_immediate(
                    parts[3],
                )->Ok_0
            }
            &&& format == InstructionFormat::B ==> {
                &&& spec_rs1(w) == reg(1)
                &&& spec_rs2(w) == reg(2)
                &&& crate::isa::instruction::spec_immediate(w, InstructionFormat::B) as int == (
                text_labels[parts[3]] as i32) - (current_address as i32)
            }
        }),
{
    let parts = spec_tokens(line, Separator::SpaceOrComma);
    let isa = spec_mnemonic(line)->Some_0;
    let def = spec_definition(isa);
    let w = spec_parse_instruction(line, text_labels, data_labels, current_address)->Ok_0;
    lemma_definition_codes_fit(isa);
    let f3 = crate::isa::instruction::spec_code_or_zero(def.funct3);
    let f7 = crate::isa::instruction::spec_code_or_zero(def.funct7);
    if def.format == InstructionFormat::R {
        lemma_reg_bound(parts[1]);
        lemma_reg_bound(parts[2]);
        lemma_reg_bound(parts[3]);
        crate::isa::instruction::law_encode_r_fields(
            def.opcode as u32,
            spec_reg(parts[1])->Ok_0,
            f3,
            spec_reg(parts[2])->Ok_0,
            spec_reg(parts[3])->Ok_0,
            f7,
        );
    }
    if isa == ISA::ADDI || isa == ISA::SLTI || isa == ISA::SLTIU || isa == ISA::XORI || isa == ISA::ORI || isa
        == ISA::ANDI {
        lemma_reg_bound(parts[1]);
        lemma_reg_bound(parts[2]);
        let imm = spec_parse_immediate(parts[3])->Ok_0;
        assert(spec_shift_immediate(def, imm) == imm);
        law_encode_i_fields(def.opcode as u32, spec_reg(parts[1])->Ok_0, f3, spec_reg(parts[2])->Ok_0, imm);
    }
    if def.format == InstructionFormat::B {
        lemma_reg_bound(parts[1]);
        lemma_reg_bound(parts[2]);
        let offset = spec_label_offset(text_labels[parts[3]], current_address)->Some_0;
        assert(offset as int == (text_labels[parts[3]] as i32) - (current_address as i32));
        crate::isa::instruction::law_encode_b_fields(
            def.opcode as u32,
            f3,
            spec_reg(parts[1])->Ok_0,
            spec_reg(parts[2])->Ok_0,
            offset,
        );
        crate::bits::lemma_even_clear_low_bit(offset);
    }
}

} // verus!
