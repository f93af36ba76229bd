//! A 32-bit RV32I instruction word: encoding from fields and decoding of
//! every field back out of the word.
use vstd::prelude::*;

use super::definitions::{spec_decode, spec_definition, InstructionDefinition, InstructionFormat, Operands, ISA};
use crate::bits::{bit, bitmask_range, bits, bits_range, spec_bits};

verus! {

/// One encoded instruction word.
#[derive(Clone, Copy, Debug)]
pub struct Instruction {
    instr: u32,
}

impl View for Instruction {
    type V = u32;

    closed spec fn view(&self) -> u32 {
        self.instr
    }
}

/// The opcode field, bits 6..0.
pub open spec fn spec_opcode(w: u32) -> u8 {
    spec_bits(w, 0, 7) as u8
}

/// The destination register field, bits 11..7.
pub open spec fn spec_rd(w: u32) -> u8 {
    spec_bits(w, 7, 5) as u8
}

/// The first source register field, bits 19..15.
pub open spec fn spec_rs1(w: u32) -> u8 {
    spec_bits(w, 15, 5) as u8
}

/// The second source register field, bits 24..20.
pub open spec fn spec_rs2(w: u32) -> u8 {
    spec_bits(w, 20, 5) as u8
}

/// The funct3 field, bits 14..12.
pub open spec fn spec_funct3(w: u32) -> u8 {
    spec_bits(w, 12, 3) as u8
}

/// The funct7 field, bits 31..25.
pub open spec fn spec_funct7(w: u32) -> u8 {
    spec_bits(w, 25, 7) as u8
}

/// The sign fill of an immediate: all of `mask` when bit 31 is set.
pub open spec fn spec_sign_fill(w: u32, mask: u32) -> u32 {
    if spec_bits(w, 31, 1) == 1 {
        mask
    } else {
        0
    }
}

/// The immediate of `w` read in the given format, as a bit pattern.
pub open spec fn spec_immediate_bits(w: u32, format: InstructionFormat) -> u32 {
    match format {
        InstructionFormat::I => spec_sign_fill(w, 0xFFFF_F800) | spec_bits(w, 20, 11),
        InstructionFormat::S => spec_sign_fill(w, 0xFFFF_F800) | ((spec_bits(w, 25, 6) << 5u32) as u32)
            | spec_bits(w, 7, 5),
        InstructionFormat::B => spec_sign_fill(w, 0xFFFF_F000) | ((spec_bits(w, 7, 1) << 11u32) as u32)
            | ((spec_bits(w, 25, 6) << 5u32) as u32) | ((spec_bits(w, 8, 4) << 1u32) as u32),
        InstructionFormat::U => (spec_bits(w, 12, 20) << 12u32) as u32,
        InstructionFormat::J => spec_sign_fill(w, 0xFFF0_0000) | ((spec_bits(w, 12, 8) << 12u32) as u32)
            | ((spec_bits(w, 20, 1) << 11u32) as u32) | ((spec_bits(w, 25, 6) << 5u32) as u32)
            | ((spec_bits(w, 21, 4) << 1u32) as u32),
        InstructionFormat::R => 0,
    }
}

/// The sign-extended immediate of `w` read in the given format.
pub open spec fn spec_immediate(w: u32, format: InstructionFormat) -> i32 {
    spec_immediate_bits(w, format) as i32
}

/// Whether `imm` can be placed in an instruction of the given format.
/// I, S and B take the values that pass the twelve-bit check (0 to 4095, or
/// -2048 to -1); J takes even values below 2^21 and negative values from
/// -2^20; R has no immediate and U keeps the low twenty bits of `imm`.
pub open spec fn spec_immediate_encodable(format: InstructionFormat, imm: i32) -> bool {
    match format {
        InstructionFormat::I | InstructionFormat::S | InstructionFormat::B => -2048 <= imm <= 4095,
        InstructionFormat::J => (0 <= imm < 0x20_0000 && imm % 2 == 0) || (-0x10_0000 <= imm < 0),
        _ => true,
    }
}

pub open spec fn spec_encode_r(opcode: u32, rd: u32, funct3: u32, rs1: u32, rs2: u32, funct7: u32) -> u32 {
    ((funct7 << 25u32) as u32) | ((rs2 << 20u32) as u32) | ((rs1 << 15u32) as u32) | ((funct3 << 12u32) as u32)
        | ((rd << 7u32) as u32) | opcode
}

pub open spec fn spec_encode_i(opcode: u32, rd: u32, funct3: u32, rs1: u32, imm: i32) -> u32 {
    (((imm as u32) << 20u32) as u32) | ((rs1 << 15u32) as u32) | ((funct3 << 12u32) as u32)
        | ((rd << 7u32) as u32) | opcode
}

pub open spec fn spec_encode_s(opcode: u32, funct3: u32, rs1: u32, rs2: u32, imm: i32) -> u32 {
    ((spec_bits(imm as u32, 5, 7) << 25u32) as u32) | ((rs2 << 20u32) as u32) | ((rs1 << 15u32) as u32)
        | ((funct3 << 12u32) as u32) | ((spec_bits(imm as u32, 0, 5) << 7u32) as u32) | opcode
}

pub open spec fn spec_encode_b(opcode: u32, funct3: u32, rs1: u32, rs2: u32, imm: i32) -> u32 {
    ((spec_bits(imm as u32, 12, 1) << 31u32) as u32) | ((spec_bits(imm as u32, 5, 6) << 25u32) as u32)
        | ((rs2 << 20u32) as u32) | ((rs1 << 15u32) as u32) | ((funct3 << 12u32) as u32)
        | ((spec_bits(imm as u32, 1, 4) << 8u32) as u32) | ((spec_bits(imm as u32, 11, 1) << 7u32) as u32)
        | opcode
}

pub open spec fn spec_encode_u(opcode: u32, rd: u32, imm: i32) -> u32 {
    ((spec_bits(imm as u32, 0, 20) << 12u32) as u32) | ((rd << 7u32) as u32) | opcode
}

pub open spec fn spec_encode_j(opcode: u32, rd: u32, imm: i32) -> u32 {
    ((spec_bits(imm as u32, 20, 1) << 31u32) as u32) | ((spec_bits(imm as u32, 1, 10) << 21u32) as u32)
        | ((spec_bits(imm as u32, 11, 1) << 20u32) as u32) | ((spec_bits(imm as u32, 12, 8) << 12u32) as u32)
        | ((rd << 7u32) as u32) | opcode
}

/// The word that encodes the given fields in the given format.
pub open spec fn spec_encode(
    format: InstructionFormat,
    opcode: u32,
    rd: u32,
    funct3: u32,
    rs1: u32,
    rs2: u32,
    funct7: u32,
    imm: i32,
) -> u32 {
    match format {
        InstructionFormat::R => spec_encode_r(opcode, rd, funct3, rs1, rs2, funct7),
        InstructionFormat::I => spec_encode_i(opcode, rd, funct3, rs1, imm),
        InstructionFormat::S => spec_encode_s(opcode, funct3, rs1, rs2, imm),
        InstructionFormat::B => spec_encode_b(opcode, funct3, rs1, rs2, imm),
        InstructionFormat::U => spec_encode_u(opcode, rd, imm),
        InstructionFormat::J => spec_encode_j(opcode, rd, imm),
    }
}

/// A function code of a table entry, zero where the entry has none.
pub open spec fn spec_code_or_zero(code: Option<u8>) -> u32 {
    match code {
        Some(c) => c as u32,
        None => 0,
    }
}

/// The word that encodes a table entry with the given operands.
pub open spec fn spec_encode_definition(def: InstructionDefinition, operands: Operands) -> u32 {
    spec_encode(
        def.format,
        def.opcode as u32,
        operands.rd,
        spec_code_or_zero(def.funct3),
        operands.rs1,
        operands.rs2,
        spec_code_or_zero(def.funct7),
        operands.imm,
    )
}

impl Instruction {
    /// Encodes the given fields in the given format.
    pub fn new(
        format: InstructionFormat,
        opcode: u32,
        rd: u32,
        funct3: u32,
        rs1: u32,
        rs2: u32,
        funct7: u32,
        imm: i32,
    ) -> (r: Instruction)
        requires
            opcode < 128,
            rd < 32,
            funct3 < 8,
            rs1 < 32,
            rs2 < 32,
            funct7 < 128,
            spec_immediate_encodable(format, imm),
        ensures
            r@ == spec_encode(format, opcode, rd, funct3, rs1, rs2, funct7, imm),
    {
        let instr = match format {
            InstructionFormat::R => Self::encode_r(opcode, rd, funct3, rs1, rs2, funct7),
            InstructionFormat::I => Self::encode_i(opcode, rd, funct3, rs1, imm),
            InstructionFormat::S => Self::encode_s(opcode, funct3, rs1, rs2, imm),
            InstructionFormat::B => Self::encode_b(opcode, funct3, rs1, rs2, imm),
            InstructionFormat::U => Self::encode_u(opcode, rd, imm),
            InstructionFormat::J => Self::encode_j(opcode, rd, imm),
        };
        Self { instr }
    }

    /// Encodes a table entry with the given operands; absent function codes
    /// are encoded as zero.
    pub fn from_def_operands(def: InstructionDefinition, operands: Operands) -> (r: Instruction)
        requires
            def.accepts(operands),
        ensures
            r@ == spec_encode_definition(def, operands),
    {
        let funct3: u32 = match def.funct3 {
            Some(f) => f as u32,
            None => 0,
        };
        let funct7: u32 = match def.funct7 {
            Some(f) => f as u32,
            None => 0,
        };
        Instruction::new(
            def.format,
            def.opcode as u32,
            operands.rd,
            funct3,
            operands.rs1,
            operands.rs2,
            funct7,
            operands.imm,
        )
    }

    /// Wraps a raw instruction word.
    pub fn from_raw(instr: u32) -> (r: Instruction)
        ensures
            r@ == instr,
    {
        Self { instr }
    }

    fn encode_r(opcode: u32, rd: u32, funct3: u32, rs1: u32, rs2: u32, funct7: u32) -> (r: u32)
        ensures
            r == spec_encode_r(opcode, rd, funct3, rs1, rs2, funct7),
    {
        funct7 << 25 | rs2 << 20 | rs1 << 15 | funct3 << 12 | rd << 7 | opcode
    }

    fn encode_i(opcode: u32, rd: u32, funct3: u32, rs1: u32, imm: i32) -> (r: u32)
        ensures
            r == spec_encode_i(opcode, rd, funct3, rs1, imm),
    {
        let imm: u32 = imm as u32;
        imm << 20 | rs1 << 15 | funct3 << 12 | rd << 7 | opcode
    }

    fn encode_s(opcode: u32, funct3: u32, rs1: u32, rs2: u32, imm: i32) -> (r: u32)
        ensures
            r == spec_encode_s(opcode, funct3, rs1, rs2, imm),
    {
        let imm: u32 = imm as u32;
        bits_range(imm, 11, 5) << 25 | rs2 << 20 | rs1 << 15 | funct3 << 12 | bits_range(imm, 4, 0) << 7
            | opcode
    }

    fn encode_b(opcode: u32, funct3: u32, rs1: u32, rs2: u32, imm: i32) -> (r: u32)
        ensures
            r == spec_encode_b(opcode, funct3, rs1, rs2, imm),
    {
        let imm: u32 = imm as u32;
        bit(imm, 12) << 31 | bits_range(imm, 10, 5) << 25 | rs2 << 20 | rs1 << 15 | funct3 << 12
            | bits_range(imm, 4, 1) << 8 | bit(imm, 11) << 7 | opcode
    }

    fn encode_u(opcode: u32, rd: u32, imm: i32) -> (r: u32)
        ensures
            r == spec_encode_u(opcode, rd, imm),
    {
        let imm: u32 = imm as u32;
        bits_range(imm, 19, 0) << 12 | rd << 7 | opcode
    }

    fn encode_j(opcode: u32, rd: u32, imm: i32) -> (r: u32)
        ensures
            r == spec_encode_j(opcode, rd, imm),
    {
        let imm: u32 = imm as u32;
        bit(imm, 20) << 31 | bits_range(imm, 10, 1) << 21 | bit(imm, 11) << 20 | bits_range(imm, 19, 12) << 12
            | rd << 7 | opcode
    }

    /// The raw instruction word.
    pub fn raw(&self) -> (r: u32)
        ensures
            r == self@,
    {
        self.instr
    }

    /// The opcode field.
    pub fn opcode(&self) -> (r: u8)
        ensures
            r == spec_opcode(self@),
            r < 128,
    {
        proof { lemma_field_ranges(self.instr); }
        bits_range(self.instr, 6, 0) as u8
    }

    /// The immediate of this instruction, read in the format of the
    /// instruction it encodes; R-format instructions have none.
    pub fn immediate(&self) -> (r: Result<i32, ()>)
        requires
            spec_decode(self@) is Some,
        ensures
            ({
                let format = spec_definition(spec_decode(self@)->0).format;
                r == if format == InstructionFormat::R {
                    Err(())
                } else {
                    Ok(spec_immediate(self@, format))
                }
            }),
    {
        let def = InstructionDefinition::from_instr(*self);
        let format = match def {
            Some(d) => d.format,
            None => { return Err(()); }
        };
        match format {
            InstructionFormat::R => Err(()),
            _ => Ok(self.decode_immediate(format)),
        }
    }

    /// The immediate of this instruction read in the given format (zero for R).
    pub fn decode_immediate(&self, format: InstructionFormat) -> (r: i32)
        ensures
            r == spec_immediate(self@, format),
    {
        let w = self.instr;
        let sign = bit(w, 31);
        let bits_value: u32 = match format {
            InstructionFormat::I => {
                let fill = if sign == 1 { bitmask_range(31, 11) } else { 0 };
                proof { lemma_mask_values(); }
                fill | bits_range(w, 30, 20)
            },
            InstructionFormat::S => {
                let fill = if sign == 1 { bitmask_range(31, 11) } else { 0 };
                proof { lemma_mask_values(); }
                fill | bits_range(w, 30, 25) << 5 | bits_range(w, 11, 7)
            },
            InstructionFormat::B => {
                let fill = if sign == 1 { bitmask_range(31, 12) } else { 0 };
                proof { lemma_mask_values(); }
                fill | bit(w, 7) << 11 | bits_range(w, 30, 25) << 5 | bits_range(w, 11, 8) << 1
            },
            InstructionFormat::U => bits_range(w, 31, 12) << 12,
            InstructionFormat::J => {
                let fill = if sign == 1 { bitmask_range(31, 20) } else { 0 };
                proof { lemma_mask_values(); }
                fill | bits_range(w, 19, 12) << 12 | bit(w, 20) << 11 | bits_range(w, 30, 25) << 5
                    | bits_range(w, 24, 21) << 1
            },
            InstructionFormat::R => 0,
        };
        bits_value as i32
    }

    /// The destination register field.
    pub fn rd(&self) -> (r: u8)
        ensures
            r == spec_rd(self@),
            r < 32,
    {
        proof { lemma_field_ranges(self.instr); }
        bits(self.instr, 7, 5) as u8
    }

    /// The first source register field.
    pub fn rs1(&self) -> (r: u8)
        ensures
            r == spec_rs1(self@),
            r < 32,
    {
        proof { lemma_field_ranges(self.instr); }
        bits(self.instr, 15, 5) as u8
    }

    /// The second source register field.
    pub fn rs2(&self) -> (r: u8)
        ensures
            r == spec_rs2(self@),
            r < 32,
    {
        proof { lemma_field_ranges(self.instr); }
        bits(self.instr, 20, 5) as u8
    }

    /// The funct3 field.
    pub fn funct3(&self) -> (r: u8)
        ensures
            r == spec_funct3(self@),
            r < 8,
    {
        proof { lemma_field_ranges(self.instr); }
        bits(self.instr, 12, 3) as u8
    }

    /// The funct7 field.
    pub fn funct7(&self) -> (r: u8)
        ensures
            r == spec_funct7(self@),
            r < 128,
    {
        proof { lemma_field_ranges(self.instr); }
        bits(self.instr, 25, 7) as u8
    }
}

proof fn lemma_mask_values()
    ensures
        crate::bits::spec_bitmask(11, 21) == 0xFFFF_F800u32,
        crate::bits::spec_bitmask(12, 20) == 0xFFFF_F000u32,
        crate::bits::spec_bitmask(20, 12) == 0xFFF0_0000u32,
{
    assert(((((1u32 << 21u32) - 1) as u32) << 11u32) as u32 == 0xFFFF_F800u32) by (bit_vector);
    assert(((((1u32 << 20u32) - 1) as u32) << 12u32) as u32 == 0xFFFF_F000u32) by (bit_vector);
    assert(((((1u32 << 12u32) - 1) as u32) << 20u32) as u32 == 0xFFF0_0000u32) by (bit_vector);
}

/// Each field of a word lies below two to the power of its width.
pub proof fn lemma_field_ranges(w: u32)
    ensures
        spec_bits(w, 0, 7) < 128,
        spec_bits(w, 7, 5) < 32,
        spec_bits(w, 15, 5) < 32,
        spec_bits(w, 20, 5) < 32,
        spec_bits(w, 12, 3) < 8,
        spec_bits(w, 25, 7) < 128,
{
    assert((w >> 0u32) & (((1u32 << 7u32) - 1) as u32) < 128) by (bit_vector);
    assert((w >> 7u32) & (((1u32 << 5u32) - 1) as u32) < 32) by (bit_vector);
    assert((w >> 15u32) & (((1u32 << 5u32) - 1) as u32) < 32) by (bit_vector);
    assert((w >> 20u32) & (((1u32 << 5u32) - 1) as u32) < 32) by (bit_vector);
    assert((w >> 12u32) & (((1u32 << 3u32) - 1) as u32) < 8) by (bit_vector);
    assert((w >> 25u32) & (((1u32 << 7u32) - 1) as u32) < 128) by (bit_vector);
}

} // verus!
verus! {

/// Decoding an R-format word recovers every field it was built from.
pub proof fn law_encode_r_fields(opcode: u32, rd: u32, funct3: u32, rs1: u32, rs2: u32, funct7: u32)
    requires
        opcode < 128,
        rd < 32,
        funct3 < 8,
        rs1 < 32,
        rs2 < 32,
        funct7 < 128,
    ensures
        ({
            let w = spec_encode_r(opcode, rd, funct3, rs1, rs2, funct7);
            &&& spec_opcode(w) == opcode
            &&& spec_rd(w) == rd
            &&& spec_funct3(w) == funct3
            &&& spec_rs1(w) == rs1
            &&& spec_rs2(w) == rs2
            &&& spec_funct7(w) == funct7
        }),
{
    let w = spec_encode_r(opcode, rd, funct3, rs1, rs2, funct7);
    assert(opcode < 128 && rd < 32 && funct3 < 8 && rs1 < 32 && rs2 < 32 && funct7 < 128 ==> {
        let w = ((funct7 << 25u32) as u32) | ((rs2 << 20u32) as u32) | ((rs1 << 15u32) as u32)
            | ((funct3 << 12u32) as u32) | ((rd << 7u32) as u32) | opcode;
        &&& (w >> 0u32) & (((1u32 << 7u32) - 1) as u32) == opcode
        &&& (w >> 7u32) & (((1u32 << 5u32) - 1) as u32) == rd
        &&& (w >> 12u32) & (((1u32 << 3u32) - 1) as u32) == funct3
        &&& (w >> 15u32) & (((1u32 << 5u32) - 1) as u32) == rs1
        &&& (w >> 20u32) & (((1u32 << 5u32) - 1) as u32) == rs2
        &&& (w >> 25u32) & (((1u32 << 7u32) - 1) as u32) == funct7
    }) by (bit_vector);
}

/// Decoding an I-format word recovers its fields, and its immediate is the
/// encoded value read as a signed twelve-bit number.
pub proof fn law_encode_i_fields(opcode: u32, rd: u32, funct3: u32, rs1: u32, imm: i32)
    requires
        opcode < 128,
        rd < 32,
        funct3 < 8,
        rs1 < 32,
        -2048 <= imm <= 4095,
    ensures
        ({
            let w = spec_encode_i(opcode, rd, funct3, rs1, imm);
            &&& spec_opcode(w) == opcode
            &&& spec_rd(w) == rd
            &&& spec_funct3(w) == funct3
            &&& spec_rs1(w) == rs1
            &&& spec_rs2(w) == spec_bits(imm as u32, 0, 5) as u8
            &&& spec_funct7(w) == spec_bits(imm as u32, 5, 7) as u8
            &&& spec_bits(w, 20, 12) == spec_bits(imm as u32, 0, 12)
            &&& spec_immediate(w, InstructionFormat::I) == if imm >= 2048 { (imm - 4096) as i32 } else { imm }
        }),
{
    assert(opcode < 128 && rd < 32 && funct3 < 8 && rs1 < 32 ==> {
        let w = ((((imm as u32) << 20u32) as u32) | ((rs1 << 15u32) as u32) | ((funct3 << 12u32) as u32)
            | ((rd << 7u32) as u32) | opcode);
        &&& (w >> 0u32) & (((1u32 << 7u32) - 1) as u32) == opcode
        &&& (w >> 7u32) & (((1u32 << 5u32) - 1) as u32) == rd
        &&& (w >> 12u32) & (((1u32 << 3u32) - 1) as u32) == funct3
        &&& (w >> 15u32) & (((1u32 << 5u32) - 1) as u32) == rs1
        &&& (w >> 20u32) & (((1u32 << 5u32) - 1) as u32) == ((imm as u32) >> 0u32) & (((1u32 << 5u32) - 1) as u32)
        &&& (w >> 25u32) & (((1u32 << 7u32) - 1) as u32) == ((imm as u32) >> 5u32) & (((1u32 << 7u32) - 1) as u32)
        &&& (w >> 20u32) & (((1u32 << 12u32) - 1) as u32) == ((imm as u32) >> 0u32) & (((1u32 << 12u32) - 1) as u32)
    }) by (bit_vector);
    let w = spec_encode_i(opcode, rd, funct3, rs1, imm);
    let fill: u32 = if (w >> 31u32) & (((1u32 << 1u32) - 1) as u32) == 1 { 0xFFFF_F800u32 } else { 0u32 };
    let low = (w >> 20u32) & (((1u32 << 11u32) - 1) as u32);
    assert(w >> 20u32 == (imm as u32) & 0xFFFu32) by (bit_vector)
        requires w == ((((imm as u32) << 20u32) as u32) | ((rs1 << 15u32) as u32) | ((funct3 << 12u32) as u32)
            | ((rd << 7u32) as u32) | opcode), opcode < 128, rd < 32, funct3 < 8, rs1 < 32;
    if imm >= 2048 {
        assert((fill | low) as i32 == (imm - 4096) as i32) by (bit_vector)
            requires 2048 <= imm <= 4095, w >> 20u32 == (imm as u32) & 0xFFFu32,
                fill == if (w >> 31u32) & (((1u32 << 1u32) - 1) as u32) == 1 { 0xFFFF_F800u32 } else { 0u32 },
                low == (w >> 20u32) & (((1u32 << 11u32) - 1) as u32);
    } else {
        assert((fill | low) as i32 == imm) by (bit_vector)
            requires -2048 <= imm <= 2047, w >> 20u32 == (imm as u32) & 0xFFFu32,
                fill == if (w >> 31u32) & (((1u32 << 1u32) - 1) as u32) == 1 { 0xFFFF_F800u32 } else { 0u32 },
                low == (w >> 20u32) & (((1u32 << 11u32) - 1) as u32);
    }
    assert(spec_sign_fill(w, 0xFFFF_F800) == fill);
    assert(spec_bits(w, 20, 11) == low);
    assert(spec_immediate_bits(w, InstructionFormat::I) == fill | low);
}

/// Decoding an S-format word recovers its fields, and its immediate is the
/// encoded value read as a signed twelve-bit number.
pub proof fn law_encode_s_fields(opcode: u32, funct3: u32, rs1: u32, rs2: u32, imm: i32)
    requires
        opcode < 128,
        funct3 < 8,
        rs1 < 32,
        rs2 < 32,
        -2048 <= imm <= 4095,
    ensures
        ({
            let w = spec_encode_s(opcode, funct3, rs1, rs2, imm);
            &&& spec_opcode(w) == opcode
            &&& spec_funct3(w) == funct3
            &&& spec_rs1(w) == rs1
            &&& spec_rs2(w) == rs2
            &&& spec_immediate(w, InstructionFormat::S) == if imm >= 2048 { (imm - 4096) as i32 } else { imm }
        }),
{
    let w = spec_encode_s(opcode, funct3, rs1, rs2, imm);
    let u = imm as u32;
    assert({
        &&& (w >> 0u32) & (((1u32 << 7u32) - 1) as u32) == opcode
        &&& (w >> 12u32) & (((1u32 << 3u32) - 1) as u32) == funct3
        &&& (w >> 15u32) & (((1u32 << 5u32) - 1) as u32) == rs1
        &&& (w >> 20u32) & (((1u32 << 5u32) - 1) as u32) == rs2
        &&& (w >> 25u32) == (u >> 5u32) & 0x7Fu32
        &&& (w >> 7u32) & 0x1Fu32 == u & 0x1Fu32
    }) by (bit_vector)
        requires
            w == ((((u >> 5u32) & (((1u32 << 7u32) - 1) as u32)) << 25u32) as u32) | ((rs2 << 20u32) as u32)
                | ((rs1 << 15u32) as u32) | ((funct3 << 12u32) as u32)
                | ((((u >> 0u32) & (((1u32 << 5u32) - 1) as u32)) << 7u32) as u32) | opcode,
            opcode < 128, funct3 < 8, rs1 < 32, rs2 < 32;
    let fill: u32 = if (w >> 31u32) & (((1u32 << 1u32) - 1) as u32) == 1 { 0xFFFF_F800u32 } else { 0u32 };
    let mid = ((((w >> 25u32) & (((1u32 << 6u32) - 1) as u32)) << 5u32) as u32);
    let low = (w >> 7u32) & (((1u32 << 5u32) - 1) as u32);
    if imm >= 2048 {
        assert((fill | mid | low) as i32 == (imm - 4096) as i32) by (bit_vector)
            requires 2048 <= imm <= 4095, u == imm as u32, (w >> 25u32) == (u >> 5u32) & 0x7Fu32,
                (w >> 7u32) & 0x1Fu32 == u & 0x1Fu32,
                fill == if (w >> 31u32) & (((1u32 << 1u32) - 1) as u32) == 1 { 0xFFFF_F800u32 } else { 0u32 },
                mid == ((((w >> 25u32) & (((1u32 << 6u32) - 1) as u32)) << 5u32) as u32),
                low == (w >> 7u32) & (((1u32 << 5u32) - 1) as u32);
    } else {
        assert((fill | mid | low) as i32 == imm) by (bit_vector)
            requires -2048 <= imm <= 2047, u == imm as u32, (w >> 25u32) == (u >> 5u32) & 0x7Fu32,
                (w >> 7u32) & 0x1Fu32 == u & 0x1Fu32,
                fill == if (w >> 31u32) & (((1u32 << 1u32) - 1) as u32) == 1 { 0xFFFF_F800u32 } else { 0u32 },
                mid == ((((w >> 25u32) & (((1u32 << 6u32) - 1) as u32)) << 5u32) as u32),
                low == (w >> 7u32) & (((1u32 << 5u32) - 1) as u32);
    }
    assert(spec_immediate_bits(w, InstructionFormat::S) == fill | mid | low);
}

/// Decoding a B-format word recovers its fields, and its immediate is the
/// encoded value with its lowest bit cleared.
pub proof fn law_encode_b_fields(opcode: u32, funct3: u32, rs1: u32, rs2: u32, imm: i32)
    requires
        opcode < 128,
        funct3 < 8,
        rs1 < 32,
        rs2 < 32,
        -2048 <= imm <= 4095,
    ensures
        ({
            let w = spec_encode_b(opcode, funct3, rs1, rs2, imm);
            &&& spec_opcode(w) == opcode
            &&& spec_funct3(w) == funct3
            &&& spec_rs1(w) == rs1
            &&& spec_rs2(w) == rs2
            &&& spec_immediate(w, InstructionFormat::B) == ((imm as u32) & 0xFFFF_FFFEu32) as i32
        }),
{
    let w = spec_encode_b(opcode, funct3, rs1, rs2, imm);
    let u = imm as u32;
    assert({
        &&& (w >> 0u32) & (((1u32 << 7u32) - 1) as u32) == opcode
        &&& (w >> 12u32) & (((1u32 << 3u32) - 1) as u32) == funct3
        &&& (w >> 15u32) & (((1u32 << 5u32) - 1) as u32) == rs1
        &&& (w >> 20u32) & (((1u32 << 5u32) - 1) as u32) == rs2
    }) by (bit_vector)
        requires
            w == ((((u >> 12u32) & (((1u32 << 1u32) - 1) as u32)) << 31u32) as u32)
                | ((((u >> 5u32) & (((1u32 << 6u32) - 1) as u32)) << 25u32) as u32)
                | ((rs2 << 20u32) as u32) | ((rs1 << 15u32) as u32) | ((funct3 << 12u32) as u32)
                | ((((u >> 1u32) & (((1u32 << 4u32) - 1) as u32)) << 8u32) as u32)
                | ((((u >> 11u32) & (((1u32 << 1u32) - 1) as u32)) << 7u32) as u32) | opcode,
            opcode < 128, funct3 < 8, rs1 < 32, rs2 < 32;
    assert(spec_immediate_bits(w, InstructionFormat::B) as i32 == ((imm as u32) & 0xFFFF_FFFEu32) as i32)
        by (bit_vector)
        requires
            -2048 <= imm <= 4095, u == imm as u32,
            w == ((((u >> 12u32) & (((1u32 << 1u32) - 1) as u32)) << 31u32) as u32)
                | ((((u >> 5u32) & (((1u32 << 6u32) - 1) as u32)) << 25u32) as u32)
                | ((rs2 << 20u32) as u32) | ((rs1 << 15u32) as u32) | ((funct3 << 12u32) as u32)
                | ((((u >> 1u32) & (((1u32 << 4u32) - 1) as u32)) << 8u32) as u32)
                | ((((u >> 11u32) & (((1u32 << 1u32) - 1) as u32)) << 7u32) as u32) | opcode,
            opcode < 128, funct3 < 8, rs1 < 32, rs2 < 32;
}

/// Decoding a U-format word recovers its fields, and its immediate is the
/// low twenty bits of the encoded value placed in the upper bits.
pub proof fn law_encode_u_fields(opcode: u32, rd: u32, imm: i32)
    requires
        opcode < 128,
        rd < 32,
    ensures
        ({
            let w = spec_encode_u(opcode, rd, imm);
            &&& spec_opcode(w) == opcode
            &&& spec_rd(w) == rd
            &&& spec_immediate(w, InstructionFormat::U) == ((((imm as u32) & 0xF_FFFFu32) << 12u32) as u32) as i32
        }),
{
    let w = spec_encode_u(opcode, rd, imm);
    let u = imm as u32;
    assert({
        &&& (w >> 0u32) & (((1u32 << 7u32) - 1) as u32) == opcode
        &&& (w >> 7u32) & (((1u32 << 5u32) - 1) as u32) == rd
        &&& ((((w >> 12u32) & (((1u32 << 20u32) - 1) as u32)) << 12u32) as u32) == (((u & 0xF_FFFFu32) << 12u32) as u32)
    }) by (bit_vector)
        requires
            w == ((((u >> 0u32) & (((1u32 << 20u32) - 1) as u32)) << 12u32) as u32) | ((rd << 7u32) as u32) | opcode,
            opcode < 128, rd < 32;
}

/// Decoding a J-format word recovers its fields, and its immediate is the
/// encoded value with its lowest bit cleared, read as a signed 21-bit number.
pub proof fn law_encode_j_fields(opcode: u32, rd: u32, imm: i32)
    requires
        opcode < 128,
        rd < 32,
        spec_immediate_encodable(InstructionFormat::J, imm),
    ensures
        ({
            let w = spec_encode_j(opcode, rd, imm);
            &&& spec_opcode(w) == opcode
            &&& spec_rd(w) == rd
            &&& spec_immediate(w, InstructionFormat::J) == if imm < 0x10_0000 {
                ((imm as u32) & 0xFFFF_FFFEu32) as i32
            } else {
                (((imm as u32) & 0xFFFF_FFFEu32) | 0xFFE0_0000u32) as i32
            }
        }),
{
    let w = spec_encode_j(opcode, rd, imm);
    let u = imm as u32;
    assert({
        &&& (w >> 0u32) & (((1u32 << 7u32) - 1) as u32) == opcode
        &&& (w >> 7u32) & (((1u32 << 5u32) - 1) as u32) == rd
    }) by (bit_vector)
        requires
            w == ((((u >> 20u32) & (((1u32 << 1u32) - 1) as u32)) << 31u32) as u32)
                | ((((u >> 1u32) & (((1u32 << 10u32) - 1) as u32)) << 21u32) as u32)
                | ((((u >> 11u32) & (((1u32 << 1u32) - 1) as u32)) << 20u32) as u32)
                | ((((u >> 12u32) & (((1u32 << 8u32) - 1) as u32)) << 12u32) as u32)
                | ((rd << 7u32) as u32) | opcode,
            opcode < 128, rd < 32;
    if 0 <= imm {
        assert((imm as u32) & 1u32 == 0u32) by (bit_vector)
            requires 0 <= imm, imm % 2 == 0;
    }
    assert(spec_immediate_bits(w, InstructionFormat::J) as i32 == if imm < 0x10_0000 {
                ((imm as u32) & 0xFFFF_FFFEu32) as i32
            } else {
                (((imm as u32) & 0xFFFF_FFFEu32) | 0xFFE0_0000u32) as i32
            }) by (bit_vector)
        requires
            (0 <= imm < 0x20_0000 && (imm as u32) & 1u32 == 0u32) || (-0x10_0000 <= imm < 0), u == imm as u32,
            w == ((((u >> 20u32) & (((1u32 << 1u32) - 1) as u32)) << 31u32) as u32)
                | ((((u >> 1u32) & (((1u32 << 10u32) - 1) as u32)) << 21u32) as u32)
                | ((((u >> 11u32) & (((1u32 << 1u32) - 1) as u32)) << 20u32) as u32)
                | ((((u >> 12u32) & (((1u32 << 8u32) - 1) as u32)) << 12u32) as u32)
                | ((rd << 7u32) as u32) | opcode,
            opcode < 128, rd < 32;
}

} // verus!
