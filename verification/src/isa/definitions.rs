//! The RV32I instruction table: every instruction the tool knows, its
//! format, opcode and function codes, and the decoder from raw words.
use vstd::prelude::*;

use super::instruction::{
    law_encode_b_fields, law_encode_i_fields, law_encode_j_fields, law_encode_r_fields,
    law_encode_s_fields, law_encode_u_fields, spec_encode_definition, spec_funct3, spec_funct7,
    spec_opcode, Instruction,
};
use crate::bits::spec_bits;
use crate::text::chars_equal_str;

verus! {

/// The register and immediate operands of one instruction.
#[derive(Debug)]
pub struct Operands {
    pub rd: u32,
    pub rs1: u32,
    pub rs2: u32,
    pub imm: i32,
}

impl Default for Operands {
    fn default() -> (r: Self)
        ensures
            r.rd == 0,
            r.rs1 == 0,
            r.rs2 == 0,
            r.imm == 0,
    {
        Operands { rd: 0, rs1: 0, rs2: 0, imm: 0 }
    }
}

/// The fixed fields of one instruction: its mnemonic, format, opcode and
/// function codes.
#[derive(Debug, Clone, Copy)]
pub struct InstructionDefinition {
    pub name: &'static str,
    pub opcode: u8,
    pub funct3: Option<u8>,
    pub funct7: Option<u8>,
    pub format: InstructionFormat,
}

/// The six RV32I encoding formats.
#[derive(Clone, Copy, Debug, PartialEq, Eq, Structural)]
pub enum InstructionFormat {
    R,
    I,
    S,
    B,
    U,
    J,
}

/// Every instruction of the instruction set.
#[allow(non_camel_case_types)]
#[derive(Debug, Clone, Copy, PartialEq, Eq, Structural)]
pub enum ISA {
    ADD,
    SUB,
    SLT,
    SLTU,
    AND,
    OR,
    XOR,
    SLL,
    SRL,
    SRA,
    ADDI,
    SLTI,
    SLTIU,
    ANDI,
    ORI,
    XORI,
    SLLI,
    SRLI,
    SRAI,
    JALR,
    CSRRW,
    CSRRS,
    CSRRC,
    CSRRWI,
    CSRRSI,
    CSRRCI,
    LW,
    LH,
    LHU,
    LB,
    LBU,
    FENCE,
    FENCE_TSO,
    PAUSE,
    ECALL,
    EBREAK,
    SW,
    SH,
    SB,
    BEQ,
    BNE,
    BLT,
    BLTU,
    BGE,
    BGEU,
    LUI,
    AUIPC,
    JAL,
}

/// Every table entry's codes fit their fields.
pub proof fn lemma_definition_codes_fit(isa: ISA)
    ensures
        spec_definition(isa).codes_fit(),
{
}

/// The table entry of each instruction.
pub open spec fn spec_definition(isa: ISA) -> InstructionDefinition {
    match isa {
        ISA::ADD => InstructionDefinition {
            name: "ADD",
            format: InstructionFormat::R,
            opcode: 0b0110011,
            funct3: Some(0x0),
            funct7: Some(0x00),
        },
        ISA::SUB => InstructionDefinition {
            name: "SUB",
            format: InstructionFormat::R,
            opcode: 0b0110011,
            funct3: Some(0x0),
            funct7: Some(0x20),
        },
        ISA::SLT => InstructionDefinition {
            name: "SLT",
            format: InstructionFormat::R,
            opcode: 0b0110011,
            funct3: Some(0x2),
            funct7: Some(0x00),
        },
        ISA::SLTU => InstructionDefinition {
            name: "SLTU",
            format: InstructionFormat::R,
            opcode: 0b0110011,
            funct3: Some(0x3),
            funct7: Some(0x00),
        },
        ISA::AND => InstructionDefinition {
            name: "AND",
            format: InstructionFormat::R,
            opcode: 0b0110011,
            funct3: Some(0x7),
            funct7: Some(0x00),
        },
        ISA::OR => InstructionDefinition {
            name: "OR",
            format: InstructionFormat::R,
            opcode: 0b0110011,
            funct3: Some(0x6),
            funct7: Some(0x00),
        },
        ISA::XOR => InstructionDefinition {
            name: "XOR",
            format: InstructionFormat::R,
            opcode: 0b0110011,
            funct3: Some(0x4),
            funct7: Some(0x00),
        },
        ISA::SLL => InstructionDefinition {
            name: "SLL",
            format: InstructionFormat::R,
            opcode: 0b0110011,
            funct3: Some(0x1),
            funct7: Some(0x00),
        },
        ISA::SRL => InstructionDefinition {
            name: "SRL",
            format: InstructionFormat::R,
            opcode: 0b0110011,
            funct3: Some(0x5),
            funct7: Some(0x00),
        },
        ISA::SRA => InstructionDefinition {
            name: "SRA",
            format: InstructionFormat::R,
            opcode: 0b0110011,
            funct3: Some(0x5),
            funct7: Some(0x20),
        },
        ISA::ADDI => InstructionDefinition {
            name: "ADDI",
            format: InstructionFormat::I,
            opcode: 0b0010011,
            funct3: Some(0x0),
            funct7: None,
        },
        ISA::SLTI => InstructionDefinition {
            name: "SLTI",
            format: InstructionFormat::I,
            opcode: 0b0010011,
            funct3: Some(0x2),
            funct7: None,
        },
        ISA::SLTIU => InstructionDefinition {
            name: "SLTIU",
            format: InstructionFormat::I,
            opcode: 0b0010011,
            funct3: Some(0x3),
            funct7: None,
        },
        ISA::ANDI => InstructionDefinition {
            name: "ANDI",
            format: InstructionFormat::I,
            opcode: 0b0010011,
            funct3: Some(0x7),
            funct7: None,
        },
        ISA::ORI => InstructionDefinition {
            name: "ORI",
            format: InstructionFormat::I,
            opcode: 0b0010011,
            funct3: Some(0x6),
            funct7: None,
        },
        ISA::XORI => InstructionDefinition {
            name: "XORI",
            format: InstructionFormat::I,
            opcode: 0b0010011,
            funct3: Some(0x4),
            funct7: None,
        },
        ISA::SLLI => InstructionDefinition {
            name: "SLLI",
            format: InstructionFormat::I,
            opcode: 0b0010011,
            funct3: Some(0x1),
            funct7: Some(0x00),
        },
        ISA::SRLI => InstructionDefinition {
            name: "SRLI",
            format: InstructionFormat::I,
            opcode: 0b0010011,
            funct3: Some(0x5),
            funct7: Some(0x00),
        },
        ISA::SRAI => InstructionDefinition {
            name: "SRAI",
            format: InstructionFormat::I,
            opcode: 0b0010011,
            funct3: Some(0x5),
            funct7: Some(0x20),
        },
        ISA::JALR => InstructionDefinition {
            name: "JALR",
            format: InstructionFormat::I,
            opcode: 0b1100111,
            funct3: Some(0x0),
            funct7: None,
        },
        ISA::CSRRW => InstructionDefinition {
            name: "CSRRW",
            format: InstructionFormat::I,
            opcode: 0b1110011,
            funct3: Some(0x1),
            funct7: Some(0x00),
        },
        ISA::CSRRS => InstructionDefinition {
            name: "CSRRS",
            format: InstructionFormat::I,
            opcode: 0b1110011,
            funct3: Some(0x2),
            funct7: Some(0x0),
        },
        ISA::CSRRC => InstructionDefinition {
            name: "CSRRC",
            format: InstructionFormat::I,
            opcode: 0b1110011,
            funct3: Some(0x3),
            funct7: Some(0x0),
        },
        ISA::CSRRWI => InstructionDefinition {
            name: "CSRRWI",
            format: InstructionFormat::I,
            opcode: 0b1110011,
            funct3: Some(0x5),
            funct7: Some(0x6),
        },
        ISA::CSRRSI => InstructionDefinition {
            name: "CSRRSI",
            format: InstructionFormat::I,
            opcode: 0b1110011,
            funct3: Some(0x6),
            funct7: Some(0x2),
        },
        ISA::CSRRCI => InstructionDefinition {
            name: "CSRRCI",
            format: InstructionFormat::I,
            opcode: 0b1110011,
            funct3: Some(0x7),
            funct7: Some(0x2),
        },
        ISA::LW => InstructionDefinition {
            name: "LW",
            format: InstructionFormat::I,
            opcode: 0b0000011,
            funct3: Some(0x2),
            funct7: None,
        },
        ISA::LH => InstructionDefinition {
            name: "LH",
            format: InstructionFormat::I,
            opcode: 0b0000011,
            funct3: Some(0x1),
            funct7: None,
        },
        ISA::LHU => InstructionDefinition {
            name: "LHU",
            format: InstructionFormat::I,
            opcode: 0b0000011,
            funct3: Some(0x5),
            funct7: None,
        },
        ISA::LB => InstructionDefinition {
            name: "LB",
            format: InstructionFormat::I,
            opcode: 0b0000011,
            funct3: Some(0x0),
            funct7: None,
        },
        ISA::LBU => InstructionDefinition {
            name: "LBU",
            format: InstructionFormat::I,
            opcode: 0b0000011,
            funct3: Some(0x4),
            funct7: None,
        },
        ISA::FENCE => InstructionDefinition {
            name: "FENCE",
            format: InstructionFormat::I,
            opcode: 0b0001111,
            funct3: Some(0x0),
            funct7: None,
        },
        ISA::FENCE_TSO => InstructionDefinition {
            name: "FENCE_TSO",
            format: InstructionFormat::I,
            opcode: 0b0001111,
            funct3: Some(0x0),
            funct7: None,
        },
        ISA::PAUSE => InstructionDefinition {
            name: "PAUSE",
            format: InstructionFormat::I,
            opcode: 0b0001111,
            funct3: Some(0x0),
            funct7: None,
        },
        ISA::ECALL => InstructionDefinition {
            name: "ECALL",
            format: InstructionFormat::I,
            opcode: 0b1110011,
            funct3: Some(0x0),
            funct7: None,
        },
        ISA::EBREAK => InstructionDefinition {
            name: "EBREAK",
            format: InstructionFormat::I,
            opcode: 0b1110011,
            funct3: Some(0x0),
            funct7: None,
        },
        ISA::SW => InstructionDefinition {
            name: "SW",
            format: InstructionFormat::S,
            opcode: 0b0100011,
            funct3: Some(0x2),
            funct7: None,
        },
        ISA::SH => InstructionDefinition {
            name: "SH",
            format: InstructionFormat::S,
            opcode: 0b0100011,
            funct3: Some(0x1),
            funct7: None,
        },
        ISA::SB => InstructionDefinition {
            name: "SB",
            format: InstructionFormat::S,
            opcode: 0b0100011,
            funct3: Some(0x0),
            funct7: None,
        },
        ISA::BEQ => InstructionDefinition {
            name: "BEQ",
            format: InstructionFormat::B,
            opcode: 0b1100011,
            funct3: Some(0x0),
            funct7: None,
        },
        ISA::BNE => InstructionDefinition {
            name: "BNE",
            format: InstructionFormat::B,
            opcode: 0b1100011,
            funct3: Some(0x1),
            funct7: None,
        },
        ISA::BLT => InstructionDefinition {
            name: "BLT",
            format: InstructionFormat::B,
            opcode: 0b1100011,
            funct3: Some(0x4),
            funct7: None,
        },
        ISA::BLTU => InstructionDefinition {
            name: "BLTU",
            format: InstructionFormat::B,
            opcode: 0b1100011,
            funct3: Some(0x6),
            funct7: None,
        },
        ISA::BGE => InstructionDefinition {
            name: "BGE",
            format: InstructionFormat::B,
            opcode: 0b1100011,
            funct3: Some(0x5),
            funct7: None,
        },
        ISA::BGEU => InstructionDefinition {
            name: "BGEU",
            format: InstructionFormat::B,
            opcode: 0b1100011,
            funct3: Some(0x7),
            funct7: None,
        },
        ISA::LUI => InstructionDefinition {
            name: "LUI",
            format: InstructionFormat::U,
            opcode: 0b0110111,
            funct3: None,
            funct7: None,
        },
        ISA::AUIPC => InstructionDefinition {
            name: "AUIPC",
            format: InstructionFormat::U,
            opcode: 0b0010111,
            funct3: None,
            funct7: None,
        },
        ISA::JAL => InstructionDefinition {
            name: "JAL",
            format: InstructionFormat::J,
            opcode: 0b1101111,
            funct3: None,
            funct7: None,
        },
    }
}

/// The instruction whose mnemonic is exactly `s` (upper case, as in the table).
pub open spec fn spec_isa_from_name(s: Seq<char>) -> Option<ISA> {
    if s == "ADD"@ {
        Some(ISA::ADD)
    } else if s == "SUB"@ {
        Some(ISA::SUB)
    } else if s == "SLT"@ {
        Some(ISA::SLT)
    } else if s == "SLTU"@ {
        Some(ISA::SLTU)
    } else if s == "AND"@ {
        Some(ISA::AND)
    } else if s == "OR"@ {
        Some(ISA::OR)
    } else if s == "XOR"@ {
        Some(ISA::XOR)
    } else if s == "SLL"@ {
        Some(ISA::SLL)
    } else if s == "SRL"@ {
        Some(ISA::SRL)
    } else if s == "SRA"@ {
        Some(ISA::SRA)
    } else if s == "ADDI"@ {
        Some(ISA::ADDI)
    } else if s == "SLTI"@ {
        Some(ISA::SLTI)
    } else if s == "SLTIU"@ {
        Some(ISA::SLTIU)
    } else if s == "ANDI"@ {
        Some(ISA::ANDI)
    } else if s == "ORI"@ {
        Some(ISA::ORI)
    } else if s == "XORI"@ {
        Some(ISA::XORI)
    } else if s == "SLLI"@ {
        Some(ISA::SLLI)
    } else if s == "SRLI"@ {
        Some(ISA::SRLI)
    } else if s == "SRAI"@ {
        Some(ISA::SRAI)
    } else if s == "JALR"@ {
        Some(ISA::JALR)
    } else if s == "CSRRW"@ {
        Some(ISA::CSRRW)
    } else if s == "CSRRS"@ {
        Some(ISA::CSRRS)
    } else if s == "CSRRC"@ {
        Some(ISA::CSRRC)
    } else if s == "CSRRWI"@ {
        Some(ISA::CSRRWI)
    } else if s == "CSRRSI"@ {
        Some(ISA::CSRRSI)
    } else if s == "CSRRCI"@ {
        Some(ISA::CSRRCI)
    } else if s == "LW"@ {
        Some(ISA::LW)
    } else if s == "LH"@ {
        Some(ISA::LH)
    } else if s == "LHU"@ {
        Some(ISA::LHU)
    } else if s == "LB"@ {
        Some(ISA::LB)
    } else if s == "LBU"@ {
        Some(ISA::LBU)
    } else if s == "FENCE"@ {
        Some(ISA::FENCE)
    } else if s == "FENCE_TSO"@ {
        Some(ISA::FENCE_TSO)
    } else if s == "PAUSE"@ {
        Some(ISA::PAUSE)
    } else if s == "ECALL"@ {
        Some(ISA::ECALL)
    } else if s == "EBREAK"@ {
        Some(ISA::EBREAK)
    } else if s == "SW"@ {
        Some(ISA::SW)
    } else if s == "SH"@ {
        Some(ISA::SH)
    } else if s == "SB"@ {
        Some(ISA::SB)
    } else if s == "BEQ"@ {
        Some(ISA::BEQ)
    } else if s == "BNE"@ {
        Some(ISA::BNE)
    } else if s == "BLT"@ {
        Some(ISA::BLT)
    } else if s == "BLTU"@ {
        Some(ISA::BLTU)
    } else if s == "BGE"@ {
        Some(ISA::BGE)
    } else if s == "BGEU"@ {
        Some(ISA::BGEU)
    } else if s == "LUI"@ {
        Some(ISA::LUI)
    } else if s == "AUIPC"@ {
        Some(ISA::AUIPC)
    } else if s == "JAL"@ {
        Some(ISA::JAL)
    } else {
        None
    }
}

/// The mnemonics `ECALL` and `EBREAK` name their instructions.
pub proof fn lemma_isa_from_name_system()
    ensures
        spec_isa_from_name("ECALL"@) == Some(ISA::ECALL),
        spec_isa_from_name("EBREAK"@) == Some(ISA::EBREAK),
{
    reveal_strlit("ADD");
    reveal_strlit("SUB");
    reveal_strlit("SLT");
    reveal_strlit("SLTU");
    reveal_strlit("AND");
    reveal_strlit("OR");
    reveal_strlit("XOR");
    reveal_strlit("SLL");
    reveal_strlit("SRL");
    reveal_strlit("SRA");
    reveal_strlit("ADDI");
    reveal_strlit("SLTI");
    reveal_strlit("SLTIU");
    reveal_strlit("ANDI");
    reveal_strlit("ORI");
    reveal_strlit("XORI");
    reveal_strlit("SLLI");
    reveal_strlit("SRLI");
    reveal_strlit("SRAI");
    reveal_strlit("JALR");
    reveal_strlit("CSRRW");
    reveal_strlit("CSRRS");
    reveal_strlit("CSRRC");
    reveal_strlit("CSRRWI");
    reveal_strlit("CSRRSI");
    reveal_strlit("CSRRCI");
    reveal_strlit("LW");
    reveal_strlit("LH");
    reveal_strlit("LHU");
    reveal_strlit("LB");
    reveal_strlit("LBU");
    reveal_strlit("FENCE");
    reveal_strlit("FENCE_TSO");
    reveal_strlit("PAUSE");
    reveal_strlit("ECALL");
    reveal_strlit("EBREAK");
    reveal_strlit("SW");
    reveal_strlit("SH");
    reveal_strlit("SB");
    reveal_strlit("BEQ");
    reveal_strlit("BNE");
    reveal_strlit("BLT");
    reveal_strlit("BLTU");
    reveal_strlit("BGE");
    reveal_strlit("BGEU");
    reveal_strlit("LUI");
    reveal_strlit("AUIPC");
    reveal_strlit("JAL");
    assert("ECALL"@.len() != "ADD"@.len());
    assert("ECALL"@.len() != "SUB"@.len());
    assert("ECALL"@.len() != "SLT"@.len());
    assert("ECALL"@.len() != "SLTU"@.len());
    assert("ECALL"@.len() != "AND"@.len());
    assert("ECALL"@.len() != "OR"@.len());
    assert("ECALL"@.len() != "XOR"@.len());
    assert("ECALL"@.len() != "SLL"@.len());
    assert("ECALL"@.len() != "SRL"@.len());
    assert("ECALL"@.len() != "SRA"@.len());
    assert("ECALL"@.len() != "ADDI"@.len());
    assert("ECALL"@.len() != "SLTI"@.len());
    assert("ECALL"@[0] != "SLTIU"@[0]);
    assert("ECALL"@.len() != "ANDI"@.len());
    assert("ECALL"@.len() != "ORI"@.len());
    assert("ECALL"@.len() != "XORI"@.len());
    assert("ECALL"@.len() != "SLLI"@.len());
    assert("ECALL"@.len() != "SRLI"@.len());
    assert("ECALL"@.len() != "SRAI"@.len());
    assert("ECALL"@.len() != "JALR"@.len());
    assert("ECALL"@[0] != "CSRRW"@[0]);
    assert("ECALL"@[0] != "CSRRS"@[0]);
    assert("ECALL"@[0] != "CSRRC"@[0]);
    assert("ECALL"@.len() != "CSRRWI"@.len());
    assert("ECALL"@.len() != "CSRRSI"@.len());
    assert("ECALL"@.len() != "CSRRCI"@.len());
    assert("ECALL"@.len() != "LW"@.len());
    assert("ECALL"@.len() != "LH"@.len());
    assert("ECALL"@.len() != "LHU"@.len());
    assert("ECALL"@.len() != "LB"@.len());
    assert("ECALL"@.len() != "LBU"@.len());
    assert("ECALL"@[0] != "FENCE"@[0]);
    assert("ECALL"@.len() != "FENCE_TSO"@.len());
    assert("ECALL"@[0] != "PAUSE"@[0]);
    assert("EBREAK"@.len() != "ADD"@.len());
    assert("EBREAK"@.len() != "SUB"@.len());
    assert("EBREAK"@.len() != "SLT"@.len());
    assert("EBREAK"@.len() != "SLTU"@.len());
    assert("EBREAK"@.len() != "AND"@.len());
    assert("EBREAK"@.len() != "OR"@.len());
    assert("EBREAK"@.len() != "XOR"@.len());
    assert("EBREAK"@.len() != "SLL"@.len());
    assert("EBREAK"@.len() != "SRL"@.len());
    assert("EBREAK"@.len() != "SRA"@.len());
    assert("EBREAK"@.len() != "ADDI"@.len());
    assert("EBREAK"@.len() != "SLTI"@.len());
    assert("EBREAK"@.len() != "SLTIU"@.len());
    assert("EBREAK"@.len() != "ANDI"@.len());
    assert("EBREAK"@.len() != "ORI"@.len());
    assert("EBREAK"@.len() != "XORI"@.len());
    assert("EBREAK"@.len() != "SLLI"@.len());
    assert("EBREAK"@.len() != "SRLI"@.len());
    assert("EBREAK"@.len() != "SRAI"@.len());
    assert("EBREAK"@.len() != "JALR"@.len());
    assert("EBREAK"@.len() != "CSRRW"@.len());
    assert("EBREAK"@.len() != "CSRRS"@.len());
    assert("EBREAK"@.len() != "CSRRC"@.len());
    assert("EBREAK"@[0] != "CSRRWI"@[0]);
    assert("EBREAK"@[0] != "CSRRSI"@[0]);
    assert("EBREAK"@[0] != "CSRRCI"@[0]);
    assert("EBREAK"@.len() != "LW"@.len());
    assert("EBREAK"@.len() != "LH"@.len());
    assert("EBREAK"@.len() != "LHU"@.len());
    assert("EBREAK"@.len() != "LB"@.len());
    assert("EBREAK"@.len() != "LBU"@.len());
    assert("EBREAK"@.len() != "FENCE"@.len());
    assert("EBREAK"@.len() != "FENCE_TSO"@.len());
    assert("EBREAK"@.len() != "PAUSE"@.len());
    assert("EBREAK"@.len() != "ECALL"@.len());
}

/// The instruction that a raw word encodes, if any.
pub open spec fn spec_decode(w: u32) -> Option<ISA> {
    let opcode = spec_opcode(w);
    let funct3 = spec_funct3(w);
    let funct7 = spec_funct7(w);
    if opcode == 0b0110111 {
        Some(ISA::LUI)
    } else if opcode == 0b0010111 {
        Some(ISA::AUIPC)
    } else if opcode == 0b1101111 {
        Some(ISA::JAL)
    } else if opcode == 0b1100111 {
        Some(ISA::JALR)
    } else if opcode == 0b1100011 {
        if funct3 == 0b000 {
            Some(ISA::BEQ)
        } else if funct3 == 0b001 {
            Some(ISA::BNE)
        } else if funct3 == 0b100 {
            Some(ISA::BLT)
        } else if funct3 == 0b101 {
            Some(ISA::BGE)
        } else if funct3 == 0b110 {
            Some(ISA::BLTU)
        } else if funct3 == 0b111 {
            Some(ISA::BGEU)
        } else {
            None
        }
    } else if opcode == 0b0000011 {
        if funct3 == 0b000 {
            Some(ISA::LB)
        } else if funct3 == 0b001 {
            Some(ISA::LH)
        } else if funct3 == 0b010 {
            Some(ISA::LW)
        } else if funct3 == 0b100 {
            Some(ISA::LBU)
        } else if funct3 == 0b101 {
            Some(ISA::LHU)
        } else {
            None
        }
    } else if opcode == 0b0100011 {
        if funct3 == 0b000 {
            Some(ISA::SB)
        } else if funct3 == 0b001 {
            Some(ISA::SH)
        } else if funct3 == 0b010 {
            Some(ISA::SW)
        } else {
            None
        }
    } else if opcode == 0b0010011 {
        if funct3 == 0b000 {
            Some(ISA::ADDI)
        } else if funct3 == 0b010 {
            Some(ISA::SLTI)
        } else if funct3 == 0b011 {
            Some(ISA::SLTIU)
        } else if funct3 == 0b100 {
            Some(ISA::XORI)
        } else if funct3 == 0b110 {
            Some(ISA::ORI)
        } else if funct3 == 0b111 {
            Some(ISA::ANDI)
        } else if funct3 == 0b001 {
            Some(ISA::SLLI)
        } else if funct7 == 0b0100000 {
            Some(ISA::SRAI)
        } else {
            Some(ISA::SRLI)
        }
    } else if opcode == 0b0110011 {
        if funct7 == 0b0000000 {
            if funct3 == 0b000 {
                Some(ISA::ADD)
            } else if funct3 == 0b001 {
                Some(ISA::SLL)
            } else if funct3 == 0b010 {
                Some(ISA::SLT)
            } else if funct3 == 0b011 {
                Some(ISA::SLTU)
            } else if funct3 == 0b100 {
                Some(ISA::XOR)
            } else if funct3 == 0b101 {
                Some(ISA::SRL)
            } else if funct3 == 0b110 {
                Some(ISA::OR)
            } else {
                Some(ISA::AND)
            }
        } else if funct7 == 0b0100000 {
            if funct3 == 0b000 {
                Some(ISA::SUB)
            } else if funct3 == 0b101 {
                Some(ISA::SRA)
            } else {
                None
            }
        } else {
            None
        }
    } else if opcode == 0b0001111 {
        if funct3 == 0b000 {
            if w == 0b1000_0011_0011_00000_000_00000_0001111 {
                Some(ISA::FENCE_TSO)
            } else if w == 0b0000_0001_0000_00000_000_00000_0001111 {
                Some(ISA::PAUSE)
            } else {
                Some(ISA::FENCE)
            }
        } else {
            None
        }
    } else if opcode == 0b1110011 {
        if funct3 == 0b000 {
            if funct7 == 0b0000000 && w == 0b0000_0000_0000_00000_000_00000_1110011 {
                Some(ISA::ECALL)
            } else if funct7 == 0b0000000 && w == 0b0000_0000_0001_00000_000_00000_1110011 {
                Some(ISA::EBREAK)
            } else {
                None
            }
        } else if funct3 == 0b001 {
            Some(ISA::CSRRW)
        } else if funct3 == 0b010 {
            Some(ISA::CSRRS)
        } else if funct3 == 0b011 {
            Some(ISA::CSRRC)
        } else if funct3 == 0b101 {
            Some(ISA::CSRRWI)
        } else if funct3 == 0b110 {
            Some(ISA::CSRRSI)
        } else if funct3 == 0b111 {
            Some(ISA::CSRRCI)
        } else {
            None
        }
    } else {
        None
    }
}

impl InstructionDefinition {
    /// The table entry of the instruction that `instr` encodes, if any.
    pub fn from_instr(instr: Instruction) -> (r: Option<InstructionDefinition>)
        ensures
            r == (match spec_decode(instr@) {
                Some(isa) => Some(spec_definition(isa)),
                None => None,
            }),
    {
        match ISA::instr_to_isa(instr) {
            Some(isa) => Some(isa.definition()),
            None => None,
        }
    }

    /// Whether the opcode and function codes fit their fields.
    pub open spec fn codes_fit(self) -> bool {
        &&& self.opcode < 128
        &&& (match self.funct3 { Some(f) => f < 8, None => true })
        &&& (match self.funct7 { Some(f) => f < 128, None => true })
    }

    /// Whether `operands` fit the fields of this entry's format, so that
    /// the instruction can be encoded.
    pub open spec fn accepts(self, operands: Operands) -> bool {
        &&& self.opcode < 128
        &&& (match self.funct3 { Some(f) => f < 8, None => true })
        &&& (match self.funct7 { Some(f) => f < 128, None => true })
        &&& operands.rd < 32
        &&& operands.rs1 < 32
        &&& operands.rs2 < 32
        &&& super::instruction::spec_immediate_encodable(self.format, operands.imm)
    }

    /// Encodes this instruction with the given operands.
    pub fn build(&self, operands: Operands) -> (r: Instruction)
        requires
            self.accepts(operands),
        ensures
            r@ == super::instruction::spec_encode_definition(*self, operands),
    {
        Instruction::from_def_operands(*self, operands)
    }
}

impl ISA {
    /// The table entry of this instruction.
    pub fn definition(&self) -> (d: InstructionDefinition)
        ensures
            d == spec_definition(*self),
    {
        match *self {
            ISA::ADD => InstructionDefinition {
                name: "ADD",
                format: InstructionFormat::R,
                opcode: 0b0110011,
                funct3: Some(0x0),
                funct7: Some(0x00),
            },
            ISA::SUB => InstructionDefinition {
                name: "SUB",
                format: InstructionFormat::R,
                opcode: 0b0110011,
                funct3: Some(0x0),
                funct7: Some(0x20),
            },
            ISA::SLT => InstructionDefinition {
                name: "SLT",
                format: InstructionFormat::R,
                opcode: 0b0110011,
                funct3: Some(0x2),
                funct7: Some(0x00),
            },
            ISA::SLTU => InstructionDefinition {
                name: "SLTU",
                format: InstructionFormat::R,
                opcode: 0b0110011,
                funct3: Some(0x3),
                funct7: Some(0x00),
            },
            ISA::AND => InstructionDefinition {
                name: "AND",
                format: InstructionFormat::R,
                opcode: 0b0110011,
                funct3: Some(0x7),
                funct7: Some(0x00),
            },
            ISA::OR => InstructionDefinition {
                name: "OR",
                format: InstructionFormat::R,
                opcode: 0b0110011,
                funct3: Some(0x6),
                funct7: Some(0x00),
            },
            ISA::XOR => InstructionDefinition {
                name: "XOR",
                format: InstructionFormat::R,
                opcode: 0b0110011,
                funct3: Some(0x4),
                funct7: Some(0x00),
            },
            ISA::SLL => InstructionDefinition {
                name: "SLL",
                format: InstructionFormat::R,
                opcode: 0b0110011,
                funct3: Some(0x1),
                funct7: Some(0x00),
            },
            ISA::SRL => InstructionDefinition {
                name: "SRL",
                format: InstructionFormat::R,
                opcode: 0b0110011,
                funct3: Some(0x5),
                funct7: Some(0x00),
            },
            ISA::SRA => InstructionDefinition {
                name: "SRA",
                format: InstructionFormat::R,
                opcode: 0b0110011,
                funct3: Some(0x5),
                funct7: Some(0x20),
            },
            ISA::ADDI => InstructionDefinition {
                name: "ADDI",
                format: InstructionFormat::I,
                opcode: 0b0010011,
                funct3: Some(0x0),
                funct7: None,
            },
            ISA::SLTI => InstructionDefinition {
                name: "SLTI",
                format: InstructionFormat::I,
                opcode: 0b0010011,
                funct3: Some(0x2),
                funct7: None,
            },
            ISA::SLTIU => InstructionDefinition {
                name: "SLTIU",
                format: InstructionFormat::I,
                opcode: 0b0010011,
                funct3: Some(0x3),
                funct7: None,
            },
            ISA::ANDI => InstructionDefinition {
                name: "ANDI",
                format: InstructionFormat::I,
                opcode: 0b0010011,
                funct3: Some(0x7),
                funct7: None,
            },
            ISA::ORI => InstructionDefinition {
                name: "ORI",
                format: InstructionFormat::I,
                opcode: 0b0010011,
                funct3: Some(0x6),
                funct7: None,
            },
            ISA::XORI => InstructionDefinition {
                name: "XORI",
                format: InstructionFormat::I,
                opcode: 0b0010011,
                funct3: Some(0x4),
                funct7: None,
            },
            ISA::SLLI => InstructionDefinition {
                name: "SLLI",
                format: InstructionFormat::I,
                opcode: 0b0010011,
                funct3: Some(0x1),
                funct7: Some(0x00),
            },
            ISA::SRLI => InstructionDefinition {
                name: "SRLI",
                format: InstructionFormat::I,
                opcode: 0b0010011,
                funct3: Some(0x5),
                funct7: Some(0x00),
            },
            ISA::SRAI => InstructionDefinition {
                name: "SRAI",
                format: InstructionFormat::I,
                opcode: 0b0010011,
                funct3: Some(0x5),
                funct7: Some(0x20),
            },
            ISA::JALR => InstructionDefinition {
                name: "JALR",
                format: InstructionFormat::I,
                opcode: 0b1100111,
                funct3: Some(0x0),
                funct7: None,
            },
            ISA::CSRRW => InstructionDefinition {
                name: "CSRRW",
                format: InstructionFormat::I,
                opcode: 0b1110011,
                funct3: Some(0x1),
                funct7: Some(0x00),
            },
            ISA::CSRRS => InstructionDefinition {
                name: "CSRRS",
                format: InstructionFormat::I,
                opcode: 0b1110011,
                funct3: Some(0x2),
                funct7: Some(0x0),
            },
            ISA::CSRRC => InstructionDefinition {
                name: "CSRRC",
                format: InstructionFormat::I,
                opcode: 0b1110011,
                funct3: Some(0x3),
                funct7: Some(0x0),
            },
            ISA::CSRRWI => InstructionDefinition {
                name: "CSRRWI",
                format: InstructionFormat::I,
                opcode: 0b1110011,
                funct3: Some(0x5),
                funct7: Some(0x6),
            },
            ISA::CSRRSI => InstructionDefinition {
                name: "CSRRSI",
                format: InstructionFormat::I,
                opcode: 0b1110011,
                funct3: Some(0x6),
                funct7: Some(0x2),
            },
            ISA::CSRRCI => InstructionDefinition {
                name: "CSRRCI",
                format: InstructionFormat::I,
                opcode: 0b1110011,
                funct3: Some(0x7),
                funct7: Some(0x2),
            },
            ISA::LW => InstructionDefinition {
                name: "LW",
                format: InstructionFormat::I,
                opcode: 0b0000011,
                funct3: Some(0x2),
                funct7: None,
            },
            ISA::LH => InstructionDefinition {
                name: "LH",
                format: InstructionFormat::I,
                opcode: 0b0000011,
                funct3: Some(0x1),
                funct7: None,
            },
            ISA::LHU => InstructionDefinition {
                name: "LHU",
                format: InstructionFormat::I,
                opcode: 0b0000011,
                funct3: Some(0x5),
                funct7: None,
            },
            ISA::LB => InstructionDefinition {
                name: "LB",
                format: InstructionFormat::I,
                opcode: 0b0000011,
                funct3: Some(0x0),
                funct7: None,
            },
            ISA::LBU => InstructionDefinition {
                name: "LBU",
                format: InstructionFormat::I,
                opcode: 0b0000011,
                funct3: Some(0x4),
                funct7: None,
            },
            ISA::FENCE => InstructionDefinition {
                name: "FENCE",
                format: InstructionFormat::I,
                opcode: 0b0001111,
                funct3: Some(0x0),
                funct7: None,
            },
            ISA::FENCE_TSO => InstructionDefinition {
                name: "FENCE_TSO",
                format: InstructionFormat::I,
                opcode: 0b0001111,
                funct3: Some(0x0),
                funct7: None,
            },
            ISA::PAUSE => InstructionDefinition {
                name: "PAUSE",
                format: InstructionFormat::I,
                opcode: 0b0001111,
                funct3: Some(0x0),
                funct7: None,
            },
            ISA::ECALL => InstructionDefinition {
                name: "ECALL",
                format: InstructionFormat::I,
                opcode: 0b1110011,
                funct3: Some(0x0),
                funct7: None,
            },
            ISA::EBREAK => InstructionDefinition {
                name: "EBREAK",
                format: InstructionFormat::I,
                opcode: 0b1110011,
                funct3: Some(0x0),
                funct7: None,
            },
            ISA::SW => InstructionDefinition {
                name: "SW",
                format: InstructionFormat::S,
                opcode: 0b0100011,
                funct3: Some(0x2),
                funct7: None,
            },
            ISA::SH => InstructionDefinition {
                name: "SH",
                format: InstructionFormat::S,
                opcode: 0b0100011,
                funct3: Some(0x1),
                funct7: None,
            },
            ISA::SB => InstructionDefinition {
                name: "SB",
                format: InstructionFormat::S,
                opcode: 0b0100011,
                funct3: Some(0x0),
                funct7: None,
            },
            ISA::BEQ => InstructionDefinition {
                name: "BEQ",
                format: InstructionFormat::B,
                opcode: 0b1100011,
                funct3: Some(0x0),
                funct7: None,
            },
            ISA::BNE => InstructionDefinition {
                name: "BNE",
                format: InstructionFormat::B,
                opcode: 0b1100011,
                funct3: Some(0x1),
                funct7: None,
            },
            ISA::BLT => InstructionDefinition {
                name: "BLT",
                format: InstructionFormat::B,
                opcode: 0b1100011,
                funct3: Some(0x4),
                funct7: None,
            },
            ISA::BLTU => InstructionDefinition {
                name: "BLTU",
                format: InstructionFormat::B,
                opcode: 0b1100011,
                funct3: Some(0x6),
                funct7: None,
            },
            ISA::BGE => InstructionDefinition {
                name: "BGE",
                format: InstructionFormat::B,
                opcode: 0b1100011,
                funct3: Some(0x5),
                funct7: None,
            },
            ISA::BGEU => InstructionDefinition {
                name: "BGEU",
                format: InstructionFormat::B,
                opcode: 0b1100011,
                funct3: Some(0x7),
                funct7: None,
            },
            ISA::LUI => InstructionDefinition {
                name: "LUI",
                format: InstructionFormat::U,
                opcode: 0b0110111,
                funct3: None,
                funct7: None,
            },
            ISA::AUIPC => InstructionDefinition {
                name: "AUIPC",
                format: InstructionFormat::U,
                opcode: 0b0010111,
                funct3: None,
                funct7: None,
            },
            ISA::JAL => InstructionDefinition {
                name: "JAL",
                format: InstructionFormat::J,
                opcode: 0b1101111,
                funct3: None,
                funct7: None,
            },
        }
    }

    /// Encodes this instruction with the given operands.
    pub fn build(&self, operands: Operands) -> (r: Instruction)
        requires
            spec_definition(*self).accepts(operands),
        ensures
            r@ == super::instruction::spec_encode_definition(spec_definition(*self), operands),
    {
        Instruction::from_def_operands(self.definition(), operands)
    }

    /// The instruction whose mnemonic is exactly `name`.
    pub fn from_name(name: &Vec<char>) -> (r: Option<ISA>)
        ensures
            r == spec_isa_from_name(name@),
    {
        if chars_equal_str(name, "ADD") {
            Some(ISA::ADD)
        }         else if chars_equal_str(name, "SUB") {
            Some(ISA::SUB)
        }         else if chars_equal_str(name, "SLT") {
            Some(ISA::SLT)
        }         else if chars_equal_str(name, "SLTU") {
            Some(ISA::SLTU)
        }         else if chars_equal_str(name, "AND") {
            Some(ISA::AND)
        }         else if chars_equal_str(name, "OR") {
            Some(ISA::OR)
        }         else if chars_equal_str(name, "XOR") {
            Some(ISA::XOR)
        }         else if chars_equal_str(name, "SLL") {
            Some(ISA::SLL)
        }         else if chars_equal_str(name, "SRL") {
            Some(ISA::SRL)
        }         else if chars_equal_str(name, "SRA") {
            Some(ISA::SRA)
        }         else if chars_equal_str(name, "ADDI") {
            Some(ISA::ADDI)
        }         else if chars_equal_str(name, "SLTI") {
            Some(ISA::SLTI)
        }         else if chars_equal_str(name, "SLTIU") {
            Some(ISA::SLTIU)
        }         else if chars_equal_str(name, "ANDI") {
            Some(ISA::ANDI)
        }         else if chars_equal_str(name, "ORI") {
            Some(ISA::ORI)
        }         else if chars_equal_str(name, "XORI") {
            Some(ISA::XORI)
        }         else if chars_equal_str(name, "SLLI") {
            Some(ISA::SLLI)
        }         else if chars_equal_str(name, "SRLI") {
            Some(ISA::SRLI)
        }         else if chars_equal_str(name, "SRAI") {
            Some(ISA::SRAI)
        }         else if chars_equal_str(name, "JALR") {
            Some(ISA::JALR)
        }         else if chars_equal_str(name, "CSRRW") {
            Some(ISA::CSRRW)
        }         else if chars_equal_str(name, "CSRRS") {
            Some(ISA::CSRRS)
        }         else if chars_equal_str(name, "CSRRC") {
            Some(ISA::CSRRC)
        }         else if chars_equal_str(name, "CSRRWI") {
            Some(ISA::CSRRWI)
        }         else if chars_equal_str(name, "CSRRSI") {
            Some(ISA::CSRRSI)
        }         else if chars_equal_str(name, "CSRRCI") {
            Some(ISA::CSRRCI)
        }         else if chars_equal_str(name, "LW") {
            Some(ISA::LW)
        }         else if chars_equal_str(name, "LH") {
            Some(ISA::LH)
        }         else if chars_equal_str(name, "LHU") {
            Some(ISA::LHU)
        }         else if chars_equal_str(name, "LB") {
            Some(ISA::LB)
        }         else if chars_equal_str(name, "LBU") {
            Some(ISA::LBU)
        }         else if chars_equal_str(name, "FENCE") {
            Some(ISA::FENCE)
        }         else if chars_equal_str(name, "FENCE_TSO") {
            Some(ISA::FENCE_TSO)
        }         else if chars_equal_str(name, "PAUSE") {
            Some(ISA::PAUSE)
        }         else if chars_equal_str(name, "ECALL") {
            Some(ISA::ECALL)
        }         else if chars_equal_str(name, "EBREAK") {
            Some(ISA::EBREAK)
        }         else if chars_equal_str(name, "SW") {
            Some(ISA::SW)
        }         else if chars_equal_str(name, "SH") {
            Some(ISA::SH)
        }         else if chars_equal_str(name, "SB") {
            Some(ISA::SB)
        }         else if chars_equal_str(name, "BEQ") {
            Some(ISA::BEQ)
        }         else if chars_equal_str(name, "BNE") {
            Some(ISA::BNE)
        }         else if chars_equal_str(name, "BLT") {
            Some(ISA::BLT)
        }         else if chars_equal_str(name, "BLTU") {
            Some(ISA::BLTU)
        }         else if chars_equal_str(name, "BGE") {
            Some(ISA::BGE)
        }         else if chars_equal_str(name, "BGEU") {
            Some(ISA::BGEU)
        }         else if chars_equal_str(name, "LUI") {
            Some(ISA::LUI)
        }         else if chars_equal_str(name, "AUIPC") {
            Some(ISA::AUIPC)
        }         else if chars_equal_str(name, "JAL") {
            Some(ISA::JAL)
        } else {
            None
        }
    }

    /// Looking an instruction up by its opcode and function codes alone is not
    /// supported: the same fields are shared by several instructions, so this
    /// finds none.
    pub fn from_opcode(opcode: u8, funct3: Option<u8>, funct7: Option<u8>) -> (r: Option<ISA>)
        ensures
            r is None,
    {
        None
    }

    /// The instruction that `instr` encodes, if any.
    pub fn instr_to_isa(instr: Instruction) -> (r: Option<ISA>)
        ensures
            r == spec_decode(instr@),
    {
        let opcode = instr.opcode();
        let funct3 = instr.funct3();
        let funct7 = instr.funct7();
        let raw = instr.raw();
        if opcode == 0b0110111 {
            Some(ISA::LUI)
        } else if opcode == 0b0010111 {
            Some(ISA::AUIPC)
        } else if opcode == 0b1101111 {
            Some(ISA::JAL)
        } else if opcode == 0b1100111 {
            Some(ISA::JALR)
        } else if opcode == 0b1100011 {
            if funct3 == 0b000 {
                Some(ISA::BEQ)
            } else if funct3 == 0b001 {
                Some(ISA::BNE)
            } else if funct3 == 0b100 {
                Some(ISA::BLT)
            } else if funct3 == 0b101 {
                Some(ISA::BGE)
            } else if funct3 == 0b110 {
                Some(ISA::BLTU)
            } else if funct3 == 0b111 {
                Some(ISA::BGEU)
            } else {
                None
            }
        } else if opcode == 0b0000011 {
            if funct3 == 0b000 {
                Some(ISA::LB)
            } else if funct3 == 0b001 {
                Some(ISA::LH)
            } else if funct3 == 0b010 {
                Some(ISA::LW)
            } else if funct3 == 0b100 {
                Some(ISA::LBU)
            } else if funct3 == 0b101 {
                Some(ISA::LHU)
            } else {
                None
            }
        } else if opcode == 0b0100011 {
            if funct3 == 0b000 {
                Some(ISA::SB)
            } else if funct3 == 0b001 {
                Some(ISA::SH)
            } else if funct3 == 0b010 {
                Some(ISA::SW)
            } else {
                None
            }
        } else if opcode == 0b0010011 {
            if funct3 == 0b000 {
                Some(ISA::ADDI)
            } else if funct3 == 0b010 {
                Some(ISA::SLTI)
            } else if funct3 == 0b011 {
                Some(ISA::SLTIU)
            } else if funct3 == 0b100 {
                Some(ISA::XORI)
            } else if funct3 == 0b110 {
                Some(ISA::ORI)
            } else if funct3 == 0b111 {
                Some(ISA::ANDI)
            } else if funct3 == 0b001 {
                Some(ISA::SLLI)
            } else if funct7 == 0b0100000 {
                Some(ISA::SRAI)
            } else {
                Some(ISA::SRLI)
            }
        } else if opcode == 0b0110011 {
            if funct7 == 0b0000000 {
                if funct3 == 0b000 {
                    Some(ISA::ADD)
                } else if funct3 == 0b001 {
                    Some(ISA::SLL)
                } else if funct3 == 0b010 {
                    Some(ISA::SLT)
                } else if funct3 == 0b011 {
                    Some(ISA::SLTU)
                } else if funct3 == 0b100 {
                    Some(ISA::XOR)
                } else if funct3 == 0b101 {
                    Some(ISA::SRL)
                } else if funct3 == 0b110 {
                    Some(ISA::OR)
                } else {
                    Some(ISA::AND)
                }
            } else if funct7 == 0b0100000 {
                if funct3 == 0b000 {
                    Some(ISA::SUB)
                } else if funct3 == 0b101 {
                    Some(ISA::SRA)
                } else {
                    None
                }
            } else {
                None
            }
        } else if opcode == 0b0001111 {
            if funct3 == 0b000 {
                if raw == 0b1000_0011_0011_00000_000_00000_0001111 {
                    Some(ISA::FENCE_TSO)
                } else if raw == 0b0000_0001_0000_00000_000_00000_0001111 {
                    Some(ISA::PAUSE)
                } else {
                    Some(ISA::FENCE)
                }
            } else {
                None
            }
        } else if opcode == 0b1110011 {
            if funct3 == 0b000 {
                if funct7 == 0b0000000 && raw == 0b0000_0000_0000_00000_000_00000_1110011 {
                    Some(ISA::ECALL)
                } else if funct7 == 0b0000000 && raw == 0b0000_0000_0001_00000_000_00000_1110011 {
                    Some(ISA::EBREAK)
                } else {
                    None
                }
            } else if funct3 == 0b001 {
                Some(ISA::CSRRW)
            } else if funct3 == 0b010 {
                Some(ISA::CSRRS)
            } else if funct3 == 0b011 {
                Some(ISA::CSRRC)
            } else if funct3 == 0b101 {
                Some(ISA::CSRRWI)
            } else if funct3 == 0b110 {
                Some(ISA::CSRRSI)
            } else if funct3 == 0b111 {
                Some(ISA::CSRRCI)
            } else {
                None
            }
        } else {
            None
        }
    }
}

/// Whether a word built for `v` decodes back to `v`: the fence, environment
/// call and shift instructions share their opcode and function codes with
/// others, so for them the word must carry the bits that single them out.
pub open spec fn spec_decodes_back(v: ISA, w: u32) -> bool {
    match v {
        ISA::FENCE_TSO => w == 0b1000_0011_0011_00000_000_00000_0001111,
        ISA::PAUSE => w == 0b0000_0001_0000_00000_000_00000_0001111,
        ISA::FENCE => w != 0b1000_0011_0011_00000_000_00000_0001111 && w
            != 0b0000_0001_0000_00000_000_00000_0001111,
        ISA::ECALL => w == 0b0000_0000_0000_00000_000_00000_1110011,
        ISA::EBREAK => w == 0b0000_0000_0001_00000_000_00000_1110011,
        ISA::SRLI => spec_funct7(w) != 0b0100000,
        ISA::SRAI => spec_funct7(w) == 0b0100000,
        _ => true,
    }
}

/// Decoding the word that the table builds for an instruction gives that
/// instruction back.
pub proof fn law_decode_build(v: ISA, operands: Operands)
    requires
        spec_definition(v).accepts(operands),
        spec_decodes_back(v, spec_encode_definition(spec_definition(v), operands)),
    ensures
        spec_decode(spec_encode_definition(spec_definition(v), operands)) == Some(v),
{
    let d = spec_definition(v);
    let f3 = super::instruction::spec_code_or_zero(d.funct3);
    let f7 = super::instruction::spec_code_or_zero(d.funct7);
    match v {
        ISA::ADD => {
            law_encode_r_fields(d.opcode as u32, operands.rd, f3, operands.rs1, operands.rs2, f7);
            let w = spec_encode_definition(d, operands);
            assert(spec_opcode(w) == 0b0110011 && spec_funct3(w) == 0 && spec_funct7(w) == 0);
            assert(spec_decode(w) == Some(ISA::ADD));
        },
        ISA::SUB => {
            law_encode_r_fields(d.opcode as u32, operands.rd, f3, operands.rs1, operands.rs2, f7);
            assert(spec_decode(spec_encode_definition(d, operands)) == Some(ISA::SUB));
        },
        ISA::SLT => {
            law_encode_r_fields(d.opcode as u32, operands.rd, f3, operands.rs1, operands.rs2, f7);
            assert(spec_decode(spec_encode_definition(d, operands)) == Some(ISA::SLT));
        },
        ISA::SLTU => {
            law_encode_r_fields(d.opcode as u32, operands.rd, f3, operands.rs1, operands.rs2, f7);
            assert(spec_decode(spec_encode_definition(d, operands)) == Some(ISA::SLTU));
        },
        ISA::AND => {
            law_encode_r_fields(d.opcode as u32, operands.rd, f3, operands.rs1, operands.rs2, f7);
            assert(spec_decode(spec_encode_definition(d, operands)) == Some(ISA::AND));
        },
        ISA::OR => {
            law_encode_r_fields(d.opcode as u32, operands.rd, f3, operands.rs1, operands.rs2, f7);
            assert(spec_decode(spec_encode_definition(d, operands)) == Some(ISA::OR));
        },
        ISA::XOR => {
            law_encode_r_fields(d.opcode as u32, operands.rd, f3, operands.rs1, operands.rs2, f7);
            assert(spec_decode(spec_encode_definition(d, operands)) == Some(ISA::XOR));
        },
        ISA::SLL => {
            law_encode_r_fields(d.opcode as u32, operands.rd, f3, operands.rs1, operands.rs2, f7);
            assert(spec_decode(spec_encode_definition(d, operands)) == Some(ISA::SLL));
        },
        ISA::SRL => {
            law_encode_r_fields(d.opcode as u32, operands.rd, f3, operands.rs1, operands.rs2, f7);
            assert(spec_decode(spec_encode_definition(d, operands)) == Some(ISA::SRL));
        },
        ISA::SRA => {
            law_encode_r_fields(d.opcode as u32, operands.rd, f3, operands.rs1, operands.rs2, f7);
            assert(spec_decode(spec_encode_definition(d, operands)) == Some(ISA::SRA));
        },
        ISA::ADDI => {
            law_encode_i_fields(d.opcode as u32, operands.rd, f3, operands.rs1, operands.imm);
            assert(spec_decode(spec_encode_definition(d, operands)) == Some(ISA::ADDI));
        },
        ISA::SLTI => {
            law_encode_i_fields(d.opcode as u32, operands.rd, f3, operands.rs1, operands.imm);
            assert(spec_decode(spec_encode_definition(d, operands)) == Some(ISA::SLTI));
        },
        ISA::SLTIU => {
            law_encode_i_fields(d.opcode as u32, operands.rd, f3, operands.rs1, operands.imm);
            assert(spec_decode(spec_encode_definition(d, operands)) == Some(ISA::SLTIU));
        },
        ISA::ANDI => {
            law_encode_i_fields(d.opcode as u32, operands.rd, f3, operands.rs1, operands.imm);
            assert(spec_decode(spec_encode_definition(d, operands)) == Some(ISA::ANDI));
        },
        ISA::ORI => {
            law_encode_i_fields(d.opcode as u32, operands.rd, f3, operands.rs1, operands.imm);
            assert(spec_decode(spec_encode_definition(d, operands)) == Some(ISA::ORI));
        },
        ISA::XORI => {
            law_encode_i_fields(d.opcode as u32, operands.rd, f3, operands.rs1, operands.imm);
            assert(spec_decode(spec_encode_definition(d, operands)) == Some(ISA::XORI));
        },
        ISA::SLLI => {
            law_encode_i_fields(d.opcode as u32, operands.rd, f3, operands.rs1, operands.imm);
            assert(spec_decode(spec_encode_definition(d, operands)) == Some(ISA::SLLI));
        },
        ISA::SRLI => {
            law_encode_i_fields(d.opcode as u32, operands.rd, f3, operands.rs1, operands.imm);
            assert(spec_decode(spec_encode_definition(d, operands)) == Some(ISA::SRLI));
        },
        ISA::SRAI => {
            law_encode_i_fields(d.opcode as u32, operands.rd, f3, operands.rs1, operands.imm);
            assert(spec_decode(spec_encode_definition(d, operands)) == Some(ISA::SRAI));
        },
        ISA::JALR => {
            law_encode_i_fields(d.opcode as u32, operands.rd, f3, operands.rs1, operands.imm);
            assert(spec_decode(spec_encode_definition(d, operands)) == Some(ISA::JALR));
        },
        ISA::CSRRW => {
            law_encode_i_fields(d.opcode as u32, operands.rd, f3, operands.rs1, operands.imm);
            assert(spec_decode(spec_encode_definition(d, operands)) == Some(ISA::CSRRW));
        },
        ISA::CSRRS => {
            law_encode_i_fields(d.opcode as u32, operands.rd, f3, operands.rs1, operands.imm);
            assert(spec_decode(spec_encode_definition(d, operands)) == Some(ISA::CSRRS));
        },
        ISA::CSRRC => {
            law_encode_i_fields(d.opcode as u32, operands.rd, f3, operands.rs1, operands.imm);
            assert(spec_decode(spec_encode_definition(d, operands)) == Some(ISA::CSRRC));
        },
        ISA::CSRRWI => {
            law_encode_i_fields(d.opcode as u32, operands.rd, f3, operands.rs1, operands.imm);
            assert(spec_decode(spec_encode_definition(d, operands)) == Some(ISA::CSRRWI));
        },
        ISA::CSRRSI => {
            law_encode_i_fields(d.opcode as u32, operands.rd, f3, operands.rs1, operands.imm);
            assert(spec_decode(spec_encode_definition(d, operands)) == Some(ISA::CSRRSI));
        },
        ISA::CSRRCI => {
            law_encode_i_fields(d.opcode as u32, operands.rd, f3, operands.rs1, operands.imm);
            assert(spec_decode(spec_encode_definition(d, operands)) == Some(ISA::CSRRCI));
        },
        ISA::LW => {
            law_encode_i_fields(d.opcode as u32, operands.rd, f3, operands.rs1, operands.imm);
            assert(spec_decode(spec_encode_definition(d, operands)) == Some(ISA::LW));
        },
        ISA::LH => {
            law_encode_i_fields(d.opcode as u32, operands.rd, f3, operands.rs1, operands.imm);
            assert(spec_decode(spec_encode_definition(d, operands)) == Some(ISA::LH));
        },
        ISA::LHU => {
            law_encode_i_fields(d.opcode as u32, operands.rd, f3, operands.rs1, operands.imm);
            assert(spec_decode(spec_encode_definition(d, operands)) == Some(ISA::LHU));
        },
        ISA::LB => {
            law_encode_i_fields(d.opcode as u32, operands.rd, f3, operands.rs1, operands.imm);
            assert(spec_decode(spec_encode_definition(d, operands)) == Some(ISA::LB));
        },
        ISA::LBU => {
            law_encode_i_fields(d.opcode as u32, operands.rd, f3, operands.rs1, operands.imm);
            assert(spec_decode(spec_encode_definition(d, operands)) == Some(ISA::LBU));
        },
        ISA::FENCE => {
            law_encode_i_fields(d.opcode as u32, operands.rd, f3, operands.rs1, operands.imm);
            assert(spec_decode(spec_encode_definition(d, operands)) == Some(ISA::FENCE));
        },
        ISA::FENCE_TSO => {
            law_encode_i_fields(d.opcode as u32, operands.rd, f3, operands.rs1, operands.imm);
            assert(spec_decode(spec_encode_definition(d, operands)) == Some(ISA::FENCE_TSO));
        },
        ISA::PAUSE => {
            law_encode_i_fields(d.opcode as u32, operands.rd, f3, operands.rs1, operands.imm);
            assert(spec_decode(spec_encode_definition(d, operands)) == Some(ISA::PAUSE));
        },
        ISA::ECALL => {
            law_encode_i_fields(d.opcode as u32, operands.rd, f3, operands.rs1, operands.imm);
            let w = spec_encode_definition(d, operands);
            assert(spec_bits(w, 25, 7) == 0) by (bit_vector)
                requires w == 0b0000_0000_0000_00000_000_00000_1110011u32;
            assert(spec_decode(spec_encode_definition(d, operands)) == Some(ISA::ECALL));
        },
        ISA::EBREAK => {
            law_encode_i_fields(d.opcode as u32, operands.rd, f3, operands.rs1, operands.imm);
            let w = spec_encode_definition(d, operands);
            assert(spec_bits(w, 25, 7) == 0) by (bit_vector)
                requires w == 0b0000_0000_0001_00000_000_00000_1110011u32;
            assert(spec_decode(spec_encode_definition(d, operands)) == Some(ISA::EBREAK));
        },
        ISA::SW => {
            law_encode_s_fields(d.opcode as u32, f3, operands.rs1, operands.rs2, operands.imm);
            assert(spec_decode(spec_encode_definition(d, operands)) == Some(ISA::SW));
        },
        ISA::SH => {
            law_encode_s_fields(d.opcode as u32, f3, operands.rs1, operands.rs2, operands.imm);
            assert(spec_decode(spec_encode_definition(d, operands)) == Some(ISA::SH));
        },
        ISA::SB => {
            law_encode_s_fields(d.opcode as u32, f3, operands.rs1, operands.rs2, operands.imm);
            assert(spec_decode(spec_encode_definition(d, operands)) == Some(ISA::SB));
        },
        ISA::BEQ => {
            law_encode_b_fields(d.opcode as u32, f3, operands.rs1, operands.rs2, operands.imm);
            assert(spec_decode(spec_encode_definition(d, operands)) == Some(ISA::BEQ));
        },
        ISA::BNE => {
            law_encode_b_fields(d.opcode as u32, f3, operands.rs1, operands.rs2, operands.imm);
            assert(spec_decode(spec_encode_definition(d, operands)) == Some(ISA::BNE));
        },
        ISA::BLT => {
            law_encode_b_fields(d.opcode as u32, f3, operands.rs1, operands.rs2, operands.imm);
            assert(spec_decode(spec_encode_definition(d, operands)) == Some(ISA::BLT));
        },
        ISA::BLTU => {
            law_encode_b_fields(d.opcode as u32, f3, operands.rs1, operands.rs2, operands.imm);
            assert(spec_decode(spec_encode_definition(d, operands)) == Some(ISA::BLTU));
        },
        ISA::BGE => {
            law_encode_b_fields(d.opcode as u32, f3, operands.rs1, operands.rs2, operands.imm);
            assert(spec_decode(spec_encode_definition(d, operands)) == Some(ISA::BGE));
        },
        ISA::BGEU => {
            law_encode_b_fields(d.opcode as u32, f3, operands.rs1, operands.rs2, operands.imm);
            assert(spec_decode(spec_encode_definition(d, operands)) == Some(ISA::BGEU));
        },
        ISA::LUI => {
            law_encode_u_fields(d.opcode as u32, operands.rd, operands.imm);
            assert(spec_decode(spec_encode_definition(d, operands)) == Some(ISA::LUI));
        },
        ISA::AUIPC => {
            law_encode_u_fields(d.opcode as u32, operands.rd, operands.imm);
            assert(spec_decode(spec_encode_definition(d, operands)) == Some(ISA::AUIPC));
        },
        ISA::JAL => {
            law_encode_j_fields(d.opcode as u32, operands.rd, operands.imm);
            assert(spec_decode(spec_encode_definition(d, operands)) == Some(ISA::JAL));
        },
    }
}

} // verus!
