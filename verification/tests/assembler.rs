use emugator::assembler::{assemble, assemble_checked, Address, AssembledProgram};

const TEST_PROGRAM: &str = r#"
.data
message: .string "yay\n"
numbers: .word 1, 2, 3, 4
bytes: .byte 0xFF, 0x42, 0x33
array: .ascii "test"

.text
main:lw x1, message
    # Load first number into x2
    lw x2, numbers
    # Load first byte into x3
    lb x3, bytes
    # Load array into x4
    lw x4, array

    # Do some operations
    addi x5, x0, 5
    add x6, x2, x5
    sw x6, 0(x6)
"#;

fn word(program: &AssembledProgram, addr: u32) -> u32 {
    let m = &program.instruction_memory;
    u32::from_le_bytes([m[&addr], m[&(addr + 1)], m[&(addr + 2)], m[&(addr + 3)]])
}

fn label(program: &AssembledProgram, name: &str) -> Option<Address> {
    program.labels.get(&name.chars().collect())
}

#[test]
fn assemble_sections_labels_and_data() {
    let program = assemble(TEST_PROGRAM).unwrap();
    assert_eq!(word(&program, 0), 0x0000_2083); // lw x1, 0(x0)
    assert_eq!(word(&program, 4), 0x0050_2103); // lw x2, 5(x0)
    assert_eq!(word(&program, 8), 0x0150_0183); // lb x3, 21(x0)
    assert_eq!(word(&program, 12), 0x0180_2203); // lw x4, 24(x0)
    assert_eq!(word(&program, 16), 0x0050_0293);
    assert_eq!(word(&program, 20), 0x0051_0333);
    assert_eq!(word(&program, 24), 0x0063_2023);
    assert_eq!(program.instruction_memory.len(), 28);

    let data: Vec<u8> = program.data_memory.values().copied().collect();
    let mut expected = vec![b'y', b'a', b'y', b'\n', 0];
    for n in 1..=4u8 {
        expected.extend_from_slice(&[n, 0, 0, 0]);
    }
    expected.extend_from_slice(&[0xFF, 0x42, 0x33]);
    expected.extend_from_slice(b"test");
    assert_eq!(data, expected);
    assert_eq!(*program.data_memory.keys().last().unwrap(), 27);

    assert_eq!(label(&program, "message"), Some(Address::Data(0)));
    assert_eq!(label(&program, "numbers"), Some(Address::Data(5)));
    assert_eq!(label(&program, "bytes"), Some(Address::Data(21)));
    assert_eq!(label(&program, "array"), Some(Address::Data(24)));
    assert_eq!(label(&program, "main"), Some(Address::Text(0)));
    assert_eq!(label(&program, "missing"), None);

    assert_eq!(program.source_map.get_by_left(&9), Some(&(0, 0)));
    assert_eq!(program.source_map.get_by_left(&11), Some(&(0, 4)));
    assert_eq!(program.source_map.get_by_left(&20), Some(&(0, 24)));
    assert_eq!(program.source_map.get_by_left(&3), Some(&(1, 0)));
    assert_eq!(program.source_map.get_by_left(&6), Some(&(1, 24)));
    assert_eq!(program.source_map.get_by_right(&(0, 16)), Some(&18));
    assert_eq!(program.source_map.len(), 11);
}

#[test]
fn assemble_branches_and_jumps_use_text_labels() {
    let program = assemble("start:\naddi x1, x1, 1\nbne x1, x0, start\njal x1, start\n").unwrap();
    assert_eq!(word(&program, 4), 0xFE00_9EE3);
    // jal x1, -8
    assert_eq!(word(&program, 8), 0xFF9F_F0EF);
}

#[test]
fn assemble_system_and_shift_instructions() {
    let program = assemble("ECALL\nEBREAK\nfence\nslli x1, x2, 3\nsrai x1, x2, 3\nlui x1, 0x12345\njal x1, -2048\n").unwrap();
    assert_eq!(word(&program, 0), 0x0000_0073);
    assert_eq!(word(&program, 4), 0x0010_0073);
    assert_eq!(word(&program, 8), 0x0000_000F);
    assert_eq!(word(&program, 12), 0x0031_1093);
    assert_eq!(word(&program, 16), 0x4031_5093);
    assert_eq!(word(&program, 20), 0x1234_50B7);
    assert_eq!(word(&program, 24), 0x801F_F0EF);
}

#[test]
fn assemble_negative_immediates() {
    let program = assemble("addi x1, x0, -1\naddi x1, x0, -0x10\nsw x1, -4(x2)\n").unwrap();
    assert_eq!(word(&program, 0), 0xFFF0_0093);
    assert_eq!(word(&program, 4), 0xFF00_0093);
    assert_eq!(word(&program, 8), 0xFE11_2E23);
}

fn error(program: &str) -> (usize, String) {
    let e = assemble(program).unwrap_err();
    (e.line_num, e.message)
}

#[test]
fn assemble_reports_each_error() {
    assert_eq!(error("\n\nfoo x1"), (3, "Unknown instruction: FOO".to_string()));
    assert_eq!(error("add x1, x2"), (1, "R-type instructions need 3 registers".to_string()));
    assert_eq!(error("addi x1, x2"), (1, "I-type instructions need 2 registers and an immediate".to_string()));
    assert_eq!(error("addi x1, x2, 3000"), (1, "Immediate value out of range (-2048 to 2047)".to_string()));
    assert_eq!(error("addi x1, x2, 1z"), (1, "Invalid immediate value: 1z".to_string()));
    assert_eq!(error("addi x1, q2, 1"), (1, "Invalid register: q2".to_string()));
    assert_eq!(error("addi x1, x40, 1"), (1, "Invalid register number: x40".to_string()));
    assert_eq!(error("ecall x1"), (1, "ECALL/EBREAK instructions take no operands".to_string()));
    assert_eq!(error("fence x1"), (1, "FENCE instruction takes no operands".to_string()));
    assert_eq!(error("lw x1"), (1, "Load instructions need a register and a memory address".to_string()));
    assert_eq!(error("sw x1"), (1, "Store instructions need a register and a memory address".to_string()));
    assert_eq!(error("lw x1, 4"), (1, "Memory address must be in format: offset(register)".to_string()));
    assert_eq!(error("lw x1, 4096(x2)"), (1, "Memory offset out of range (-2048 to 2047)".to_string()));
    assert_eq!(error("beq x1, x2"), (1, "B-type instructions need 2 registers and a label".to_string()));
    assert_eq!(error("beq x1, x2, away"), (1, "Undefined label: away".to_string()));
    assert_eq!(error("lui x1"), (1, "U-type instructions need a register and an immediate".to_string()));
    assert_eq!(error("jal x1"), (1, "J-type instructions need a register and a label/offset".to_string()));
    assert_eq!(error("jal x1, 5"), (1, "Jump target must be 2-byte aligned".to_string()));
    assert_eq!(error("jal x1, away"), (1, "Undefined label: away".to_string()));
    assert_eq!(error(".data\nx: .half 3"), (2, "Unknown data directive: .half".to_string()));
    assert_eq!(error(".data\n.byte"), (2, "Invalid data directive".to_string()));
    assert_eq!(error(".data\n.byte 1, 300"), (2, "Invalid numeric value: 300".to_string()));
    assert_eq!(error(".data\n.word 0x1G"), (2, "Invalid numeric value: 0x1G".to_string()));
}

#[test]
fn assemble_branch_range_and_alignment() {
    // The branch is at 4; a label at 5 is at an odd distance.
    let mut far = String::from("top:\n");
    for _ in 0..1100 {
        far.push_str("addi x0, x0, 0\n");
    }
    far.push_str("beq x0, x0, top\n");
    assert_eq!(error(&far), (1102, "Branch offset out of range (-4096 to +4095)".to_string()));
}

#[test]
fn assemble_checked_stops_where_the_assembler_cannot_encode() {
    // A system instruction alone on its line but not spelled in capitals.
    assert!(assemble_checked("ecall").is_none());
    // A branch back by more than 2048 bytes.
    let mut back = String::from("top:\n");
    for _ in 0..600 {
        back.push_str("addi x0, x0, 0\n");
    }
    back.push_str("beq x0, x0, top\n");
    assert!(assemble_checked(&back).is_none());
    // A jump immediate beyond the J range.
    assert!(assemble_checked("jal x1, 0x200000").is_none());
    // Negating the least i32.
    assert!(assemble_checked("addi x1, x0, --2147483648").is_none());
    // A program on which the assembler does not stop gives its result.
    assert!(matches!(assemble_checked("addi x1, x0, 1"), Some(Ok(_))));
    assert!(matches!(assemble_checked("nop"), Some(Err(_))));
}

#[test]
fn write_refuses_an_address_in_use() {
    let mut program = AssembledProgram::new();
    assert!(program.write(1, Address::Text(0x10), &[1, 2]).is_ok());
    let e = program.write(2, Address::Text(0x11), &[3]).unwrap_err();
    assert_eq!(e.line_num, 2);
    assert_eq!(e.message, "Memory address Text(0x000011) is already in use");
    assert_eq!(program.instruction_memory.get(&0x11), Some(&2));
    assert_eq!(program.source_map.get_by_left(&2), Some(&(0, 0x11)));
    assert!(program.write(3, Address::Data(0x10), &[9]).is_ok());
    assert_eq!(program.data_memory.get(&0x10), Some(&9));
}

#[test]
fn address_upper_hex() {
    assert_eq!(Address::Text(0x10).to_upper_hex(), "Text(0x000010)");
    assert_eq!(Address::Data(0x12345678).to_upper_hex(), "Data(0x12345678)");
    assert_eq!(Address::Data(0).to_upper_hex(), "Data(0x000000)");
}

#[test]
fn source_map_keeps_one_address_per_line() {
    let mut program = AssembledProgram::new();
    program.write(7, Address::Text(0), &[]).unwrap();
    program.write(7, Address::Text(4), &[]).unwrap();
    assert_eq!(program.source_map.len(), 1);
    assert_eq!(program.source_map.get_by_left(&7), Some(&(0, 4)));
}

#[test]
fn expressions_resolve_to_no_values() {
    let mut expression = emugator::assembler::assembled_program::Expression::from("label + 4");
    let labels = std::collections::HashMap::new();
    assert_eq!(expression.resolve(&labels), Ok(&Vec::<i64>::new()));
}

#[test]
fn data_directives_and_escapes() {
    let program = assemble(".data\nt: .ascii \"a\\tb\\r\"\nu: .string \"\"\nv: .ascii \"x, y\"\nw: .byte 7\n").unwrap();
    let data: Vec<u8> = program.data_memory.values().copied().collect();
    assert_eq!(data, vec![b'a', b'\t', b'b', b'\r', 0, b'x', b',', b'y', 7]);
    assert_eq!(label(&program, "w"), Some(Address::Data(8)));
    // Non-ASCII text is stored as UTF-8.
    let program = assemble(".data\n.ascii \"\u{e9}\"\n").unwrap();
    let data: Vec<u8> = program.data_memory.values().copied().collect();
    assert_eq!(data, vec![0xC3, 0xA9]);
}

#[test]
fn assembled_words_decode_to_their_mnemonics() {
    let source = "add x1, x2, x3\nsrai x4, x5, 7\nsrli x4, x5, 7\nlbu x1, 3(x2)\nsh x1, -2(x2)\nbgeu x1, x2, next\nnext:\nauipc x3, 1\njal x0, -4\nEBREAK\nfence\n";
    let program = assemble(source).unwrap();
    let expected = [
        emugator::isa::ISA::ADD,
        emugator::isa::ISA::SRAI,
        emugator::isa::ISA::SRLI,
        emugator::isa::ISA::LBU,
        emugator::isa::ISA::SH,
        emugator::isa::ISA::BGEU,
        emugator::isa::ISA::AUIPC,
        emugator::isa::ISA::JAL,
        emugator::isa::ISA::EBREAK,
        emugator::isa::ISA::FENCE,
    ];
    for (i, isa) in expected.iter().enumerate() {
        let w = word(&program, 4 * i as u32);
        assert_eq!(emugator::isa::ISA::instr_to_isa(emugator::isa::Instruction::from_raw(w)), Some(*isa));
    }
}
