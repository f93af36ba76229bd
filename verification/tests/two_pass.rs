use emugator::assembler::get_emulator_maps;

const SIMPLE_LOOP: &str = "# count down from five
main:
    addi x1, x0, 5      # counter
loop:
    addi x1, x1, -1
    bne x1, x0, loop
    jal x0, end
end:
    add x2, x1, x0
";

#[test]
fn assembler_roundtrip() {
    let simple_loop_program = SIMPLE_LOOP;

    match get_emulator_maps(simple_loop_program) {
        Ok((inst_mem, source_map, data_mem)) => {
            // inst_mem: BTreeMap<u32, u8> - instruction memory
            // source_map: BTreeMap<u32, usize> - source line mapping
            // data_mem: BTreeMap<u32, u8> - data memory

            println!("Instruction Memory (Address -> Byte):");
            for (&addr, &byte) in &inst_mem {
                println!("0x{:08X}: 0x{:02X}", addr, byte);
            }

            println!("\nSource Map (Address -> Line Number):");
            for (&addr, &line) in &source_map {
                println!("0x{:08X}: Line {}", addr, line);
            }

            println!("\nData Memory (Address -> Byte):");
            for (&addr, &byte) in &data_mem {
                println!("0x{:08X}: 0x{:02X}", addr, byte);
            }

            println!("\nReconstructed 32-bit Instructions:");
            for &addr in source_map.keys() {
                let instruction = u32::from_le_bytes([
                    inst_mem[&addr],
                    inst_mem[&(addr + 1)],
                    inst_mem[&(addr + 2)],
                    inst_mem[&(addr + 3)],
                ]);
                println!("0x{:08X}: 0x{:08X}", addr, instruction);
            }
        }
        Err(e) => {
            println!("Assembly error: {}", e);
        }
    }
}

fn word(mem: &std::collections::BTreeMap<u32, u8>, addr: u32) -> u32 {
    u32::from_le_bytes([mem[&addr], mem[&(addr + 1)], mem[&(addr + 2)], mem[&(addr + 3)]])
}

#[test]
fn two_pass_encodes_each_format() {
    let (mem, source, data) = get_emulator_maps(SIMPLE_LOOP).unwrap();
    assert!(data.is_empty());
    // addi x1, x0, 5
    assert_eq!(word(&mem, 0), 0x0050_0093);
    // addi x1, x1, -1
    assert_eq!(word(&mem, 4), 0xFFF0_8093);
    // bne x1, x0, loop (loop is at 4, the branch at 8: offset -4)
    assert_eq!(word(&mem, 8), 0xFE00_9EE3);
    // jal x0, end (end at 16, jump at 12: offset 4)
    assert_eq!(word(&mem, 12), 0x0040_006F);
    // add x2, x1, x0
    assert_eq!(word(&mem, 16), 0x0000_8133);
    assert_eq!(mem.len(), 20);
    let lines: Vec<(u32, usize)> = source.iter().map(|(a, l)| (*a, *l)).collect();
    assert_eq!(lines, vec![(0, 3), (4, 5), (8, 6), (12, 7), (16, 9)]);
}

#[test]
fn two_pass_store_load_and_upper() {
    let (mem, _, _) = get_emulator_maps("lw x1, 8(x2)\nsw x3, -4(x4)\nlui x5, 0x12345\n").unwrap();
    assert_eq!(word(&mem, 0), 0x0081_2083);
    assert_eq!(word(&mem, 4), 0xFE32_2E23);
    assert_eq!(word(&mem, 8), 0x1234_52B7);
}

#[test]
fn two_pass_mnemonics_and_registers_ignore_case() {
    let (mem, _, _) = get_emulator_maps("AdD X3, x1, X2").unwrap();
    assert_eq!(word(&mem, 0), 0x0020_81B3);
}

#[test]
fn two_pass_errors_name_the_line() {
    assert_eq!(get_emulator_maps("nop\n").unwrap_err(), "Error on line 1: Unknown instruction: NOP");
    assert_eq!(
        get_emulator_maps("add x1, x2\n").unwrap_err(),
        "Error on line 1: R-type instructions need 3 registers"
    );
    assert_eq!(
        get_emulator_maps("\n\naddi x1, x2, 0x\n").unwrap_err(),
        "Error on line 3: Invalid immediate value: 0x"
    );
    assert_eq!(get_emulator_maps("add y1, x2, x3").unwrap_err(), "Error on line 1: Invalid register: y1");
    assert_eq!(
        get_emulator_maps("add x32, x2, x3").unwrap_err(),
        "Error on line 1: Invalid register number: x32"
    );
    assert_eq!(get_emulator_maps("beq x1, x2, nowhere").unwrap_err(), "Error on line 1: Undefined label: nowhere");
    assert_eq!(
        get_emulator_maps("lw x1, x2").unwrap_err(),
        "Error on line 1: Memory address must be in format: offset(register)"
    );
    assert_eq!(
        get_emulator_maps("jal x1, 3").unwrap_err(),
        "Error on line 1: Jump target must be aligned to 2 bytes"
    );
    assert_eq!(
        get_emulator_maps("lui x1").unwrap_err(),
        "Error on line 1: U-type instructions need a register and an immediate"
    );
}

#[test]
fn two_pass_labels_and_comments_take_no_space() {
    let (mem, source, _) = get_emulator_maps("# only a comment\nstart:\n  \nadd x1, x1, x1 # doubled\n").unwrap();
    assert_eq!(mem.len(), 4);
    assert_eq!(source.get(&0), Some(&4));
}

#[test]
fn two_pass_operand_count_errors() {
    let cases = [
        ("addi x1, x2", "I-type instructions need 2 registers and an immediate"),
        ("lw x1", "Load instructions need a register and a memory address"),
        ("sw x1, 0(x2), x3", "Store instructions need a register and a memory address"),
        ("beq x1, x2", "B-type instructions need 2 registers and a label"),
        ("jal x1", "J-type instructions need a register and a label/offset"),
        ("lw x1, 4(y2)", "Invalid register: y2"),
    ];
    for (line, message) in cases {
        assert_eq!(get_emulator_maps(line).unwrap_err(), format!("Error on line 1: {}", message));
    }
}

#[test]
fn two_pass_jump_to_an_immediate() {
    let (mem, _, _) = get_emulator_maps("jal x1, -8\n").unwrap();
    assert_eq!(word(&mem, 0), 0xFF9F_F0EF);
}
