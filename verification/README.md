# emugator

A RISC-V (RV32I) teaching tool: an assembler and a cycle-level emulator of
the two-stage OpenHW CVE2 core, written in Verus with every function of the
library proved against its contract.

## Layout

- `src/bits.rs`: bit-field extraction and masks on 32-bit words.
- `src/isa/`: the instruction table (`ISA`, `InstructionDefinition`) and
  the encoding of instructions (`Instruction`), with the laws that the
  fields of a built word read back and that decoding a built word gives the
  instruction back.
- `src/emulator/`: the register file, memory access, the instruction
  handlers and the clock cycle (fetch, execute, memory access, write-back,
  advance), stated over `MachineState`.
- `src/assembler/`: two assemblers. `two_pass` is the label-and-instruction
  assembler behind `get_emulator_maps`; the module root holds `assemble`,
  which reads `.text` and `.data` sections, data directives and data labels,
  and records for each line the address it was assembled at.
- `src/labels.rs`, `src/text.rs`: the label table and the character-level
  text functions the assemblers are built on.
- `app/main.rs`: a command-line front end that assembles a file, runs it for
  a number of cycles and prints the registers and data memory.

`assemble` and `clock` require inputs on which the assembler or the core
does not stop; `assemble_checked` and `clock_checked` take any input and
report those with `None`.
