//! The assemblers: source text to instruction and data memory.
//!
//! `assemble` reads a program in two passes. A line is cleaned of its
//! comment; `.data` and `.text` switch the section (text first); a line may
//! start with `label:`. The first pass gives every label the current
//! address of its section, each instruction four bytes of text and each
//! data directive its bytes of data. The second pass encodes the
//! instructions and stores them, and the data, at those addresses, recording
//! for each line the address it was assembled at.
use vstd::prelude::*;

pub mod assembled_program;
pub mod data;
pub mod parse;
pub mod two_pass;

pub use assembled_program::{Address, AssembledProgram, AssemblyErr, ProgramModel};
pub use two_pass::{get_emulator_maps, Format, InstructionInfo};

use crate::labels::LabelMap;
use crate::text::{chars_equal_str, chars_to_string, lines, spec_lines, spec_views, str_to_chars};
use assembled_program::{law_source_map_one_to_one, spec_in_use_message, spec_one_to_one, spec_store_bytes, spec_write};
use data::{parse_data_line, spec_parse_data_line};
use parse::{
    clean_line, parse_instruction, spec_clean_line, spec_parse_instruction, spec_split_label, split_label_and_content,
    LineError,
};

verus! {

/// Where a pass stands: the section it is in and the next free address of
/// each section.
#[derive(Debug, Clone, Copy, PartialEq, Eq, Structural)]
pub struct Cursor {
    pub in_data: bool,
    pub text_address: u32,
    pub data_address: u32,
}

/// What the first pass has found: the cursor and the labels, those of each
/// section by offset and all of them by address.
pub struct LayoutModel {
    pub cursor: Cursor,
    pub text_labels: Map<Seq<char>, u32>,
    pub data_labels: Map<Seq<char>, u32>,
    pub labels: Map<Seq<char>, Address>,
}

/// What a pass gives for a line or a program: `None` where the assembler
/// stops (an instruction it cannot encode, an address past the end of
/// memory), an error with its line number, or the state reached.
pub type Outcome<T> = Option<Result<T, (usize, Seq<char>)>>;

/// A cleaned line that switches the section: `Some(true)` for `.data`,
/// `Some(false)` for `.text`.
pub open spec fn spec_section_switch(c: Seq<char>) -> Option<bool> {
    if c == ".data"@ {
        Some(true)
    } else if c == ".text"@ {
        Some(false)
    } else {
        None
    }
}

/// The first pass on line number `n`: labels take the current address of
/// the section; an instruction advances the text address by four, a data
/// directive the data address by the number of its bytes.
pub open spec fn spec_layout_line(s: LayoutModel, line: Seq<char>, n: nat) -> Outcome<LayoutModel> {
    let c = spec_clean_line(line);
    if c.len() == 0 {
        Some(Ok(s))
    } else {
        match spec_section_switch(c) {
            Some(d) => Some(Ok(LayoutModel { cursor: Cursor { in_data: d, ..s.cursor }, ..s })),
            None => {
                let (label, content) = spec_split_label(c);
                let cur = s.cursor;
                let s1 = match label {
                    Some(l) => if cur.in_data {
                        LayoutModel {
                            data_labels: s.data_labels.insert(l, cur.data_address),
                            labels: s.labels.insert(l, Address::Data(cur.data_address)),
                            ..s
                        }
                    } else {
                        LayoutModel {
                            text_labels: s.text_labels.insert(l, cur.text_address),
                            labels: s.labels.insert(l, Address::Text(cur.text_address)),
                            ..s
                        }
                    },
                    None => s,
                };
                if content.len() == 0 {
                    Some(Ok(s1))
                } else if !cur.in_data {
                    if cur.text_address + 4 > u32::MAX {
                        None
                    } else {
                        Some(Ok(LayoutModel { cursor: Cursor { text_address: (cur.text_address + 4) as u32, ..cur }, ..s1 }))
                    }
                } else {
                    match spec_parse_data_line(content) {
                        Err(e) => Some(Err((n as usize, e))),
                        Ok(None) => Some(Ok(s1)),
                        Ok(Some(bytes)) => if cur.data_address + bytes.len() > u32::MAX {
                            None
                        } else {
                            Some(Ok(LayoutModel {
                                cursor: Cursor { data_address: (cur.data_address + bytes.len()) as u32, ..cur },
                                ..s1
                            }))
                        },
                    }
                }
            },
        }
    }
}

/// The start of the first pass: the text section, both addresses zero,
/// no labels.
pub open spec fn spec_layout_start() -> LayoutModel {
    LayoutModel {
        cursor: Cursor { in_data: false, text_address: 0, data_address: 0 },
        text_labels: Map::empty(),
        data_labels: Map::empty(),
        labels: Map::empty(),
    }
}

/// The first pass over the first `k` lines.
pub open spec fn spec_layout(lines: Seq<Seq<char>>, k: nat) -> Outcome<LayoutModel>
    decreases k,
{
    if k == 0 {
        Some(Ok(spec_layout_start()))
    } else {
        match spec_layout(lines, (k - 1) as nat) {
            Some(Ok(s)) => spec_layout_line(s, lines[k - 1], k),
            other => other,
        }
    }
}

proof fn lemma_layout_stops(lines: Seq<Seq<char>>, k: nat, m: nat)
    requires
        k <= m,
        !(spec_layout(lines, k) matches Some(Ok(_))),
    ensures
        spec_layout(lines, m) == spec_layout(lines, k),
    decreases m - k,
{
    if k < m {
        lemma_layout_stops(lines, k, (m - 1) as nat);
    }
}

/// What the second pass has made: the cursor and the program so far.
pub struct EmitModel {
    pub cursor: Cursor,
    pub program: ProgramModel,
}

/// The four bytes of an instruction word, least significant first.
pub open spec fn spec_le_bytes(w: u32) -> Seq<u8> {
    seq![(w & 0xFF) as u8, ((w >> 8u32) & 0xFF) as u8, ((w >> 16u32) & 0xFF) as u8, ((w >> 24u32) & 0xFF) as u8]
}

/// Stores `bytes` for line number `n` at `address` and moves that
/// section's address past them; a store reaching past the end of memory
/// stops the assembler, and one onto an address in use is an error.
pub open spec fn spec_emit(s: EmitModel, n: nat, address: Address, bytes: Seq<u8>) -> Outcome<EmitModel> {
    if address.offset() + bytes.len() > u32::MAX {
        None
    } else {
        let (p, ok) = spec_write(s.program, n as usize, address, bytes);
        let next = (address.offset() + bytes.len()) as u32;
        if !ok {
            Some(Err((n as usize, spec_in_use_message(address))))
        } else {
            match address {
                Address::Text(_) => Some(Ok(EmitModel { cursor: Cursor { text_address: next, ..s.cursor }, program: p })),
                Address::Data(_) => Some(Ok(EmitModel { cursor: Cursor { data_address: next, ..s.cursor }, program: p })),
            }
        }
    }
}

/// The second pass on line number `n`: an instruction is encoded, with the
/// labels of the first pass, and stored at the text address; a data
/// directive's bytes at the data address.
pub open spec fn spec_emit_line(layout: LayoutModel, s: EmitModel, line: Seq<char>, n: nat) -> Outcome<EmitModel> {
    let c = spec_clean_line(line);
    if c.len() == 0 {
        Some(Ok(s))
    } else {
        match spec_section_switch(c) {
            Some(d) => Some(Ok(EmitModel { cursor: Cursor { in_data: d, ..s.cursor }, ..s })),
            None => {
                let content = spec_split_label(c).1;
                let cur = s.cursor;
                if content.len() == 0 {
                    Some(Ok(s))
                } else if !cur.in_data {
                    match spec_parse_instruction(content, layout.text_labels, layout.data_labels, cur.text_address) {
                        Err(None) => None,
                        Err(Some(m)) => Some(Err((n as usize, m))),
                        Ok(w) => spec_emit(s, n, Address::Text(cur.text_address), spec_le_bytes(w)),
                    }
                } else {
                    match spec_parse_data_line(content) {
                        Err(e) => Some(Err((n as usize, e))),
                        Ok(None) => Some(Ok(s)),
                        Ok(Some(bytes)) => spec_emit(s, n, Address::Data(cur.data_address), bytes),
                    }
                }
            },
        }
    }
}

/// The second pass over the first `k` lines, starting from an empty
/// program with the labels of the first pass.
pub open spec fn spec_emit_all(layout: LayoutModel, lines: Seq<Seq<char>>, k: nat) -> Outcome<EmitModel>
    decreases k,
{
    if k == 0 {
        Some(Ok(EmitModel {
            cursor: spec_layout_start().cursor,
            program: (Map::empty(), Map::empty(), Set::empty(), layout.labels),
        }))
    } else {
        match spec_emit_all(layout, lines, (k - 1) as nat) {
            Some(Ok(s)) => spec_emit_line(layout, s, lines[k - 1], k),
            other => other,
        }
    }
}

proof fn lemma_emit_stops(layout: LayoutModel, lines: Seq<Seq<char>>, k: nat, m: nat)
    requires
        k <= m,
        !(spec_emit_all(layout, lines, k) matches Some(Ok(_))),
    ensures
        spec_emit_all(layout, lines, m) == spec_emit_all(layout, lines, k),
    decreases m - k,
{
    if k < m {
        lemma_emit_stops(layout, lines, k, (m - 1) as nat);
    }
}

/// What assembling `program` gives: the program, an error with its line
/// number, or `None` where the assembler stops.
pub open spec fn spec_assemble(program: Seq<char>) -> Outcome<ProgramModel> {
    let lines = spec_lines(program);
    match spec_layout(lines, lines.len()) {
        None => None,
        Some(Err(e)) => Some(Err(e)),
        Some(Ok(layout)) => match spec_emit_all(layout, lines, lines.len()) {
            None => None,
            Some(Err(e)) => Some(Err(e)),
            Some(Ok(s)) => Some(Ok(s.program)),
        },
    }
}

/// Whether an exec step outcome is the spec outcome, the state reached
/// being `state` when it succeeds.
pub open spec fn spec_step_matches<T>(r: Option<Result<(), AssemblyErr>>, s: Outcome<T>, state: T) -> bool {
    match r {
        None => s is None,
        Some(Ok(())) => s == Some(Ok::<T, (usize, Seq<char>)>(state)),
        Some(Err(e)) => s == Some(Err::<T, (usize, Seq<char>)>((e.line_num, e.message@))),
    }
}

/// The labels of the first pass, by section.
struct Layout {
    cursor: Cursor,
    text_labels: LabelMap<u32>,
    data_labels: LabelMap<u32>,
}

impl Layout {
    spec fn model(&self, labels: LabelMap<Address>) -> LayoutModel {
        LayoutModel { cursor: self.cursor, text_labels: self.text_labels@, data_labels: self.data_labels@, labels: labels@ }
    }

    spec fn wf(&self) -> bool {
        self.text_labels.wf() && self.data_labels.wf()
    }
}

/// An assembly error on line `n`.
fn line_error(n: usize, message: &Vec<char>) -> (r: AssemblyErr)
    ensures
        r.line_num == n,
        r.message@ == message@,
{
    AssemblyErr { line_num: n, message: chars_to_string(message) }
}

/// The first pass on line number `n`.
fn layout_line(layout: &mut Layout, labels: &mut LabelMap<Address>, line: &Vec<char>, n: usize) -> (r: Option<Result<(), AssemblyErr>>)
    requires
        old(layout).wf(),
        old(labels).wf(),
    ensures
        final(layout).wf(),
        final(labels).wf(),
        spec_step_matches(r, spec_layout_line(old(layout).model(*old(labels)), line@, n as nat), final(layout).model(*final(labels))),
{
    let c = clean_line(line);
    if c.len() == 0 {
        return Some(Ok(()));
    }
    if chars_equal_str(&c, ".data") {
        layout.cursor.in_data = true;
        return Some(Ok(()));
    }
    if chars_equal_str(&c, ".text") {
        layout.cursor.in_data = false;
        return Some(Ok(()));
    }
    let (label, content) = split_label_and_content(&c);
    let cur = layout.cursor;
    match label {
        Some(l) => {
            let name = crate::text::copy_chars(&l);
            if cur.in_data {
                layout.data_labels.insert(l, cur.data_address);
                labels.insert(name, Address::Data(cur.data_address));
            } else {
                layout.text_labels.insert(l, cur.text_address);
                labels.insert(name, Address::Text(cur.text_address));
            }
        },
        None => {},
    }
    if content.len() == 0 {
        return Some(Ok(()));
    }
    if !cur.in_data {
        if cur.text_address > u32::MAX - 4 {
            return None;
        }
        layout.cursor.text_address = cur.text_address + 4;
        return Some(Ok(()));
    }
    match parse_data_line(&content) {
        Err(e) => Some(Err(line_error(n, &e))),
        Ok(None) => Some(Ok(())),
        Ok(Some((_, item))) => {
            if item.size as u64 > (u32::MAX - cur.data_address) as u64 {
                return None;
            }
            layout.cursor.data_address = cur.data_address + item.size as u32;
            Some(Ok(()))
        },
    }
}

/// The four bytes of an instruction word, least significant first.
fn le_bytes(w: u32) -> (r: Vec<u8>)
    ensures
        r@ == spec_le_bytes(w),
{
    let mut r: Vec<u8> = Vec::new();
    r.push((w & 0xFF) as u8);
    r.push(((w >> 8u32) & 0xFF) as u8);
    r.push(((w >> 16u32) & 0xFF) as u8);
    r.push(((w >> 24u32) & 0xFF) as u8);
    assert(r@ =~= spec_le_bytes(w));
    r
}

/// Stores `bytes` for line `n` at `address` and moves the cursor past them.
fn emit(cursor: &mut Cursor, program: &mut AssembledProgram, n: usize, address: Address, bytes: &Vec<u8>) -> (r: Option<Result<(), AssemblyErr>>)
    requires
        address == (if old(cursor).in_data { Address::Data(old(cursor).data_address) } else { Address::Text(old(cursor).text_address) }),
    ensures
        final(program).labels == old(program).labels,
        spec_step_matches(
            r,
            spec_emit(EmitModel { cursor: *old(cursor), program: old(program)@ }, n as nat, address, bytes@),
            EmitModel { cursor: *final(cursor), program: final(program)@ },
        ),
{
    let offset = match address {
        Address::Text(a) => a,
        Address::Data(a) => a,
    };
    if bytes.len() as u64 > (u32::MAX - offset) as u64 {
        return None;
    }
    match program.write(n, address, bytes.as_slice()) {
        Err(e) => Some(Err(e)),
        Ok(()) => {
            let next = offset + bytes.len() as u32;
            match address {
                Address::Text(_) => cursor.text_address = next,
                Address::Data(_) => cursor.data_address = next,
            }
            Some(Ok(()))
        },
    }
}

/// The second pass on line number `n`.
fn emit_line(cursor: &mut Cursor, program: &mut AssembledProgram, layout: &Layout, line: &Vec<char>, n: usize) -> (r: Option<Result<(), AssemblyErr>>)
    requires
        layout.wf(),
    ensures
        final(program).labels == old(program).labels,
        spec_step_matches(
            r,
            spec_emit_line(layout.model(old(program).labels), EmitModel { cursor: *old(cursor), program: old(program)@ }, line@, n as nat),
            EmitModel { cursor: *final(cursor), program: final(program)@ },
        ),
{
    let c = clean_line(line);
    if c.len() == 0 {
        return Some(Ok(()));
    }
    if chars_equal_str(&c, ".data") {
        cursor.in_data = true;
        return Some(Ok(()));
    }
    if chars_equal_str(&c, ".text") {
        cursor.in_data = false;
        return Some(Ok(()));
    }
    let (_, content) = split_label_and_content(&c);
    if content.len() == 0 {
        return Some(Ok(()));
    }
    if !cursor.in_data {
        match parse_instruction(&content, &layout.text_labels, &layout.data_labels, cursor.text_address) {
            Err(LineError::Abort) => None,
            Err(LineError::Message(m)) => Some(Err(line_error(n, &m))),
            Ok(instruction) => {
                let bytes = le_bytes(instruction.raw());
                emit(cursor, program, n, Address::Text(cursor.text_address), &bytes)
            },
        }
    } else {
        match parse_data_line(&content) {
            Err(e) => Some(Err(line_error(n, &e))),
            Ok(None) => Some(Ok(())),
            Ok(Some((_, item))) => emit(cursor, program, n, Address::Data(cursor.data_address), &item.values),
        }
    }
}

/// Assembles `program`, or gives `None` where the assembler stops: an
/// instruction it cannot encode (a system instruction alone on its line
/// but for `ECALL` and `EBREAK` in capitals, a branch back by more than
/// 2048 bytes, a jump immediate out of the J range), an immediate
/// `-(-2147483648)`, or an address past the end of memory.
pub fn assemble_checked(program: &str) -> (r: Option<Result<AssembledProgram, AssemblyErr>>)
    ensures
        match r {
            None => spec_assemble(program@) is None,
            Some(Ok(p)) => spec_assemble(program@) == Some(Ok::<ProgramModel, (usize, Seq<char>)>(p@)) && p.labels.wf(),
            Some(Err(e)) => spec_assemble(program@) == Some(Err::<ProgramModel, (usize, Seq<char>)>((e.line_num, e.message@))),
        },
{
    let text = str_to_chars(program);
    let ls = lines(&text);
    let ghost lv = spec_views(ls@);
    assert(lv == spec_lines(program@));
    let n = ls.len();
    let mut result = AssembledProgram::new();
    let mut layout = Layout {
        cursor: Cursor { in_data: false, text_address: 0, data_address: 0 },
        text_labels: LabelMap::new(),
        data_labels: LabelMap::new(),
    };
    let mut i: usize = 0;
    while i < n
        invariant
            n == ls@.len(),
            lv == spec_views(ls@),
            lv == spec_lines(program@),
            i <= n,
            layout.wf(),
            result.labels.wf(),
            result@ == (Map::<u32, u8>::empty(), Map::<u32, u8>::empty(), Set::<(usize, (u8, u32))>::empty(), result.labels@),
            spec_layout(lv, i as nat) == Some(Ok::<LayoutModel, (usize, Seq<char>)>(layout.model(result.labels))),
        decreases n - i,
    {
        assert(lv[i as int] == ls@[i as int]@);
        match layout_line(&mut layout, &mut result.labels, &ls[i], i + 1) {
            None => {
                proof { lemma_layout_stops(lv, (i + 1) as nat, n as nat); }
                return None;
            },
            Some(Err(e)) => {
                proof { lemma_layout_stops(lv, (i + 1) as nat, n as nat); }
                return Some(Err(e));
            },
            Some(Ok(())) => {},
        }
        i = i + 1;
    }
    let ghost model = layout.model(result.labels);
    let mut cursor = Cursor { in_data: false, text_address: 0, data_address: 0 };
    i = 0;
    while i < n
        invariant
            n == ls@.len(),
            lv == spec_views(ls@),
            lv == spec_lines(program@),
            i <= n,
            layout.wf(),
            result.labels.wf(),
            model == layout.model(result.labels),
            spec_layout(lv, n as nat) == Some(Ok::<LayoutModel, (usize, Seq<char>)>(model)),
            spec_emit_all(model, lv, i as nat) == Some(Ok::<EmitModel, (usize, Seq<char>)>(EmitModel { cursor, program: result@ })),
        decreases n - i,
    {
        assert(lv[i as int] == ls@[i as int]@);
        match emit_line(&mut cursor, &mut result, &layout, &ls[i], i + 1) {
            None => {
                proof { lemma_emit_stops(model, lv, (i + 1) as nat, n as nat); }
                return None;
            },
            Some(Err(e)) => {
                proof { lemma_emit_stops(model, lv, (i + 1) as nat, n as nat); }
                return Some(Err(e));
            },
            Some(Ok(())) => {},
        }
        i = i + 1;
    }
    Some(Ok(result))
}

/// Assembles `program`: its instruction memory, data memory, source map
/// and labels, or the first error with its line number. The program must
/// be one on which the assembler does not stop (see `assemble_checked`).
pub fn assemble(program: &str) -> (r: Result<AssembledProgram, AssemblyErr>)
    requires
        spec_assemble(program@) is Some,
    ensures
        match r {
            Ok(p) => spec_assemble(program@) == Some(Ok::<ProgramModel, (usize, Seq<char>)>(p@)) && p.labels.wf(),
            Err(e) => spec_assemble(program@) == Some(Err::<ProgramModel, (usize, Seq<char>)>((e.line_num, e.message@))),
        },
{
    match assemble_checked(program) {
        Some(r) => r,
        None => {
            proof { assert(false); }
            Err(AssemblyErr { line_num: 0, message: String::new() })
        },
    }
}

/// Whether `m` holds a byte exactly at the addresses below `end`.
pub open spec fn spec_filled_below(m: Map<u32, u8>, end: int) -> bool {
    forall|a: u32| #[trigger] m.contains_key(a) <==> a < end
}

proof fn lemma_store_bytes_fills(m: Map<u32, u8>, base: u32, data: Seq<u8>, i: nat)
    requires
        spec_filled_below(m, base as int),
        base + data.len() <= 0x1_0000_0000,
        i <= data.len(),
    ensures
        spec_store_bytes(m, base, data, i).1,
        spec_filled_below(spec_store_bytes(m, base, data, i).0, base + i),
    decreases i,
{
    if i > 0 {
        lemma_store_bytes_fills(m, base, data, (i - 1) as nat);
    }
}

proof fn lemma_emit_layout(layout: LayoutModel, lines: Seq<Seq<char>>, k: nat)
    ensures
        spec_emit_all(layout, lines, k) matches Some(Ok(s)) ==> {
            &&& spec_filled_below(s.program.0, s.cursor.text_address as int)
            &&& s.cursor.text_address % 4 == 0
            &&& spec_filled_below(s.program.1, s.cursor.data_address as int)
            &&& spec_one_to_one(s.program.2)
        },
    decreases k,
{
    if k > 0 {
        lemma_emit_layout(layout, lines, (k - 1) as nat);
        if let Some(Ok(s)) = spec_emit_all(layout, lines, (k - 1) as nat) {
            let cur = s.cursor;
            let c = spec_clean_line(lines[k - 1]);
            let content = spec_split_label(c).1;
            if c.len() > 0 && spec_section_switch(c) is None && content.len() > 0 {
                if !cur.in_data {
                    if let Ok(w) = spec_parse_instruction(content, layout.text_labels, layout.data_labels, cur.text_address) {
                        let bytes = spec_le_bytes(w);
                        if cur.text_address + bytes.len() <= u32::MAX {
                            lemma_store_bytes_fills(s.program.0, cur.text_address, bytes, bytes.len());
                            law_source_map_one_to_one(s.program.2, k as usize, Address::Text(cur.text_address).code());
                        }
                    }
                } else {
                    if let Ok(Some(bytes)) = spec_parse_data_line(content) {
                        if cur.data_address + bytes.len() <= u32::MAX {
                            lemma_store_bytes_fills(s.program.1, cur.data_address, bytes, bytes.len());
                            law_source_map_one_to_one(s.program.2, k as usize, Address::Data(cur.data_address).code());
                        }
                    }
                }
            }
        }
    }
}

/// An assembled program fills instruction memory from address 0 up without
/// a gap, whole words at a time, and data memory from address 0 up without
/// a gap, so that no store meets an address in use; and its source map
/// pairs each line with at most one address and each address with at most
/// one line.
#[verifier::spinoff_prover]
#[verifier::rlimit(60)]
pub proof fn law_assemble_layout(program: Seq<char>)
    requires
        spec_assemble(program) matches Some(Ok(_)),
    ensures
        spec_assemble(program) matches Some(Ok(m)) && {
            &&& forall|a: u32, b: u32| #[trigger] m.0.contains_key(a) && b <= a ==> #[trigger] m.0.contains_key(b)
            &&& forall|a: u32| #[trigger] m.0.contains_key(a) ==> m.0.contains_key((a - a % 4 + 3) as u32)
            &&& forall|a: u32, b: u32| #[trigger] m.1.contains_key(a) && b <= a ==> #[trigger] m.1.contains_key(b)
            &&& spec_one_to_one(m.2)
        },
{
    let lines = spec_lines(program);
    let layout = spec_layout(lines, lines.len())->Some_0->Ok_0;
    lemma_emit_layout(layout, lines, lines.len());
}

/// The four bytes the assembler stores for an instruction word, least
/// significant first, are read back by the emulator's fetch as that word.
pub proof fn law_le_bytes_read_back(w: u32)
    ensures
        crate::emulator::spec_le_word(spec_le_bytes(w)) == w,
{
    let m = crate::assembler::two_pass::spec_write_word(Map::empty(), 0, w);
    crate::assembler::two_pass::law_write_word_reads_back(Map::empty(), 0, w);
    let b = spec_le_bytes(w);
    assert(b[0] == m[0] && b[1] == m[1] && b[2] == m[2] && b[3] == m[3]);
}

} // verus!
