//! The result of assembling a program: its instruction and data memory, the
//! map between source lines and addresses, and its labels.
use bimap::BiBTreeMap;
use std::collections::BTreeMap;
use vstd::prelude::*;

use crate::labels::LabelMap;
use crate::text::{chars_to_string, literal_chars, push_chars, push_str, radix_chars, spec_radix_chars};

verus! {

/// An address in one of the two memories.
#[derive(Debug, Clone, Copy, PartialEq, Eq, PartialOrd, Ord, Structural)]
pub enum Address {
    Text(u32),
    Data(u32),
}

/// `s` padded on the left with zeros to at least `width` characters.
pub open spec fn spec_zero_pad(s: Seq<char>, width: nat) -> Seq<char> {
    if s.len() < width {
        Seq::new((width - s.len()) as nat, |i: int| '0') + s
    } else {
        s
    }
}

/// `n` as `{:#08X}` writes it: `0x` and upper-case hexadecimal digits,
/// zero-padded to eight characters in all.
pub open spec fn spec_hex_literal(n: u32) -> Seq<char> {
    "0x"@ + spec_zero_pad(spec_radix_chars(n as nat, 16), 6)
}

impl Address {
    /// The memory (0 for text, 1 for data) and the offset in it.
    pub open spec fn code(self) -> (u8, u32) {
        match self {
            Address::Text(a) => (0, a),
            Address::Data(a) => (1, a),
        }
    }

    /// The offset of the address in its memory.
    pub open spec fn offset(self) -> u32 {
        match self {
            Address::Text(a) => a,
            Address::Data(a) => a,
        }
    }

    /// The address as upper-case hexadecimal: `Text(0x…)` or `Data(0x…)`.
    pub open spec fn spec_upper_hex(self) -> Seq<char> {
        match self {
            Address::Text(a) => "Text("@ + spec_hex_literal(a) + ")"@,
            Address::Data(a) => "Data("@ + spec_hex_literal(a) + ")"@,
        }
    }

    /// The memory (0 for text, 1 for data) and the offset in it.
    pub fn code_pair(&self) -> (r: (u8, u32))
        ensures
            r == self.code(),
    {
        match self {
            Address::Text(a) => (0, *a),
            Address::Data(a) => (1, *a),
        }
    }

    /// The address as upper-case hexadecimal, its offset zero-padded to six
    /// digits: `Text(0x000010)`.
    pub fn to_upper_hex(&self) -> (r: String)
        ensures
            r@ == self.spec_upper_hex(),
    {
        let chars = self.upper_hex_chars();
        chars_to_string(&chars)
    }

    fn upper_hex_chars(&self) -> (r: Vec<char>)
        ensures
            r@ == self.spec_upper_hex(),
    {
        let (mut r, a) = match self {
            Address::Text(a) => (literal_chars("Text("), *a),
            Address::Data(a) => (literal_chars("Data("), *a),
        };
        push_str(&mut r, "0x");
        let digits = radix_chars(a as u64, 16);
        let ghost prefix = r@;
        let mut pad: usize = digits.len();
        while pad < 6
            invariant
                digits.len() <= pad,
                pad <= 6 || pad == digits.len(),
                r@ == prefix + Seq::new((pad - digits.len()) as nat, |i: int| '0'),
            decreases 6 - pad,
        {
            r.push('0');
            pad = pad + 1;
            assert(r@ =~= prefix + Seq::new((pad - digits.len()) as nat, |i: int| '0'));
        }
        push_chars(&mut r, &digits);
        push_str(&mut r, ")");
        proof {
            let pads = Seq::new((if digits.len() < 6 { 6 - digits.len() } else { 0 }) as nat, |i: int| '0');
            assert(spec_zero_pad(digits@, 6) =~= pads + digits@);
        }
        assert(r@ =~= self.spec_upper_hex());
        r
    }
}

/// An assembly error: the (1-based) line it was found on and what is wrong.
#[derive(Debug, Clone)]
pub struct AssemblyErr {
    pub line_num: usize,
    pub message: String,
}

/// The pairs of a source map: a line number and the code of an address.
pub uninterp spec fn source_pairs(m: BiBTreeMap<usize, (u8, u32)>) -> Set<(usize, (u8, u32))>;

/// `pairs` after inserting the pair `(left, right)` into a bimap: the pairs
/// with the same left value or the same right value are replaced.
pub open spec fn spec_bimap_insert(
    pairs: Set<(usize, (u8, u32))>,
    left: usize,
    right: (u8, u32),
) -> Set<(usize, (u8, u32))> {
    pairs.filter(|p: (usize, (u8, u32))| p.0 != left && p.1 != right).insert((left, right))
}

/// Whether no two pairs share their line or their address.
pub open spec fn spec_one_to_one(pairs: Set<(usize, (u8, u32))>) -> bool {
    forall|p: (usize, (u8, u32)), q: (usize, (u8, u32))|
        #![trigger pairs.contains(p), pairs.contains(q)]
        pairs.contains(p) && pairs.contains(q) && (p.0 == q.0 || p.1 == q.1) ==> p == q
}

/// A source map stays one-to-one: inserting a pair replaces the pairs that
/// share its line or its address, and the new pair is there afterwards.
pub proof fn law_source_map_one_to_one(pairs: Set<(usize, (u8, u32))>, left: usize, right: (u8, u32))
    requires
        spec_one_to_one(pairs),
    ensures
        spec_one_to_one(spec_bimap_insert(pairs, left, right)),
        spec_bimap_insert(pairs, left, right).contains((left, right)),
{
}

#[verifier::external_type_specification]
#[verifier::external_body]
#[verifier::reject_recursive_types(L)]
#[verifier::reject_recursive_types(R)]
pub struct ExBiBTreeMap<L, R>(BiBTreeMap<L, R>);

/// Calls `BiBTreeMap::new`, which makes a bimap that holds no pair.
#[verifier::external_body]
fn new_source_map() -> (r: BiBTreeMap<usize, (u8, u32)>)
    ensures
        source_pairs(r) == Set::<(usize, (u8, u32))>::empty(),
{
    BiBTreeMap::new()
}

/// Calls `BiBTreeMap::insert`, which removes the pair whose left value is
/// `left` and the pair whose right value is `right`, if there are such,
/// and then adds the pair `(left, right)`. What it returns about the
/// replaced pairs is not used.
#[verifier::external_body]
fn insert_source_pair(m: &mut BiBTreeMap<usize, (u8, u32)>, left: usize, right: (u8, u32))
    ensures
        source_pairs(*final(m)) == spec_bimap_insert(source_pairs(*old(m)), left, right),
{
    m.insert(left, right);
}

/// An assembled program.
#[derive(Debug)]
pub struct AssembledProgram {
    /// Instruction memory: address to byte.
    pub instruction_memory: BTreeMap<u32, u8>,
    /// Data memory: address to byte.
    pub data_memory: BTreeMap<u32, u8>,
    /// Line numbers (left) and the codes of the addresses written for them
    /// (right), each side at most once.
    pub source_map: BiBTreeMap<usize, (u8, u32)>,
    /// Labels and the addresses they name.
    pub labels: LabelMap<Address>,
}

/// The instruction memory, data memory, source pairs and labels of a
/// program.
pub type ProgramModel = (Map<u32, u8>, Map<u32, u8>, Set<(usize, (u8, u32))>, Map<Seq<char>, Address>);

impl View for AssembledProgram {
    type V = ProgramModel;

    open spec fn view(&self) -> ProgramModel {
        (self.instruction_memory@, self.data_memory@, source_pairs(self.source_map), self.labels@)
    }
}

/// The memory after storing the first `i` bytes of `data` from `base` on,
/// stopping at the first address already in use, and whether all of them
/// were stored.
pub open spec fn spec_store_bytes(m: Map<u32, u8>, base: u32, data: Seq<u8>, i: nat) -> (Map<u32, u8>, bool)
    decreases i,
{
    if i == 0 {
        (m, true)
    } else {
        let (m1, ok) = spec_store_bytes(m, base, data, (i - 1) as nat);
        let a = (base + i - 1) as u32;
        if !ok || m1.contains_key(a) {
            (m1, false)
        } else {
            (m1.insert(a, data[i - 1]), true)
        }
    }
}

/// The message for writing to an address already in use.
pub open spec fn spec_in_use_message(address: Address) -> Seq<char> {
    "Memory address "@ + address.spec_upper_hex() + " is already in use"@
}

/// The program after `write(line_num, address, data)`, and whether it
/// succeeded: the source pair is recorded, then the bytes are stored one by
/// one into the memory of the address, stopping at the first one in use.
pub open spec fn spec_write(p: ProgramModel, line_num: usize, address: Address, data: Seq<u8>) -> (ProgramModel, bool) {
    let source = spec_bimap_insert(p.2, line_num, address.code());
    match address {
        Address::Text(a) => {
            let (m, ok) = spec_store_bytes(p.0, a, data, data.len());
            ((m, p.1, source, p.3), ok)
        },
        Address::Data(a) => {
            let (m, ok) = spec_store_bytes(p.1, a, data, data.len());
            ((p.0, m, source, p.3), ok)
        },
    }
}

/// Stores bytes into `memory` from `base` on, as `spec_store_bytes`.
fn store_bytes(memory: &mut BTreeMap<u32, u8>, base: u32, data: &[u8]) -> (r: bool)
    requires
        base + data@.len() <= 0x1_0000_0000,
    ensures
        (final(memory)@, r) == spec_store_bytes(old(memory)@, base, data@, data@.len()),
{
    let mut i: usize = 0;
    while i < data.len()
        invariant
            i <= data@.len(),
            base + data@.len() <= 0x1_0000_0000,
            (memory@, true) == spec_store_bytes(old(memory)@, base, data@, i as nat),
        decreases data.len() - i,
    {
        let addr = base + i as u32;
        if memory.contains_key(&addr) {
            proof { lemma_store_bytes_stops(old(memory)@, base, data@, (i + 1) as nat, data@.len()); }
            return false;
        }
        memory.insert(addr, data[i]);
        i = i + 1;
    }
    true
}

proof fn lemma_store_bytes_stops(m: Map<u32, u8>, base: u32, data: Seq<u8>, k: nat, n: nat)
    requires
        k <= n,
        !spec_store_bytes(m, base, data, k).1,
    ensures
        spec_store_bytes(m, base, data, n) == spec_store_bytes(m, base, data, k),
    decreases n - k,
{
    if k < n {
        lemma_store_bytes_stops(m, base, data, k, (n - 1) as nat);
    }
}

impl AssembledProgram {
    /// An empty program.
    pub fn new() -> (r: Self)
        ensures
            r@ == (Map::<u32, u8>::empty(), Map::<u32, u8>::empty(), Set::<(usize, (u8, u32))>::empty(), Map::<Seq<char>, Address>::empty()),
            r.labels.wf(),
    {
        AssembledProgram {
            instruction_memory: BTreeMap::new(),
            data_memory: BTreeMap::new(),
            source_map: new_source_map(),
            labels: LabelMap::new(),
        }
    }

    /// Records that `line_num` was assembled at `address` and stores `data`
    /// there; fails, with the bytes before it stored, at the first address
    /// already in use.
    pub fn write(&mut self, line_num: usize, address: Address, data: &[u8]) -> (r: Result<(), AssemblyErr>)
        requires
            address.offset() + data@.len() <= 0x1_0000_0000,
        ensures
            final(self)@ == spec_write(old(self)@, line_num, address, data@).0,
            final(self).labels == old(self).labels,
            match r {
                Ok(()) => spec_write(old(self)@, line_num, address, data@).1,
                Err(e) => !spec_write(old(self)@, line_num, address, data@).1 && e.line_num == line_num
                    && e.message@ == spec_in_use_message(address),
            },
    {
        insert_source_pair(&mut self.source_map, line_num, address.code_pair());
        let ok = match address {
            Address::Text(a) => store_bytes(&mut self.instruction_memory, a, data),
            Address::Data(a) => store_bytes(&mut self.data_memory, a, data),
        };
        if ok {
            Ok(())
        } else {
            let mut message = literal_chars("Memory address ");
            let hex = address.upper_hex_chars();
            push_chars(&mut message, &hex);
            push_str(&mut message, " is already in use");
            Err(AssemblyErr { line_num, message: chars_to_string(&message) })
        }
    }
}

/// An expression of the source text and, once resolved, its values.
pub struct Expression<'a> {
    expression: &'a str,
    value: Option<Vec<i64>>,
}

impl<'a> Expression<'a> {
    /// The text of the expression.
    pub closed spec fn text(&self) -> Seq<char> {
        self.expression@
    }

    /// The values of the expression, once resolved.
    pub closed spec fn values(&self) -> Option<Seq<i64>> {
        match self.value {
            Some(v) => Some(v@),
            None => None,
        }
    }

    /// Resolves the expression against the labels of a program. Expressions
    /// have no values yet: every expression resolves to the empty list,
    /// which is kept and returned.
    pub fn resolve(&mut self, labels: &std::collections::HashMap<&str, Expression>) -> (r: Result<&Vec<i64>, &str>)
        ensures
            final(self).text() == old(self).text(),
            final(self).values() == Some(Seq::<i64>::empty()),
            r matches Ok(v) && v@ == Seq::<i64>::empty(),
    {
        self.value = Some(Vec::new());
        match &self.value {
            Some(v) => Ok(v),
            None => Err("Could not resolve literal"),
        }
    }
}

impl<'a> From<&'a str> for Expression<'a> {
    /// An unresolved expression of the text `s`.
    fn from(s: &'a str) -> (r: Expression<'a>) {
        Expression { expression: s, value: None }
    }
}

impl<'a> vstd::std_specs::convert::FromSpecImpl<&'a str> for Expression<'a> {
    open spec fn obeys_from_spec() -> bool {
        true
    }

    closed spec fn from_spec(s: &'a str) -> Expression<'a> {
        Expression { expression: s, value: None }
    }
}

} // verus!
