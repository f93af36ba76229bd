//! Data directives: `.byte`, `.word`, `.ascii` and `.string` lines and the
//! bytes they place in data memory.
use vstd::prelude::*;

use crate::text::{
    join, literal_chars, parse_u8, push_chars, replace_pair, slice_chars, spec_join, spec_parse_u8,
    spec_replace, spec_split, spec_tokens, spec_trim, spec_trim_char, spec_views, split, starts_with_str, tokens, trim,
    trim_char, utf8_bytes, Separator,
};

verus! {

/// The bytes a data directive places in memory.
#[derive(Debug)]
pub struct DataItem {
    /// The number of bytes.
    pub size: usize,
    /// The bytes.
    pub values: Vec<u8>,
}

/// The byte `value` denotes: decimal, or hexadecimal after `0x`, white
/// space around allowed.
pub open spec fn spec_parse_number(value: Seq<char>) -> Result<u8, Seq<char>> {
    let v = spec_trim(value);
    let parsed = if v.len() >= 2 && v.subrange(0, 2) == "0x"@ {
        spec_parse_u8(v.subrange(2, v.len() as int), 16)
    } else {
        spec_parse_u8(v, 10)
    };
    match parsed {
        Some(b) => Ok(b),
        None => Err("Invalid numeric value: "@ + v),
    }
}

/// Parses a byte value: decimal, or hexadecimal after `0x`.
pub fn parse_number(value: &Vec<char>) -> (r: Result<u8, Vec<char>>)
    ensures
        match r {
            Ok(b) => spec_parse_number(value@) == Ok::<u8, Seq<char>>(b),
            Err(e) => spec_parse_number(value@) == Err::<u8, Seq<char>>(e@),
        },
{
    let v = trim(value);
    proof { reveal_strlit("0x"); }
    let parsed = if starts_with_str(&v, "0x") {
        let digits = slice_chars(&v, 2, v.len());
        parse_u8(&digits, 16)
    } else {
        parse_u8(&v, 10)
    };
    match parsed {
        Some(b) => Ok(b),
        None => {
            let mut m = literal_chars("Invalid numeric value: ");
            push_chars(&mut m, &v);
            Err(m)
        },
    }
}

/// The bytes of the `.byte` values, or the first value that is not one.
pub open spec fn spec_byte_values(values: Seq<Seq<char>>) -> Result<Seq<u8>, Seq<char>>
    decreases values.len(),
{
    if values.len() == 0 {
        Ok(seq![])
    } else {
        match spec_byte_values(values.drop_last()) {
            Err(e) => Err(e),
            Ok(bytes) => match spec_parse_number(values.last()) {
                Err(e) => Err(e),
                Ok(b) => Ok(bytes.push(b)),
            },
        }
    }
}

/// The bytes of the `.word` values: each value is a byte, stored as a
/// little-endian word (the byte and three zeros); or the first value that is
/// not a byte.
pub open spec fn spec_word_values(values: Seq<Seq<char>>) -> Result<Seq<u8>, Seq<char>>
    decreases values.len(),
{
    if values.len() == 0 {
        Ok(seq![])
    } else {
        match spec_word_values(values.drop_last()) {
            Err(e) => Err(e),
            Ok(bytes) => match spec_parse_number(values.last()) {
                Err(e) => Err(e),
                Ok(b) => Ok(bytes + seq![b, 0u8, 0u8, 0u8]),
            },
        }
    }
}

/// The text of an `.ascii` or `.string` directive: its values joined with
/// commas, quotes removed from both ends, and `\n`, `\t`, `\r` escapes
/// replaced, in that order.
pub open spec fn spec_directive_text(values: Seq<Seq<char>>) -> Seq<char> {
    let t = spec_trim_char(spec_join(values, ","@), '"');
    spec_replace(spec_replace(spec_replace(t, seq!['\\', 'n'], seq!['\n']), seq!['\\', 't'], seq!['\t']), seq!['\\', 'r'], seq!['\r'])
}

/// What a data line denotes: nothing for a line ending with a colon;
/// otherwise a directive and its comma-separated values, giving the bytes
/// they place in memory; or the reason the line is not a data directive.
pub open spec fn spec_parse_data_line(line: Seq<char>) -> Result<Option<Seq<u8>>, Seq<char>> {
    if line.len() > 0 && line.last() == ':' {
        Ok(None)
    } else {
        let parts = spec_tokens(line, Separator::Whitespace);
        if parts.len() < 2 {
            Err("Invalid data directive"@)
        } else {
            let directive = parts[0];
            let values = spec_split(spec_join(parts.skip(1), " "@), Separator::Comma).map_values(
                |v: Seq<char>| spec_trim(v),
            );
            if directive == ".byte"@ {
                match spec_byte_values(values) {
                    Ok(bytes) => Ok(Some(bytes)),
                    Err(e) => Err(e),
                }
            } else if directive == ".word"@ {
                match spec_word_values(values) {
                    Ok(bytes) => Ok(Some(bytes)),
                    Err(e) => Err(e),
                }
            } else if directive == ".ascii"@ {
                Ok(Some(vstd::utf8::encode_utf8(spec_directive_text(values))))
            } else if directive == ".string"@ {
                Ok(Some(vstd::utf8::encode_utf8(spec_directive_text(values)).push(0u8)))
            } else {
                Err("Unknown data directive: "@ + directive)
            }
        }
    }
}

fn byte_values(values: &Vec<Vec<char>>, word: bool) -> (r: Result<Vec<u8>, Vec<char>>)
    ensures
        match r {
            Ok(bytes) => (if word { spec_word_values(spec_views(values@)) } else {
                spec_byte_values(spec_views(values@))
            }) == Ok::<Seq<u8>, Seq<char>>(bytes@),
            Err(e) => (if word { spec_word_values(spec_views(values@)) } else {
                spec_byte_values(spec_views(values@))
            }) == Err::<Seq<u8>, Seq<char>>(e@),
        },
{
    let ghost all = spec_views(values@);
    let mut bytes: Vec<u8> = Vec::new();
    let mut i: usize = 0;
    while i < values.len()
        invariant
            i <= values@.len(),
            all == spec_views(values@),
            (if word { spec_word_values(all.subrange(0, i as int)) } else {
                spec_byte_values(all.subrange(0, i as int))
            }) == Ok::<Seq<u8>, Seq<char>>(bytes@),
        decreases values.len() - i,
    {
        let ghost prefix = all.subrange(0, i + 1);
        assert(prefix.drop_last() =~= all.subrange(0, i as int));
        assert(prefix.last() == values@[i as int]@);
        let ghost before = bytes@;
        match parse_number(&values[i]) {
            Ok(b) => {
                if word {
                    bytes.push(b);
                    bytes.push(0);
                    bytes.push(0);
                    bytes.push(0);
                    assert(bytes@ =~= before + seq![b, 0u8, 0u8, 0u8]);
                } else {
                    bytes.push(b);
                }
            },
            Err(e) => {
                proof { lemma_values_error_stays(all, (i + 1) as nat, all.len(), word); }
                assert(all.subrange(0, all.len() as int) =~= all);
                return Err(e);
            },
        }
        i = i + 1;
    }
    assert(all.subrange(0, i as int) =~= all);
    Ok(bytes)
}

proof fn lemma_values_error_stays(values: Seq<Seq<char>>, k: nat, n: nat, word: bool)
    requires
        k <= n <= values.len(),
        (if word { spec_word_values(values.subrange(0, k as int)) } else {
            spec_byte_values(values.subrange(0, k as int))
        }) is Err,
    ensures
        (if word { spec_word_values(values.subrange(0, n as int)) } else {
            spec_byte_values(values.subrange(0, n as int))
        }) == (if word { spec_word_values(values.subrange(0, k as int)) } else {
            spec_byte_values(values.subrange(0, k as int))
        }),
    decreases n - k,
{
    if k < n {
        lemma_values_error_stays(values, k, (n - 1) as nat, word);
        assert(values.subrange(0, n as int).drop_last() =~= values.subrange(0, n - 1));
    }
}

/// The text of an `.ascii` or `.string` directive.
fn directive_text(values: &Vec<Vec<char>>) -> (r: Vec<char>)
    ensures
        r@ == spec_directive_text(spec_views(values@)),
{
    let joined = join(values, 0, ",");
    assert(spec_views(values@).skip(0) =~= spec_views(values@));
    let t = trim_char(&joined, '"');
    let t = replace_pair(&t, '\\', 'n', '\n');
    let t = replace_pair(&t, '\\', 't', '\t');
    replace_pair(&t, '\\', 'r', '\r')
}

/// Parses a line of the data section. A line ending with a colon holds no
/// data (`None`); otherwise the first word is the directive and the rest,
/// split at commas, its values. The first component of the result is the
/// label, which this function leaves empty.
pub fn parse_data_line(line: &Vec<char>) -> (r: Result<Option<(Vec<char>, DataItem)>, Vec<char>>)
    ensures
        match r {
            Ok(Some((label, item))) => label@.len() == 0 && item.size == item.values@.len()
                && spec_parse_data_line(line@) == Ok::<Option<Seq<u8>>, Seq<char>>(Some(item.values@)),
            Ok(None) => spec_parse_data_line(line@) == Ok::<Option<Seq<u8>>, Seq<char>>(None),
            Err(e) => spec_parse_data_line(line@) == Err::<Option<Seq<u8>>, Seq<char>>(e@),
        },
{
    if line.len() > 0 && line[line.len() - 1] == ':' {
        return Ok(None);
    }
    let parts = tokens(line, Separator::Whitespace);
    let ghost pv = spec_views(parts@);
    assert(pv.len() == parts@.len());
    if parts.len() < 2 {
        return Err(literal_chars("Invalid data directive"));
    }
    assert(pv[0] == parts@[0]@);
    let joined = join(&parts, 1, " ");
    let pieces = split(&joined, Separator::Comma);
    let mut values: Vec<Vec<char>> = Vec::new();
    let mut i: usize = 0;
    while i < pieces.len()
        invariant
            i <= pieces@.len(),
            values@.len() == i,
            forall|k: int| 0 <= k < i ==> #[trigger] values@[k]@ == spec_trim(pieces@[k]@),
        decreases pieces.len() - i,
    {
        let v = trim(&pieces[i]);
        values.push(v);
        i = i + 1;
    }
    assert(spec_views(values@) =~= spec_views(pieces@).map_values(|v: Seq<char>| spec_trim(v)));
    let directive = &parts[0];
    let bytes = if crate::text::chars_equal_str(directive, ".byte") {
        byte_values(&values, false)?
    } else if crate::text::chars_equal_str(directive, ".word") {
        byte_values(&values, true)?
    } else if crate::text::chars_equal_str(directive, ".ascii") {
        let text = directive_text(&values);
        utf8_bytes(&text)
    } else if crate::text::chars_equal_str(directive, ".string") {
        let text = directive_text(&values);
        let mut b = utf8_bytes(&text);
        b.push(0);
        b
    } else {
        let mut m = literal_chars("Unknown data directive: ");
        push_chars(&mut m, directive);
        return Err(m);
    };
    let size = bytes.len();
    Ok(Some((Vec::new(), DataItem { size, values: bytes })))
}

/// A byte value written in decimal, or in hexadecimal after `0x`, denotes
/// that number: `255` and `0xFF` both denote 255, for every byte.
pub proof fn law_parse_number_digits(n: nat)
    requires
        n <= u8::MAX,
    ensures
        spec_parse_number(crate::text::spec_radix_chars(n, 10)) == Ok::<u8, Seq<char>>(n as u8),
        spec_parse_number("0x"@ + crate::text::spec_radix_chars(n, 16)) == Ok::<u8, Seq<char>>(n as u8),
{
    reveal_strlit("0x");
    let d = crate::text::spec_radix_chars(n, 10);
    let h = crate::text::spec_radix_chars(n, 16);
    crate::text::law_digits_read_back(n, 10);
    crate::text::law_digits_read_back(n, 16);
    crate::text::law_parse_u8_digits(n, 10);
    crate::text::law_parse_u8_digits(n, 16);
    assert(('0' <= d[0] <= '9') || ('A' <= d[0] <= 'F'));
    assert(d.last() == d[d.len() - 1]);
    assert(('0' <= d.last() <= '9') || ('A' <= d.last() <= 'F'));
    crate::text::lemma_trim_unchanged(d);
    if d.len() >= 2 {
        assert(d.subrange(0, 2)[1] == d[1]);
        assert(('0' <= d[1] <= '9') || ('A' <= d[1] <= 'F'));
        assert(d.subrange(0, 2)[1] != "0x"@[1]);
    }
    let x = "0x"@ + h;
    assert(x[0] == '0');
    assert(x.last() == h.last());
    assert(h.last() == h[h.len() - 1]);
    assert(('0' <= h.last() <= '9') || ('A' <= h.last() <= 'F'));
    crate::text::lemma_trim_unchanged(x);
    assert(x.subrange(0, 2) =~= "0x"@);
    assert(x.subrange(2, x.len() as int) =~= h);
}

/// `.byte` places one byte per value, in the order the values are written,
/// and succeeds exactly when every value is a byte.
pub proof fn law_byte_values(values: Seq<Seq<char>>)
    ensures
        (spec_byte_values(values) is Ok) <==> (forall|i: int|
            0 <= i < values.len() ==> #[trigger] spec_parse_number(values[i]) is Ok),
        spec_byte_values(values) is Ok ==> {
            let bytes = spec_byte_values(values)->Ok_0;
            &&& bytes.len() == values.len()
            &&& forall|i: int| 0 <= i < values.len() ==> #[trigger] spec_parse_number(values[i]) == Ok::<u8, Seq<char>>(bytes[i])
        },
    decreases values.len(),
{
    if values.len() > 0 {
        let init = values.drop_last();
        law_byte_values(init);
        assert(values.last() == values[values.len() - 1]);
        if !(spec_byte_values(init) is Ok) {
            let k = choose|i: int| 0 <= i < init.len() && !(#[trigger] spec_parse_number(init[i]) is Ok);
            assert(values[k] == init[k]);
        }
        if spec_byte_values(values) is Ok {
            let bytes = spec_byte_values(values)->Ok_0;
            let prev = spec_byte_values(init)->Ok_0;
            assert forall|i: int| 0 <= i < values.len() implies #[trigger] spec_parse_number(values[i]) == Ok::<u8, Seq<char>>(bytes[i]) by {
                if i < init.len() {
                    assert(values[i] == init[i]);
                    assert(spec_parse_number(init[i]) == Ok::<u8, Seq<char>>(prev[i]));
                }
            }
        }
    }
}

/// `.word` places four bytes per value, the value's byte and then three
/// zeros, in the order the values are written, and succeeds exactly when
/// every value is a byte.
pub proof fn law_word_values(values: Seq<Seq<char>>)
    ensures
        (spec_word_values(values) is Ok) <==> (forall|i: int|
            0 <= i < values.len() ==> #[trigger] spec_parse_number(values[i]) is Ok),
        spec_word_values(values) is Ok ==> {
            let bytes = spec_word_values(values)->Ok_0;
            &&& bytes.len() == 4 * values.len()
            &&& forall|i: int| 0 <= i < values.len() ==> {
                &&& #[trigger] spec_parse_number(values[i]) == Ok::<u8, Seq<char>>(bytes[4 * i])
                &&& bytes[4 * i + 1] == 0
                &&& bytes[4 * i + 2] == 0
                &&& bytes[4 * i + 3] == 0
            }
        },
    decreases values.len(),
{
    if values.len() > 0 {
        let init = values.drop_last();
        law_word_values(init);
        assert(values.last() == values[values.len() - 1]);
        if !(spec_word_values(init) is Ok) {
            let k = choose|i: int| 0 <= i < init.len() && !(#[trigger] spec_parse_number(init[i]) is Ok);
            assert(values[k] == init[k]);
        }
        if spec_word_values(values) is Ok {
            let bytes = spec_word_values(values)->Ok_0;
            let prev = spec_word_values(init)->Ok_0;
            assert(bytes == prev + seq![spec_parse_number(values.last())->Ok_0, 0u8, 0u8, 0u8]);
            assert forall|i: int| 0 <= i < values.len() implies {
                &&& #[trigger] spec_parse_number(values[i]) == Ok::<u8, Seq<char>>(bytes[4 * i])
                &&& bytes[4 * i + 1] == 0
                &&& bytes[4 * i + 2] == 0
                &&& bytes[4 * i + 3] == 0
            } by {
                if i < init.len() {
                    assert(values[i] == init[i]);
                    assert(spec_parse_number(init[i]) == Ok::<u8, Seq<char>>(prev[4 * i]));
                    assert(bytes[4 * i] == prev[4 * i]);
                    assert(bytes[4 * i + 1] == prev[4 * i + 1]);
                    assert(bytes[4 * i + 2] == prev[4 * i + 2]);
                    assert(bytes[4 * i + 3] == prev[4 * i + 3]);
                }
            }
        }
    }
}

} // verus!
