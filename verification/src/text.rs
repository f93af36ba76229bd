//! Character-level text helpers used by the assembler: comparison with
//! literals, trimming, splitting and number parsing, each stated over the
//! sequence of characters it works on.
use vstd::prelude::*;
use vstd::string::*;

verus! {

/// Whether `chars` holds exactly the characters of `lit`.
pub fn chars_equal_str(chars: &Vec<char>, lit: &str) -> (r: bool)
    ensures
        r == (chars@ == lit@),
{
    let n = lit.unicode_len();
    if chars.len() != n {
        return false;
    }
    let mut i: usize = 0;
    while i < n
        invariant
            n == lit@.len(),
            chars@.len() == n,
            i <= n,
            forall|j: int| 0 <= j < i ==> chars@[j] == lit@[j],
        decreases n - i,
    {
        if chars[i] != lit.get_char(i) {
            return false;
        }
        i = i + 1;
    }
    assert(chars@ =~= lit@);
    true
}

/// The characters of `s`.
pub fn str_to_chars(s: &str) -> (r: Vec<char>)
    ensures
        r@ == s@,
{
    broadcast use vstd::string::axiom_spec_iter;
    let mut r: Vec<char> = Vec::new();
    for c in it: s.chars()
        invariant
            r@ == it.seq().take(it.index() as int),
            it.seq() == s@,
    {
        r.push(c);
    }
    assert(r@ =~= s@);
    r
}

/// Whether `c` has the Unicode White_Space property (as `char::is_whitespace`).
pub open spec fn spec_is_whitespace(c: char) -> bool {
    ||| ('\u{9}' <= c <= '\u{d}')
    ||| c == ' '
    ||| c == '\u{85}'
    ||| c == '\u{a0}'
    ||| c == '\u{1680}'
    ||| ('\u{2000}' <= c <= '\u{200a}')
    ||| c == '\u{2028}'
    ||| c == '\u{2029}'
    ||| c == '\u{202f}'
    ||| c == '\u{205f}'
    ||| c == '\u{3000}'
}

/// Whether `c` is white space.
pub fn is_whitespace(c: char) -> (r: bool)
    ensures
        r == spec_is_whitespace(c),
{
    ('\u{9}' <= c && c <= '\u{d}') || c == ' ' || c == '\u{85}' || c == '\u{a0}' || c == '\u{1680}'
        || ('\u{2000}' <= c && c <= '\u{200a}') || c == '\u{2028}' || c == '\u{2029}' || c == '\u{202f}'
        || c == '\u{205f}' || c == '\u{3000}'
}

/// `s` without its leading white space.
pub open spec fn spec_trim_start(s: Seq<char>) -> Seq<char>
    decreases s.len(),
{
    if s.len() > 0 && spec_is_whitespace(s[0]) {
        spec_trim_start(s.drop_first())
    } else {
        s
    }
}

/// `s` without its trailing white space.
pub open spec fn spec_trim_end(s: Seq<char>) -> Seq<char>
    decreases s.len(),
{
    if s.len() > 0 && spec_is_whitespace(s.last()) {
        spec_trim_end(s.drop_last())
    } else {
        s
    }
}

/// `s` without leading and trailing white space (as `str::trim`).
pub open spec fn spec_trim(s: Seq<char>) -> Seq<char> {
    spec_trim_end(spec_trim_start(s))
}

/// The characters `s[start..end]`.
pub fn slice_chars(s: &Vec<char>, start: usize, end: usize) -> (r: Vec<char>)
    requires
        start <= end <= s.len(),
    ensures
        r@ == s@.subrange(start as int, end as int),
{
    let mut r: Vec<char> = Vec::new();
    let mut i = start;
    while i < end
        invariant
            start <= i <= end <= s.len(),
            r@ == s@.subrange(start as int, i as int),
        decreases end - i,
    {
        r.push(s[i]);
        i = i + 1;
    }
    r
}

/// `s` without leading and trailing white space.
pub fn trim(s: &Vec<char>) -> (r: Vec<char>)
    ensures
        r@ == spec_trim(s@),
{
    let n = s.len();
    let mut i: usize = 0;
    assert(s@.subrange(0, n as int) =~= s@);
    while i < n && is_whitespace(s[i])
        invariant
            i <= n == s@.len(),
            spec_trim_start(s@) == spec_trim_start(s@.subrange(i as int, n as int)),
        decreases n - i,
    {
        assert(s@.subrange(i as int, n as int).drop_first() =~= s@.subrange(i + 1, n as int));
        i = i + 1;
    }
    let ghost t = s@.subrange(i as int, n as int);
    assert(spec_trim_start(s@) == t);
    let mut j: usize = n;
    while j > i && is_whitespace(s[j - 1])
        invariant
            i <= j <= n == s@.len(),
            t == s@.subrange(i as int, n as int),
            spec_trim_end(t) == spec_trim_end(s@.subrange(i as int, j as int)),
        decreases j,
    {
        assert(s@.subrange(i as int, j as int).drop_last() =~= s@.subrange(i as int, j - 1));
        j = j - 1;
    }
    slice_chars(s, i, j)
}

/// The separators the assembler splits text at.
#[derive(Clone, Copy, PartialEq, Eq, Structural)]
pub enum Separator {
    /// A space or a comma.
    SpaceOrComma,
    /// An opening or closing parenthesis.
    Paren,
    /// Any white space.
    Whitespace,
    /// A comma.
    Comma,
    /// A line feed.
    Newline,
    /// A `#`, which starts a comment.
    Hash,
    /// A `:`, which ends a label.
    Colon,
}

/// Whether `c` is a separator of the given kind.
pub open spec fn spec_is_separator(kind: Separator, c: char) -> bool {
    match kind {
        Separator::SpaceOrComma => c == ' ' || c == ',',
        Separator::Paren => c == '(' || c == ')',
        Separator::Whitespace => spec_is_whitespace(c),
        Separator::Comma => c == ',',
        Separator::Newline => c == '\n',
        Separator::Hash => c == '#',
        Separator::Colon => c == ':',
    }
}

/// Whether `c` is a separator of the given kind.
pub fn is_separator(kind: Separator, c: char) -> (r: bool)
    ensures
        r == spec_is_separator(kind, c),
{
    match kind {
        Separator::SpaceOrComma => c == ' ' || c == ',',
        Separator::Paren => c == '(' || c == ')',
        Separator::Whitespace => is_whitespace(c),
        Separator::Comma => c == ',',
        Separator::Newline => c == '\n',
        Separator::Hash => c == '#',
        Separator::Colon => c == ':',
    }
}

/// The index of the first separator of the given kind in `s`, if any.
pub open spec fn spec_find_separator(s: Seq<char>, kind: Separator) -> Option<int>
    decreases s.len(),
{
    if s.len() == 0 {
        None
    } else if spec_is_separator(kind, s[0]) {
        Some(0)
    } else {
        match spec_find_separator(s.drop_first(), kind) {
            Some(i) => Some(i + 1),
            None => None,
        }
    }
}

/// The pieces of `s` between separators of the given kind, empty pieces
/// included (as `str::split`).
pub open spec fn spec_split(s: Seq<char>, kind: Separator) -> Seq<Seq<char>>
    decreases s.len(),
{
    match spec_find_separator(s, kind) {
        Some(i) => if 0 <= i < s.len() {
            seq![s.subrange(0, i)] + spec_split(s.subrange(i + 1, s.len() as int), kind)
        } else {
            seq![s]
        },
        None => seq![s],
    }
}

/// The non-empty pieces of `s` between separators of the given kind.
pub open spec fn spec_tokens(s: Seq<char>, kind: Separator) -> Seq<Seq<char>>
    decreases s.len(),
{
    match spec_find_separator(s, kind) {
        Some(i) => if 0 <= i < s.len() {
            let rest = spec_tokens(s.subrange(i + 1, s.len() as int), kind);
            if i > 0 {
                seq![s.subrange(0, i)] + rest
            } else {
                rest
            }
        } else {
            seq![s]
        },
        None => if s.len() > 0 {
            seq![s]
        } else {
            seq![]
        },
    }
}

/// The index `spec_find_separator` gives is that of the first separator.
pub proof fn lemma_find_separator(s: Seq<char>, kind: Separator)
    ensures
        match spec_find_separator(s, kind) {
            Some(i) => 0 <= i < s.len() && spec_is_separator(kind, s[i]) && forall|k: int|
                0 <= k < i ==> !spec_is_separator(kind, #[trigger] s[k]),
            None => forall|k: int| 0 <= k < s.len() ==> !spec_is_separator(kind, #[trigger] s[k]),
        },
    decreases s.len(),
{
    if s.len() > 0 {
        lemma_find_separator(s.drop_first(), kind);
        if !spec_is_separator(kind, s[0]) {
            assert forall|k: int| 1 <= k < s.len() implies s[k] == s.drop_first()[k - 1] by {}
        }
    }
}

proof fn lemma_find_separator_at(s: Seq<char>, kind: Separator, k: int)
    requires
        0 <= k < s.len(),
        spec_is_separator(kind, s[k]),
        forall|j: int| 0 <= j < k ==> !spec_is_separator(kind, #[trigger] s[j]),
    ensures
        spec_find_separator(s, kind) == Some(k),
    decreases s.len(),
{
    if k > 0 {
        assert forall|j: int| 0 <= j < k - 1 implies !spec_is_separator(kind, #[trigger] s.drop_first()[j]) by {
            assert(s.drop_first()[j] == s[j + 1]);
        }
        lemma_find_separator_at(s.drop_first(), kind, k - 1);
    }
}

proof fn lemma_find_separator_none(s: Seq<char>, kind: Separator)
    requires
        forall|j: int| 0 <= j < s.len() ==> !spec_is_separator(kind, #[trigger] s[j]),
    ensures
        spec_find_separator(s, kind) is None,
    decreases s.len(),
{
    if s.len() > 0 {
        assert forall|j: int| 0 <= j < s.len() - 1 implies !spec_is_separator(kind, #[trigger] s.drop_first()[j]) by {
            assert(s.drop_first()[j] == s[j + 1]);
        }
        lemma_find_separator_none(s.drop_first(), kind);
    }
}

/// The first separator of the given kind in `s[start..]`, if any.
pub fn find_separator(s: &Vec<char>, start: usize, kind: Separator) -> (r: Option<usize>)
    requires
        start <= s.len(),
    ensures
        r == (match spec_find_separator(s@.subrange(start as int, s.len() as int), kind) {
            Some(i) => Some((start + i) as usize),
            None => None,
        }),
{
    let ghost t = s@.subrange(start as int, s.len() as int);
    let mut i = start;
    while i < s.len()
        invariant
            start <= i <= s.len(),
            t == s@.subrange(start as int, s.len() as int),
            forall|k: int| start <= k < i ==> !spec_is_separator(kind, #[trigger] s@[k]),
        decreases s.len() - i,
    {
        if is_separator(kind, s[i]) {
            proof {
                assert forall|j: int| 0 <= j < i - start implies !spec_is_separator(kind, #[trigger] t[j]) by {
                    assert(t[j] == s@[start + j]);
                }
                lemma_find_separator_at(t, kind, i - start);
            }
            return Some(i);
        }
        i = i + 1;
    }
    proof {
        assert forall|j: int| 0 <= j < t.len() implies !spec_is_separator(kind, #[trigger] t[j]) by {
            assert(t[j] == s@[start + j]);
        }
        lemma_find_separator_none(t, kind);
    }
    None
}

/// The pieces of `s` between separators of the given kind, empty pieces
/// included.
pub fn split(s: &Vec<char>, kind: Separator) -> (r: Vec<Vec<char>>)
    ensures
        r@.map_values(|v: Vec<char>| v@) == spec_split(s@, kind),
{
    let mut r: Vec<Vec<char>> = Vec::new();
    let mut start: usize = 0;
    assert(s@.subrange(0, s.len() as int) =~= s@);
    assert(r@.map_values(|v: Vec<char>| v@) + spec_split(s@, kind) =~= spec_split(s@, kind));
    loop
        invariant
            start <= s.len(),
            r@.map_values(|v: Vec<char>| v@) + spec_split(s@.subrange(start as int, s.len() as int), kind)
                == spec_split(s@, kind),
        decreases s.len() - start,
    {
        let ghost t = s@.subrange(start as int, s.len() as int);
        match find_separator(s, start, kind) {
            Some(i) => {
                proof { lemma_find_separator(t, kind); }
                let piece = slice_chars(s, start, i);
                proof {
                    assert(t.subrange(0, i - start) =~= piece@);
                    assert(t.subrange(i - start + 1, t.len() as int) =~= s@.subrange(i + 1, s.len() as int));
                    assert(r@.push(piece).map_values(|v: Vec<char>| v@) =~= r@.map_values(|v: Vec<char>| v@).push(piece@));
                }
                r.push(piece);
                start = i + 1;
            },
            None => {
                let piece = slice_chars(s, start, s.len());
                proof {
                    assert(r@.push(piece).map_values(|v: Vec<char>| v@) =~= r@.map_values(|v: Vec<char>| v@).push(piece@));
                }
                r.push(piece);
                return r;
            },
        }
    }
}

/// The non-empty pieces of `s` between separators of the given kind.
pub fn tokens(s: &Vec<char>, kind: Separator) -> (r: Vec<Vec<char>>)
    ensures
        r@.map_values(|v: Vec<char>| v@) == spec_tokens(s@, kind),
{
    let mut r: Vec<Vec<char>> = Vec::new();
    let mut start: usize = 0;
    assert(s@.subrange(0, s.len() as int) =~= s@);
    assert(r@.map_values(|v: Vec<char>| v@) + spec_tokens(s@, kind) =~= spec_tokens(s@, kind));
    loop
        invariant
            start <= s.len(),
            r@.map_values(|v: Vec<char>| v@) + spec_tokens(s@.subrange(start as int, s.len() as int), kind)
                == spec_tokens(s@, kind),
        decreases s.len() - start,
    {
        let ghost t = s@.subrange(start as int, s.len() as int);
        match find_separator(s, start, kind) {
            Some(i) => {
                proof { lemma_find_separator(t, kind); }
                proof {
                    assert(t.subrange(i - start + 1, t.len() as int) =~= s@.subrange(i + 1, s.len() as int));
                }
                if i > start {
                    let piece = slice_chars(s, start, i);
                    proof {
                        assert(t.subrange(0, i - start) =~= piece@);
                        assert(r@.push(piece).map_values(|v: Vec<char>| v@) =~= r@.map_values(|v: Vec<char>| v@).push(piece@));
                    }
                    r.push(piece);
                }
                start = i + 1;
            },
            None => {
                if start < s.len() {
                    let piece = slice_chars(s, start, s.len());
                    proof {
                        assert(piece@ =~= t);
                        assert(r@.push(piece).map_values(|v: Vec<char>| v@) =~= r@.map_values(|v: Vec<char>| v@).push(piece@));
                    }
                    r.push(piece);
                } else {
                    assert(r@.map_values(|v: Vec<char>| v@) + seq![] =~= r@.map_values(|v: Vec<char>| v@));
                }
                return r;
            },
        }
    }
}

/// `t` without one trailing carriage return.
pub open spec fn spec_strip_cr(t: Seq<char>) -> Seq<char> {
    if t.len() > 0 && t.last() == '\r' {
        t.drop_last()
    } else {
        t
    }
}

/// The lines of `s` (as `str::lines`): split at each line feed, a carriage
/// return just before it dropped, and no empty line after a final line feed.
pub open spec fn spec_lines(s: Seq<char>) -> Seq<Seq<char>>
    decreases s.len(),
{
    if s.len() == 0 {
        seq![]
    } else {
        match spec_find_separator(s, Separator::Newline) {
            Some(i) => if 0 <= i < s.len() {
                seq![spec_strip_cr(s.subrange(0, i))] + spec_lines(s.subrange(i + 1, s.len() as int))
            } else {
                seq![s]
            },
            None => seq![s],
        }
    }
}

/// The lines of `s`.
pub fn lines(s: &Vec<char>) -> (r: Vec<Vec<char>>)
    ensures
        r@.map_values(|v: Vec<char>| v@) == spec_lines(s@),
{
    let mut r: Vec<Vec<char>> = Vec::new();
    let mut start: usize = 0;
    assert(s@.subrange(0, s.len() as int) =~= s@);
    assert(r@.map_values(|v: Vec<char>| v@) + spec_lines(s@) =~= spec_lines(s@));
    while start < s.len()
        invariant
            start <= s.len(),
            r@.map_values(|v: Vec<char>| v@) + spec_lines(s@.subrange(start as int, s.len() as int))
                == spec_lines(s@),
        decreases s.len() - start,
    {
        let ghost t = s@.subrange(start as int, s.len() as int);
        match find_separator(s, start, Separator::Newline) {
            Some(i) => {
                proof { lemma_find_separator(t, Separator::Newline); }
                let end = if i > start && s[i - 1] == '\r' { i - 1 } else { i };
                let piece = slice_chars(s, start, end);
                proof {
                    assert(spec_strip_cr(t.subrange(0, i - start)) =~= piece@);
                    assert(t.subrange(i - start + 1, t.len() as int) =~= s@.subrange(i + 1, s.len() as int));
                    assert(r@.push(piece).map_values(|v: Vec<char>| v@) =~= r@.map_values(|v: Vec<char>| v@).push(piece@));
                }
                r.push(piece);
                start = i + 1;
            },
            None => {
                let piece = slice_chars(s, start, s.len());
                proof {
                    assert(piece@ =~= t);
                    assert(r@.push(piece).map_values(|v: Vec<char>| v@) =~= r@.map_values(|v: Vec<char>| v@).push(piece@));
                    assert(s@.subrange(s.len() as int, s.len() as int) =~= Seq::<char>::empty());
                }
                r.push(piece);
                start = s.len();
            },
        }
    }
    assert(s@.subrange(start as int, s.len() as int) =~= Seq::<char>::empty());
    assert(r@.map_values(|v: Vec<char>| v@) + seq![] =~= r@.map_values(|v: Vec<char>| v@));
    r
}

/// `s` up to its first separator of the given kind (all of `s` when it has
/// none).
pub open spec fn spec_before_separator(s: Seq<char>, kind: Separator) -> Seq<char> {
    match spec_find_separator(s, kind) {
        Some(i) => s.subrange(0, i),
        None => s,
    }
}

/// `s` up to its first separator of the given kind.
pub fn before_separator(s: &Vec<char>, kind: Separator) -> (r: Vec<char>)
    ensures
        r@ == spec_before_separator(s@, kind),
{
    assert(s@.subrange(0, s.len() as int) =~= s@);
    proof { lemma_find_separator(s@, kind); }
    match find_separator(s, 0, kind) {
        Some(i) => slice_chars(s, 0, i),
        None => slice_chars(s, 0, s.len()),
    }
}

/// Appends the characters of `lit` to `v`.
pub fn push_str(v: &mut Vec<char>, lit: &str)
    ensures
        final(v)@ == old(v)@ + lit@,
{
    let n = lit.unicode_len();
    let mut i: usize = 0;
    while i < n
        invariant
            n == lit@.len(),
            i <= n,
            v@ == old(v)@ + lit@.subrange(0, i as int),
        decreases n - i,
    {
        v.push(lit.get_char(i));
        i = i + 1;
    }
    assert(lit@.subrange(0, n as int) =~= lit@);
}

/// Appends the characters `w` to `v`.
pub fn push_chars(v: &mut Vec<char>, w: &Vec<char>)
    ensures
        final(v)@ == old(v)@ + w@,
{
    let mut i: usize = 0;
    while i < w.len()
        invariant
            i <= w.len(),
            v@ == old(v)@ + w@.subrange(0, i as int),
        decreases w.len() - i,
    {
        v.push(w[i]);
        i = i + 1;
    }
    assert(w@.subrange(0, w.len() as int) =~= w@);
}

/// The characters of `lit`.
pub fn literal_chars(lit: &str) -> (r: Vec<char>)
    ensures
        r@ == lit@,
{
    let mut r: Vec<char> = Vec::new();
    push_str(&mut r, lit);
    r
}

/// Whether `s` starts with the characters of `lit`.
pub fn starts_with_str(s: &Vec<char>, lit: &str) -> (r: bool)
    ensures
        r == (lit@.len() <= s@.len() && s@.subrange(0, lit@.len() as int) == lit@),
{
    let n = lit.unicode_len();
    if n > s.len() {
        return false;
    }
    let prefix = slice_chars(s, 0, n);
    chars_equal_str(&prefix, lit)
}

/// The decimal digit character of `d`.
pub open spec fn spec_digit_char(d: nat) -> char {
    if d == 0 { '0' } else if d == 1 { '1' } else if d == 2 { '2' } else if d == 3 { '3' }
    else if d == 4 { '4' } else if d == 5 { '5' } else if d == 6 { '6' } else if d == 7 { '7' }
    else if d == 8 { '8' } else if d == 9 { '9' } else if d == 10 { 'A' } else if d == 11 { 'B' }
    else if d == 12 { 'C' } else if d == 13 { 'D' } else if d == 14 { 'E' } else { 'F' }
}

/// `n` written in the given radix (10 or 16, upper-case digits), without
/// leading zeros.
pub open spec fn spec_radix_chars(n: nat, radix: nat) -> Seq<char>
    decreases n,
{
    if radix < 2 || n < radix {
        seq![spec_digit_char(n)]
    } else {
        proof {
            assert(n / radix < n) by (nonlinear_arith)
                requires
                    radix >= 2,
                    n >= radix,
            ;
        }
        spec_radix_chars(n / radix, radix) + seq![spec_digit_char(n % radix)]
    }
}

fn digit_char(d: u64) -> (c: char)
    requires
        d < 16,
    ensures
        c == spec_digit_char(d as nat),
{
    if d == 0 { '0' } else if d == 1 { '1' } else if d == 2 { '2' } else if d == 3 { '3' }
    else if d == 4 { '4' } else if d == 5 { '5' } else if d == 6 { '6' } else if d == 7 { '7' }
    else if d == 8 { '8' } else if d == 9 { '9' } else if d == 10 { 'A' } else if d == 11 { 'B' }
    else if d == 12 { 'C' } else if d == 13 { 'D' } else if d == 14 { 'E' } else { 'F' }
}

/// `n` written in the given radix (10 or 16).
pub fn radix_chars(n: u64, radix: u64) -> (r: Vec<char>)
    requires
        radix == 10 || radix == 16,
    ensures
        r@ == spec_radix_chars(n as nat, radix as nat),
    decreases n,
{
    if n < radix {
        let mut r = Vec::new();
        r.push(digit_char(n));
        r
    } else {
        let mut r = radix_chars(n / radix, radix);
        r.push(digit_char(n % radix));
        r
    }
}

/// The value of digit `c` in the given radix, if it is one (letters of
/// either case stand for the digits from ten up).
pub open spec fn spec_digit_value(c: char, radix: nat) -> Option<nat> {
    let v: int = if '0' <= c <= '9' {
        c as int - '0' as int
    } else if 'a' <= c <= 'z' {
        c as int - 'a' as int + 10
    } else if 'A' <= c <= 'Z' {
        c as int - 'A' as int + 10
    } else {
        radix as int
    };
    if 0 <= v < radix {
        Some(v as nat)
    } else {
        None
    }
}

/// The value of the digit string `s` in the given radix, if every character
/// is a digit (the empty string has value zero).
pub open spec fn spec_digits_value(s: Seq<char>, radix: nat) -> Option<nat>
    decreases s.len(),
{
    if s.len() == 0 {
        Some(0)
    } else {
        match (spec_digits_value(s.drop_last(), radix), spec_digit_value(s.last(), radix)) {
            (Some(v), Some(d)) => Some(v * radix + d),
            _ => None,
        }
    }
}

/// The integer `s` denotes in the given radix (as the standard integer
/// parsers read it): an optional `+` (or, when `signed`, `-`) and at least
/// one digit.
pub open spec fn spec_parse_int(s: Seq<char>, radix: nat, signed: bool) -> Option<int> {
    if s.len() == 0 {
        None
    } else {
        let negative = signed && s[0] == '-';
        let body = if s[0] == '+' || negative { s.drop_first() } else { s };
        if body.len() == 0 {
            None
        } else {
            match spec_digits_value(body, radix) {
                Some(v) => Some(if negative { -(v as int) } else { v as int }),
                None => None,
            }
        }
    }
}

/// `s` read as an `i32` in the given radix.
pub open spec fn spec_parse_i32(s: Seq<char>, radix: nat) -> Option<i32> {
    match spec_parse_int(s, radix, true) {
        Some(v) => if i32::MIN <= v <= i32::MAX { Some(v as i32) } else { None },
        None => None,
    }
}

/// `s` read as a `u32` in the given radix.
pub open spec fn spec_parse_u32(s: Seq<char>, radix: nat) -> Option<u32> {
    match spec_parse_int(s, radix, false) {
        Some(v) => if 0 <= v <= u32::MAX { Some(v as u32) } else { None },
        None => None,
    }
}

/// `s` read as a `u8` in the given radix.
pub open spec fn spec_parse_u8(s: Seq<char>, radix: nat) -> Option<u8> {
    match spec_parse_int(s, radix, false) {
        Some(v) => if 0 <= v <= u8::MAX { Some(v as u8) } else { None },
        None => None,
    }
}

proof fn lemma_digits_prefix(s: Seq<char>, radix: nat, k: int)
    requires
        0 <= k <= s.len(),
        radix >= 1,
        spec_digits_value(s, radix) is Some,
    ensures
        spec_digits_value(s.subrange(0, k), radix) is Some,
        spec_digits_value(s.subrange(0, k), radix)->0 <= spec_digits_value(s, radix)->0,
    decreases s.len(),
{
    if k == s.len() {
        assert(s.subrange(0, k) =~= s);
    } else {
        let v = spec_digits_value(s.drop_last(), radix)->0;
        assert(v * radix >= v) by (nonlinear_arith)
            requires radix >= 1;
        lemma_digits_prefix(s.drop_last(), radix, k);
        assert(s.drop_last().subrange(0, k) =~= s.subrange(0, k));
    }
}

fn digit_value(c: char, radix: u64) -> (r: Option<u64>)
    requires
        radix <= 36,
    ensures
        r == (match spec_digit_value(c, radix as nat) {
            Some(v) => Some(v as u64),
            None => None,
        }),
{
    let v: u64 = if '0' <= c && c <= '9' {
        (c as u64) - ('0' as u64)
    } else if 'a' <= c && c <= 'z' {
        (c as u64) - ('a' as u64) + 10
    } else if 'A' <= c && c <= 'Z' {
        (c as u64) - ('A' as u64) + 10
    } else {
        radix
    };
    if v < radix {
        Some(v)
    } else {
        None
    }
}

/// The value of the digits `s[start..]` in the given radix when every one is
/// a digit and the value is at most 2^33; `None` otherwise.
fn digits_value(s: &Vec<char>, start: usize, radix: u64) -> (r: Option<u64>)
    requires
        start <= s.len(),
        radix == 10 || radix == 16,
    ensures
        ({
            let t = s@.subrange(start as int, s.len() as int);
            match r {
                Some(v) => spec_digits_value(t, radix as nat) == Some(v as nat) && v <= 0x2_0000_0000,
                None => match spec_digits_value(t, radix as nat) {
                    Some(v) => v > 0x2_0000_0000,
                    None => true,
                },
            }
        }),
{
    let ghost t = s@.subrange(start as int, s.len() as int);
    let mut acc: u64 = 0;
    let mut i = start;
    assert(t.subrange(0, 0) =~= Seq::<char>::empty());
    while i < s.len()
        invariant
            start <= i <= s.len(),
            radix == 10 || radix == 16,
            t == s@.subrange(start as int, s.len() as int),
            spec_digits_value(t.subrange(0, i - start), radix as nat) == Some(acc as nat),
            acc <= 0x2_0000_0000,
        decreases s.len() - i,
    {
        assert(t.subrange(0, i - start + 1).drop_last() =~= t.subrange(0, i - start));
        assert(t.subrange(0, i - start + 1).last() == s@[i as int]);
        match digit_value(s[i], radix) {
            None => {
                proof {
                    if spec_digits_value(t, radix as nat) is Some {
                        lemma_digits_prefix(t, radix as nat, i - start + 1);
                    }
                }
                return None;
            },
            Some(d) => {
                assert(acc * radix + d <= 0x2_0000_0000 * 16 + 16) by (nonlinear_arith)
                    requires acc <= 0x2_0000_0000, radix <= 16, d < 16;
                let next = acc * radix + d;
                if next > 0x2_0000_0000 {
                    proof {
                        if spec_digits_value(t, radix as nat) is Some {
                            lemma_digits_prefix(t, radix as nat, i - start + 1);
                        }
                    }
                    return None;
                }
                acc = next;
            },
        }
        i = i + 1;
    }
    assert(t.subrange(0, s.len() - start) =~= t);
    Some(acc)
}

/// The integer that `s` denotes in the given radix, when its magnitude is at
/// most 2^33; `None` where `s` is no integer or a larger one.
fn parse_int(s: &Vec<char>, radix: u64, signed: bool) -> (r: Option<i64>)
    requires
        radix == 10 || radix == 16,
    ensures
        match r {
            Some(v) => spec_parse_int(s@, radix as nat, signed) == Some(v as int),
            None => match spec_parse_int(s@, radix as nat, signed) {
                Some(v) => v > 0x2_0000_0000 || v < -0x2_0000_0000,
                None => true,
            },
        },
{
    if s.len() == 0 {
        return None;
    }
    let negative = signed && s[0] == '-';
    let start: usize = if s[0] == '+' || negative { 1 } else { 0 };
    assert(s@.subrange(start as int, s.len() as int) =~= (if s@[0] == '+' || negative { s@.drop_first() } else { s@ }));
    if start == s.len() {
        return None;
    }
    match digits_value(s, start, radix) {
        Some(v) => Some(if negative { -(v as i64) } else { v as i64 }),
        None => None,
    }
}

/// `s` read as an `i32` in the given radix.
pub fn parse_i32(s: &Vec<char>, radix: u64) -> (r: Option<i32>)
    requires
        radix == 10 || radix == 16,
    ensures
        r == spec_parse_i32(s@, radix as nat),
{
    match parse_int(s, radix, true) {
        Some(v) => if -2147483648 <= v && v <= 2147483647 { Some(v as i32) } else { None },
        None => None,
    }
}

/// `s` read as a `u32` in the given radix.
pub fn parse_u32(s: &Vec<char>, radix: u64) -> (r: Option<u32>)
    requires
        radix == 10 || radix == 16,
    ensures
        r == spec_parse_u32(s@, radix as nat),
{
    match parse_int(s, radix, false) {
        Some(v) => if 0 <= v && v <= 4294967295 { Some(v as u32) } else { None },
        None => None,
    }
}

/// `s` read as a `u8` in the given radix.
pub fn parse_u8(s: &Vec<char>, radix: u64) -> (r: Option<u8>)
    requires
        radix == 10 || radix == 16,
    ensures
        r == spec_parse_u8(s@, radix as nat),
{
    match parse_int(s, radix, false) {
        Some(v) => if 0 <= v && v <= 255 { Some(v as u8) } else { None },
        None => None,
    }
}

/// What `str::to_uppercase` returns for a string of the characters `s`.
pub uninterp spec fn uppercase_of(s: Seq<char>) -> Seq<char>;

/// What `str::to_lowercase` returns for a string of the characters `s`.
pub uninterp spec fn lowercase_of(s: Seq<char>) -> Seq<char>;

/// Whether every character of `s` is ASCII.
pub open spec fn spec_is_ascii(s: Seq<char>) -> bool {
    forall|i: int| 0 <= i < s.len() ==> (s[i] as u32) < 128
}

/// The upper-case form of an ASCII character: `a`..=`z` become `A`..=`Z`,
/// the others stay.
pub open spec fn spec_ascii_upper(c: char) -> char {
    if 'a' <= c <= 'z' {
        ((c as u32) - 32) as char
    } else {
        c
    }
}

/// The lower-case form of an ASCII character: `A`..=`Z` become `a`..=`z`,
/// the others stay.
pub open spec fn spec_ascii_lower(c: char) -> char {
    if 'A' <= c <= 'Z' {
        ((c as u32) + 32) as char
    } else {
        c
    }
}

/// The upper-case form of `s`: of an ASCII string each letter upper-cased
/// and every other character kept; of any other string what
/// `str::to_uppercase` returns.
pub open spec fn spec_uppercase(s: Seq<char>) -> Seq<char> {
    if spec_is_ascii(s) {
        s.map_values(|c: char| spec_ascii_upper(c))
    } else {
        uppercase_of(s)
    }
}

/// The lower-case form of `s`: of an ASCII string each letter lower-cased
/// and every other character kept; of any other string what
/// `str::to_lowercase` returns.
pub open spec fn spec_lowercase(s: Seq<char>) -> Seq<char> {
    if spec_is_ascii(s) {
        s.map_values(|c: char| spec_ascii_lower(c))
    } else {
        lowercase_of(s)
    }
}

/// Calls `str::to_uppercase` on the string of the characters `s`. The
/// result is named; of an ASCII string the contract states it: each letter
/// upper-cased, every other character kept (the Unicode case mapping of
/// ASCII). Of other strings it states nothing more, since the Unicode
/// mapping can change the number of characters.
#[verifier::external_body]
pub(crate) fn to_uppercase(s: &Vec<char>) -> (r: Vec<char>)
    ensures
        r@ == uppercase_of(s@),
        r@ == spec_uppercase(s@),
{
    let text: String = s.iter().collect();
    text.to_uppercase().chars().collect()
}

/// Calls `str::to_lowercase` on the string of the characters `s`. The
/// result is named; of an ASCII string the contract states it: each letter
/// lower-cased, every other character kept. Of other strings it states
/// nothing more.
#[verifier::external_body]
pub(crate) fn to_lowercase(s: &Vec<char>) -> (r: Vec<char>)
    ensures
        r@ == lowercase_of(s@),
        r@ == spec_lowercase(s@),
{
    let text: String = s.iter().collect();
    text.to_lowercase().chars().collect()
}

/// Collects the characters `v` into a `String` (the `FromIterator<char>`
/// impl of `String`), which holds exactly those characters in order.
#[verifier::external_body]
pub(crate) fn chars_to_string(v: &Vec<char>) -> (r: String)
    ensures
        r@ == v@,
{
    v.iter().collect()
}

/// The pieces joined, with `sep` between neighbours (as `join` on a
/// slice of strings).
pub open spec fn spec_join(parts: Seq<Seq<char>>, sep: Seq<char>) -> Seq<char>
    decreases parts.len(),
{
    if parts.len() == 0 {
        seq![]
    } else if parts.len() == 1 {
        parts[0]
    } else {
        spec_join(parts.drop_last(), sep) + sep + parts.last()
    }
}

/// The pieces joined with `sep` between neighbours.
pub fn join(parts: &Vec<Vec<char>>, start: usize, sep: &str) -> (r: Vec<char>)
    requires
        start <= parts@.len(),
    ensures
        r@ == spec_join(parts@.map_values(|v: Vec<char>| v@).skip(start as int), sep@),
{
    let ghost all = parts@.map_values(|v: Vec<char>| v@);
    let mut r: Vec<char> = Vec::new();
    let mut i = start;
    assert(all.skip(start as int).subrange(0, 0) =~= Seq::<Seq<char>>::empty());
    while i < parts.len()
        invariant
            start <= i <= parts@.len(),
            all == parts@.map_values(|v: Vec<char>| v@),
            r@ == spec_join(all.skip(start as int).subrange(0, i - start), sep@),
        decreases parts.len() - i,
    {
        let ghost pieces = all.skip(start as int).subrange(0, i + 1 - start);
        assert(pieces.drop_last() =~= all.skip(start as int).subrange(0, i - start));
        assert(pieces.last() == parts@[i as int]@);
        if i > start {
            push_str(&mut r, sep);
        }
        push_chars(&mut r, &parts[i]);
        i = i + 1;
        proof {
            if pieces.len() == 1 {
                assert(r@ =~= pieces[0]);
            }
        }
    }
    assert(all.skip(start as int).subrange(0, parts@.len() - start) =~= all.skip(start as int));
    r
}

/// `s` with every non-overlapping occurrence of `pat`, from the left,
/// replaced by `rep` (as `str::replace`).
pub open spec fn spec_replace(s: Seq<char>, pat: Seq<char>, rep: Seq<char>) -> Seq<char>
    decreases s.len(),
{
    if s.len() == 0 {
        s
    } else if pat.len() > 0 && pat.len() <= s.len() && s.subrange(0, pat.len() as int) == pat {
        rep + spec_replace(s.subrange(pat.len() as int, s.len() as int), pat, rep)
    } else {
        seq![s[0]] + spec_replace(s.drop_first(), pat, rep)
    }
}

/// `s` with every occurrence of the two characters `a` `b` replaced by `c`.
pub fn replace_pair(s: &Vec<char>, a: char, b: char, c: char) -> (r: Vec<char>)
    ensures
        r@ == spec_replace(s@, seq![a, b], seq![c]),
{
    let mut r: Vec<char> = Vec::new();
    let mut i: usize = 0;
    assert(s@.subrange(0, s@.len() as int) =~= s@);
    while i < s.len()
        invariant
            i <= s@.len(),
            r@ + spec_replace(s@.subrange(i as int, s@.len() as int), seq![a, b], seq![c])
                == spec_replace(s@, seq![a, b], seq![c]),
        decreases s.len() - i,
    {
        let ghost t = s@.subrange(i as int, s@.len() as int);
        if i + 1 < s.len() && s[i] == a && s[i + 1] == b {
            assert(t.subrange(0, 2) =~= seq![a, b]);
            assert(t.subrange(2, t.len() as int) =~= s@.subrange(i + 2, s@.len() as int));
            r.push(c);
            i = i + 2;
        } else {
            assert(!(t.subrange(0, 2) =~= seq![a, b]) || t.len() < 2);
            assert(t.drop_first() =~= s@.subrange(i + 1, s@.len() as int));
            r.push(s[i]);
            i = i + 1;
        }
    }
    assert(s@.subrange(i as int, s@.len() as int) =~= Seq::<char>::empty());
    assert(r@ + Seq::<char>::empty() =~= r@);
    r
}

/// `s` without the leading and trailing occurrences of `c` (as
/// `str::trim_matches` with a character).
pub open spec fn spec_trim_char(s: Seq<char>, c: char) -> Seq<char> {
    spec_trim_char_end(spec_trim_char_start(s, c), c)
}

pub open spec fn spec_trim_char_start(s: Seq<char>, c: char) -> Seq<char>
    decreases s.len(),
{
    if s.len() > 0 && s[0] == c {
        spec_trim_char_start(s.drop_first(), c)
    } else {
        s
    }
}

pub open spec fn spec_trim_char_end(s: Seq<char>, c: char) -> Seq<char>
    decreases s.len(),
{
    if s.len() > 0 && s.last() == c {
        spec_trim_char_end(s.drop_last(), c)
    } else {
        s
    }
}

/// `s` without the leading and trailing occurrences of `c`.
pub fn trim_char(s: &Vec<char>, c: char) -> (r: Vec<char>)
    ensures
        r@ == spec_trim_char(s@, c),
{
    let mut i: usize = 0;
    assert(s@.subrange(0, s@.len() as int) =~= s@);
    while i < s.len() && s[i] == c
        invariant
            i <= s@.len(),
            spec_trim_char_start(s@, c) == spec_trim_char_start(s@.subrange(i as int, s@.len() as int), c),
        decreases s.len() - i,
    {
        assert(s@.subrange(i as int, s@.len() as int).drop_first() =~= s@.subrange(i + 1, s@.len() as int));
        i = i + 1;
    }
    let ghost start = s@.subrange(i as int, s@.len() as int);
    let mut j = s.len();
    assert(start.subrange(0, (j - i) as int) =~= start);
    while j > i && s[j - 1] == c
        invariant
            i <= j <= s@.len(),
            start == s@.subrange(i as int, s@.len() as int),
            spec_trim_char_end(start, c) == spec_trim_char_end(s@.subrange(i as int, j as int), c),
        decreases j,
    {
        assert(s@.subrange(i as int, j as int).drop_last() =~= s@.subrange(i as int, j - 1));
        j = j - 1;
    }
    slice_chars(s, i, j)
}

/// The UTF-8 encoding of the characters `v`.
pub fn utf8_bytes(v: &Vec<char>) -> (r: Vec<u8>)
    ensures
        r@ == vstd::utf8::encode_utf8(v@),
{
    let text = chars_to_string(v);
    let bytes = text.as_str().as_bytes();
    vstd::slice::slice_to_vec(bytes)
}

/// A copy of the characters `v`.
pub fn copy_chars(v: &Vec<char>) -> (r: Vec<char>)
    ensures
        r@ == v@,
{
    assert(v@.subrange(0, v@.len() as int) =~= v@);
    slice_chars(v, 0, v.len())
}

/// The characters of each piece.
pub open spec fn spec_views(parts: Seq<Vec<char>>) -> Seq<Seq<char>> {
    parts.map_values(|v: Vec<char>| v@)
}

proof fn lemma_decimal_digit(d: nat)
    requires
        d < 10,
    ensures
        spec_digit_value(spec_digit_char(d), 10) == Some(d),
        '0' <= spec_digit_char(d) <= '9',
{
}

/// Reading back the decimal digits of a number gives the number: the
/// digits are all decimal digits and their value in base ten is `n`.
pub proof fn law_decimal_digits_read_back(n: nat)
    ensures
        spec_radix_chars(n, 10).len() > 0,
        forall|i: int| 0 <= i < spec_radix_chars(n, 10).len() ==> '0' <= #[trigger] spec_radix_chars(n, 10)[i] <= '9',
        spec_digits_value(spec_radix_chars(n, 10), 10) == Some(n),
    decreases n,
{
    let s = spec_radix_chars(n, 10);
    if n < 10 {
        lemma_decimal_digit(n);
        assert(s.drop_last() =~= Seq::<char>::empty());
        assert(spec_digits_value(s.drop_last(), 10) == Some(0nat));
        assert(s.last() == spec_digit_char(n));
        assert(spec_digits_value(s, 10) == Some(0nat * 10 + n));
    } else {
        law_decimal_digits_read_back(n / 10);
        lemma_decimal_digit(n % 10);
        let t = spec_radix_chars(n / 10, 10);
        assert(s == t + seq![spec_digit_char(n % 10)]);
        assert(s.drop_last() =~= t);
        assert(n == (n / 10) * 10 + n % 10) by (nonlinear_arith);
        assert(s.last() == spec_digit_char(n % 10));
        assert(spec_digits_value(s, 10) == Some((n / 10) * 10 + n % 10));
        assert forall|i: int| 0 <= i < s.len() implies '0' <= #[trigger] s[i] <= '9' by {
            if i < t.len() {
                assert(s[i] == t[i]);
            }
        }
    }
}

/// A number written in decimal parses back to itself as a `u32`, when it
/// fits one.
pub proof fn law_parse_u32_decimal(n: nat)
    requires
        n <= u32::MAX,
    ensures
        spec_parse_u32(spec_radix_chars(n, 10), 10) == Some(n as u32),
{
    law_decimal_digits_read_back(n);
    let s = spec_radix_chars(n, 10);
    assert('0' <= s[0] <= '9');
}

proof fn lemma_digit(d: nat, radix: nat)
    requires
        radix == 10 || radix == 16,
        d < radix,
    ensures
        spec_digit_value(spec_digit_char(d), radix) == Some(d),
        ('0' <= spec_digit_char(d) <= '9') || ('A' <= spec_digit_char(d) <= 'F'),
{
}

/// Reading back the digits of a number in radix 10 or 16 gives the number:
/// there is at least one digit, each is `0`-`9` or `A`-`F`, and their value
/// in that radix is `n`.
pub proof fn law_digits_read_back(n: nat, radix: nat)
    requires
        radix == 10 || radix == 16,
    ensures
        spec_radix_chars(n, radix).len() > 0,
        forall|i: int|
            0 <= i < spec_radix_chars(n, radix).len() ==> ('0' <= #[trigger] spec_radix_chars(n, radix)[i] <= '9')
                || ('A' <= spec_radix_chars(n, radix)[i] <= 'F'),
        spec_digits_value(spec_radix_chars(n, radix), radix) == Some(n),
    decreases n,
{
    let s = spec_radix_chars(n, radix);
    if n < radix {
        lemma_digit(n, radix);
        assert(s.drop_last() =~= Seq::<char>::empty());
        assert(spec_digits_value(s.drop_last(), radix) == Some(0nat));
        assert(s.last() == spec_digit_char(n));
        assert(spec_digits_value(s, radix) == Some(0nat * radix + n));
    } else {
        assert(n / radix < n && n % radix < radix && n == (n / radix) * radix + n % radix) by (nonlinear_arith)
            requires
                radix >= 2,
                n >= radix,
        ;
        law_digits_read_back(n / radix, radix);
        lemma_digit(n % radix, radix);
        let t = spec_radix_chars(n / radix, radix);
        assert(s == t + seq![spec_digit_char(n % radix)]);
        assert(s.drop_last() =~= t);
        assert(s.last() == spec_digit_char(n % radix));
        assert(spec_digits_value(s, radix) == Some((n / radix) * radix + n % radix));
        assert forall|i: int| 0 <= i < s.len() implies ('0' <= #[trigger] s[i] <= '9') || ('A' <= s[i] <= 'F') by {
            if i < t.len() {
                assert(s[i] == t[i]);
            }
        }
    }
}

/// A number written in radix 10 or 16 parses back to itself as an `i32`,
/// when it fits one.
pub proof fn law_parse_i32_digits(n: nat, radix: nat)
    requires
        radix == 10 || radix == 16,
        n <= i32::MAX,
    ensures
        spec_parse_i32(spec_radix_chars(n, radix), radix) == Some(n as i32),
{
    law_digits_read_back(n, radix);
    let s = spec_radix_chars(n, radix);
    assert(('0' <= s[0] <= '9') || ('A' <= s[0] <= 'F'));
}

/// A number written in radix 10 or 16 parses back to itself as a `u8`,
/// when it fits one.
pub proof fn law_parse_u8_digits(n: nat, radix: nat)
    requires
        radix == 10 || radix == 16,
        n <= u8::MAX,
    ensures
        spec_parse_u8(spec_radix_chars(n, radix), radix) == Some(n as u8),
{
    law_digits_read_back(n, radix);
    let s = spec_radix_chars(n, radix);
    assert(('0' <= s[0] <= '9') || ('A' <= s[0] <= 'F'));
}

/// A nonempty string with no white space at either end is its own trim.
pub proof fn lemma_trim_unchanged(s: Seq<char>)
    requires
        s.len() > 0,
        !spec_is_whitespace(s[0]),
        !spec_is_whitespace(s.last()),
    ensures
        spec_trim(s) == s,
{
    assert(spec_trim_start(s) == s);
    assert(spec_trim_end(s) == s);
}

} // verus!
