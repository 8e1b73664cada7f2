use vstd::prelude::*;
use crate::text::{copy_chars, views};

verus! {

/// One byte of a program before label references are resolved. An opcode
/// carries the names of the labels declared just above it; a label reference
/// stands for two bytes, the low and the high byte of the labelled address,
/// and remembers the source line it was written on.
pub enum Chunk {
    Data(u8),
    OpCode(u8, Vec<Vec<char>>),
    LabelLow(Vec<char>, usize),
    LabelHigh(Vec<char>, usize),
}

/// A `Chunk` as mathematical values.
pub enum ChunkView {
    Data(u8),
    OpCode(u8, Seq<Seq<char>>),
    LabelLow(Seq<char>, nat),
    LabelHigh(Seq<char>, nat),
}

impl View for Chunk {
    type V = ChunkView;

    open spec fn view(&self) -> ChunkView {
        match self {
            Chunk::Data(b) => ChunkView::Data(*b),
            Chunk::OpCode(b, labels) => ChunkView::OpCode(*b, views(labels@)),
            Chunk::LabelLow(name, line) => ChunkView::LabelLow(name@, *line as nat),
            Chunk::LabelHigh(name, line) => ChunkView::LabelHigh(name@, *line as nat),
        }
    }
}

pub open spec fn chunk_views(v: Seq<Chunk>) -> Seq<ChunkView> {
    v.map_values(|c: Chunk| c@)
}

/// Data chunks for the given bytes.
pub open spec fn data_chunks(b: Seq<u8>) -> Seq<ChunkView> {
    b.map_values(|x: u8| ChunkView::Data(x))
}

pub open spec fn is_hex_digit(c: char) -> bool {
    let u = c as u32;
    (48 <= u <= 57) || (97 <= u <= 102) || (65 <= u <= 70)
}

pub open spec fn hex_value(c: char) -> int {
    let u = c as u32;
    if u <= 57 {
        u - 48
    } else if u >= 97 {
        u - 87
    } else {
        u - 55
    }
}

pub open spec fn all_hex(s: Seq<char>) -> bool {
    forall|i: int| 0 <= i < s.len() ==> is_hex_digit(s[i])
}

pub open spec fn all_bin(s: Seq<char>) -> bool {
    forall|i: int| 0 <= i < s.len() ==> (s[i] == '0' || s[i] == '1')
}

/// The number that binary digits spell.
pub open spec fn bin_value(s: Seq<char>) -> int
    decreases s.len(),
{
    if s.len() == 0 {
        0
    } else {
        2 * bin_value(s.drop_last()) + if s.last() == '1' { 1int } else { 0int }
    }
}

/// The byte a character of a string literal is written as: the low eight bits
/// of its code.
pub open spec fn char_byte(c: char) -> u8 {
    (c as u32 % 256) as u8
}

/// `p` in front of what `o` holds.
pub open spec fn prepend(p: Seq<u8>, o: Option<Seq<u8>>) -> Option<Seq<u8>> {
    match o {
        Some(x) => Some(p + x),
        None => None,
    }
}

/// The bytes of a string literal's body up to its closing quote, with `\0`,
/// `\n`, `\r`, `\t` and `\\` decoded and a backslash before any other
/// character dropped; `None` when no unescaped closing quote comes.
pub open spec fn decode_string(s: Seq<char>, escape: bool) -> Option<Seq<u8>>
    decreases s.len(),
{
    if s.len() == 0 {
        None
    } else {
        let c = s[0];
        let rest = s.drop_first();
        if c == '"' && !escape {
            Some(Seq::empty())
        } else if escape && c == '0' {
            prepend(seq![0u8], decode_string(rest, false))
        } else if escape && c == 'n' {
            prepend(seq![10u8], decode_string(rest, false))
        } else if escape && c == 'r' {
            prepend(seq![13u8], decode_string(rest, false))
        } else if escape && c == 't' {
            prepend(seq![9u8], decode_string(rest, false))
        } else if c == '\\' {
            if escape {
                prepend(seq![92u8], decode_string(rest, false))
            } else {
                decode_string(rest, true)
            }
        } else {
            prepend(seq![char_byte(c)], decode_string(rest, false))
        }
    }
}

/// The operand grammar: `0x` and two or four hex digits (one byte, or two bytes
/// little-endian); `0b` and one to eight binary digits; `:name`, a reference to
/// a label; `'c'`, one ASCII character; `"..."`, a non-empty string literal.
pub open spec fn parse_operand(t: Seq<char>, line: nat) -> Option<Seq<ChunkView>> {
    if t.len() >= 2 && t[0] == '0' && t[1] == 'x' {
        let d = t.skip(2);
        if d.len() == 2 && all_hex(d) {
            Some(seq![ChunkView::Data((16 * hex_value(d[0]) + hex_value(d[1])) as u8)])
        } else if d.len() == 4 && all_hex(d) {
            Some(
                seq![
                    ChunkView::Data((16 * hex_value(d[2]) + hex_value(d[3])) as u8),
                    ChunkView::Data((16 * hex_value(d[0]) + hex_value(d[1])) as u8),
                ],
            )
        } else {
            None
        }
    } else if t.len() >= 2 && t[0] == '0' && t[1] == 'b' {
        let d = t.skip(2);
        if 1 <= d.len() <= 8 && all_bin(d) {
            Some(seq![ChunkView::Data(bin_value(d) as u8)])
        } else {
            None
        }
    } else if t.len() >= 1 && t[0] == ':' {
        Some(
            seq![
                ChunkView::LabelLow(t.drop_first(), line),
                ChunkView::LabelHigh(t.drop_first(), line),
            ],
        )
    } else if t.len() == 3 && t[0] == '\'' && t[2] == '\'' && (t[1] as u32) < 128 {
        Some(seq![ChunkView::Data(t[1] as u32 as u8)])
    } else if t.len() >= 3 && t[0] == '"' && t.last() == '"' {
        match decode_string(t.drop_first(), false) {
            Some(b) => if b.len() > 0 {
                Some(data_chunks(b))
            } else {
                None
            },
            None => None,
        }
    } else {
        None
    }
}

fn hex_value_exec(c: char) -> (r: u8)
    requires
        is_hex_digit(c),
    ensures
        r == hex_value(c),
{
    let u = c as u32;
    if u <= 57 {
        (u - 48) as u8
    } else if u >= 97 {
        (u - 87) as u8
    } else {
        (u - 55) as u8
    }
}

fn is_hex_exec(c: char) -> (r: bool)
    ensures
        r == is_hex_digit(c),
{
    let u = c as u32;
    (48 <= u && u <= 57) || (97 <= u && u <= 102) || (65 <= u && u <= 70)
}

fn all_hex_from(t: &Vec<char>, from: usize) -> (r: bool)
    requires
        from <= t@.len(),
    ensures
        r == all_hex(t@.skip(from as int)),
{
    let mut i = from;
    while i < t.len()
        invariant
            from <= i <= t@.len(),
            forall|j: int| from <= j < i ==> is_hex_digit(t@[j]),
        decreases t.len() - i,
    {
        if !is_hex_exec(t[i]) {
            assert(!is_hex_digit(t@.skip(from as int)[i - from]));
            return false;
        }
        i += 1;
    }
    assert forall|j: int| 0 <= j < t@.skip(from as int).len() implies is_hex_digit(
        t@.skip(from as int)[j],
    ) by {
        assert(is_hex_digit(t@[from + j]));
    }
    true
}

/// `16 * h + l` for two hex digits.
fn hex_byte(h: char, l: char) -> (r: u8)
    requires
        is_hex_digit(h),
        is_hex_digit(l),
    ensures
        r == 16 * hex_value(h) + hex_value(l),
{
    16 * hex_value_exec(h) + hex_value_exec(l)
}

fn parse_bin(t: &Vec<char>) -> (r: Option<u8>)
    requires
        t@.len() >= 2,
    ensures
        r == (if 1 <= t@.len() - 2 <= 8 && all_bin(t@.skip(2)) {
            Some(bin_value(t@.skip(2)) as u8)
        } else {
            None::<u8>
        }),
{
    let n = t.len();
    if n < 3 || n > 10 {
        return None;
    }
    let ghost d = t@.skip(2);
    let mut v: u16 = 0;
    let mut i: usize = 2;
    assert(d.take(0) =~= Seq::<char>::empty());
    while i < n
        invariant
            2 <= i <= n,
            n == t@.len(),
            n <= 10,
            d == t@.skip(2),
            all_bin(d.take(i - 2)),
            v as int == bin_value(d.take(i - 2)),
            v < pow2_of(i - 2),
        decreases n - i,
    {
        let c = t[i];
        if c != '0' && c != '1' {
            assert(!(d[i - 2] == '0' || d[i - 2] == '1'));
            return None;
        }
        assert(d.take(i - 1).drop_last() =~= d.take(i - 2));
        assert(d.take(i - 1).last() == c);
        v = 2 * v + if c == '1' { 1 } else { 0 };
        i += 1;
    }
    assert(d.take(n - 2) =~= d);
    Some(v as u8)
}

/// `2` to the power `k`, for `k` up to 8.
pub open spec fn pow2_of(k: int) -> int {
    if k <= 0 {
        1
    } else if k == 1 {
        2
    } else if k == 2 {
        4
    } else if k == 3 {
        8
    } else if k == 4 {
        16
    } else if k == 5 {
        32
    } else if k == 6 {
        64
    } else if k == 7 {
        128
    } else {
        256
    }
}

fn decode_exec(t: &Vec<char>) -> (r: Option<Vec<u8>>)
    requires
        t@.len() >= 1,
    ensures
        match r {
            Some(b) => decode_string(t@.drop_first(), false) == Some(b@),
            None => decode_string(t@.drop_first(), false) is None,
        },
{
    let mut out: Vec<u8> = Vec::new();
    let mut escape = false;
    let mut i: usize = 1;
    assert(t@.skip(1) =~= t@.drop_first());
    assert(Seq::<u8>::empty() + Seq::<u8>::empty() =~= Seq::<u8>::empty());
    while i < t.len()
        invariant
            1 <= i <= t@.len(),
            decode_string(t@.drop_first(), false) == prepend(
                out@,
                decode_string(t@.skip(i as int), escape),
            ),
        decreases t.len() - i,
    {
        let c = t[i];
        let ghost rest = t@.skip(i as int);
        assert(rest.drop_first() =~= t@.skip(i + 1));
        assert(rest[0] == c);
        let ghost before = out@;
        if c == '"' && !escape {
            assert(before + Seq::<u8>::empty() =~= before);
            return Some(out);
        } else if escape && (c == '0' || c == 'n' || c == 'r' || c == 't') {
            let b: u8 = if c == '0' {
                0
            } else if c == 'n' {
                10
            } else if c == 'r' {
                13
            } else {
                9
            };
            out.push(b);
            escape = false;
        } else if c == '\\' {
            if escape {
                out.push(92);
                escape = false;
            } else {
                escape = true;
            }
        } else {
            out.push((c as u32 % 256) as u8);
            escape = false;
        }
        proof {
            let o = decode_string(t@.skip(i + 1), escape);
            if o is Some {
                assert(before + (out@.subrange(before.len() as int, out@.len() as int) + o->0)
                    =~= out@ + o->0);
            }
            assert(out@.subrange(0, before.len() as int) =~= before);
        }
        i += 1;
    }
    None
}

fn data_chunks_exec(b: &Vec<u8>) -> (r: Vec<Chunk>)
    ensures
        chunk_views(r@) == data_chunks(b@),
{
    let mut r: Vec<Chunk> = Vec::new();
    let mut i: usize = 0;
    while i < b.len()
        invariant
            i <= b@.len(),
            r@.len() == i,
            forall|j: int| 0 <= j < i ==> r@[j]@ == ChunkView::Data(b@[j]),
        decreases b.len() - i,
    {
        r.push(Chunk::Data(b[i]));
        i += 1;
    }
    assert(chunk_views(r@) =~= data_chunks(b@));
    r
}

/// Parses one operand token into the bytes it stands for.
pub fn parse_value(t: &Vec<char>, line: usize) -> (r: Option<Vec<Chunk>>)
    ensures
        match r {
            Some(v) => parse_operand(t@, line as nat) == Some(chunk_views(v@)),
            None => parse_operand(t@, line as nat) is None,
        },
{
    let n = t.len();
    if n >= 2 && t[0] == '0' && t[1] == 'x' {
        if (n == 4 || n == 6) && all_hex_from(t, 2) {
            proof {
                assert(is_hex_digit(t@.skip(2)[0]));
                assert(is_hex_digit(t@.skip(2)[1]));
            }
            if n == 4 {
                let v = hex_byte(t[2], t[3]);
                let r = vec![Chunk::Data(v)];
                assert(chunk_views(r@) =~= seq![ChunkView::Data(v)]);
                Some(r)
            } else {
                proof {
                    assert(is_hex_digit(t@.skip(2)[2]));
                    assert(is_hex_digit(t@.skip(2)[3]));
                }
                let lo = hex_byte(t[4], t[5]);
                let hi = hex_byte(t[2], t[3]);
                let r = vec![Chunk::Data(lo), Chunk::Data(hi)];
                assert(chunk_views(r@) =~= seq![ChunkView::Data(lo), ChunkView::Data(hi)]);
                Some(r)
            }
        } else {
            None
        }
    } else if n >= 2 && t[0] == '0' && t[1] == 'b' {
        match parse_bin(t) {
            Some(v) => {
                let r = vec![Chunk::Data(v)];
                assert(chunk_views(r@) =~= seq![ChunkView::Data(v)]);
                Some(r)
            },
            None => None,
        }
    } else if n >= 1 && t[0] == ':' {
        let name = crate::text::slice_chars(t, 1, n);
        let name2 = copy_chars(&name);
        assert(name@ =~= t@.drop_first());
        let r = vec![Chunk::LabelLow(name, line), Chunk::LabelHigh(name2, line)];
        assert(chunk_views(r@) =~= seq![
            ChunkView::LabelLow(t@.drop_first(), line as nat),
            ChunkView::LabelHigh(t@.drop_first(), line as nat),
        ]);
        Some(r)
    } else if n == 3 && t[0] == '\'' && t[2] == '\'' && (t[1] as u32) < 128 {
        let r = vec![Chunk::Data(t[1] as u32 as u8)];
        assert(chunk_views(r@) =~= seq![ChunkView::Data(t@[1] as u32 as u8)]);
        Some(r)
    } else if n >= 3 && t[0] == '"' && t[n - 1] == '"' {
        match decode_exec(t) {
            Some(b) => if b.len() > 0 {
                Some(data_chunks_exec(&b))
            } else {
                None
            },
            None => None,
        }
    } else {
        None
    }
}

} // verus!
