use vstd::prelude::*;
use crate::assembler::{
    assemble_spec, chunk_byte, encode_line, encode_step, encode_upto, is_data_line,
    is_ignored_line, is_label_line, label_address, label_scan, labels_of, program_chunks,
    resolve_upto, splice, splice_upto, AssembleFault, EncState,
};
use crate::instructions::{lookup_name, Instruction};
use crate::operand::ChunkView;
use crate::semantics::{step_spec, MachineFault, MachineState};
use crate::stack::{spec_peek, spec_pop, spec_push, spec_top, STACK_CAPACITY};
use crate::text::{lines_of, tokens_of, trim};

verus! {

/// An instruction line is encoded as exactly `1 + bytes_per_arg * num_args`
/// bytes: the opcode of the instruction its mnemonic names, carrying the labels
/// declared just above it, followed by the operand bytes; what was encoded
/// before stays as it was.
pub proof fn law_instruction_encoding(st: EncState, raw: Seq<char>, line: nat)
    requires
        !is_ignored_line(trim(raw)),
        !is_label_line(trim(raw)),
        !is_data_line(trim(raw)),
        encode_step(st, raw, line) is Ok,
    ensures
        exists|inst: Instruction|
            {
                &&& lookup_name(tokens_of(trim(raw))[0]) == Some(inst)
                &&& encode_step(st, raw, line)->Ok_0.chunks.len() == st.chunks.len()
                    + inst.encoded_len()
                &&& encode_step(st, raw, line)->Ok_0.chunks.take(st.chunks.len() as int)
                    == st.chunks
                &&& encode_step(st, raw, line)->Ok_0.chunks[st.chunks.len() as int]
                    == ChunkView::OpCode(inst.op_code, st.pending)
            },
{
    let t = trim(raw);
    let (op, ops) = encode_line(t, line)->Ok_0;
    let inst = lookup_name(tokens_of(t)[0])->Some_0;
    let cs = encode_step(st, raw, line)->Ok_0.chunks;
    assert(encode_line(t, line) is Ok);
    assert(op == inst.op_code && ops.len() == inst.operand_width());
    assert(cs == st.chunks.push(ChunkView::OpCode(op, st.pending)) + ops);
    assert(cs.take(st.chunks.len() as int) =~= st.chunks);
    assert(cs[st.chunks.len() as int] == ChunkView::OpCode(op, st.pending));
    assert(cs.len() == st.chunks.len() + inst.encoded_len());
}

/// Resolving labels emits exactly one byte for each intermediate byte, in
/// order; opcodes and data bytes come out unchanged.
pub proof fn law_resolution_keeps_layout(cs: Seq<ChunkView>, out: Seq<u8>)
    requires
        resolve_upto(cs, cs.len()) == Ok::<Seq<u8>, AssembleFault>(out),
    ensures
        out.len() == cs.len(),
        forall|i: int| 0 <= i < cs.len() ==> chunk_byte(cs, cs[i]) == Some(out[i]),
        forall|i: int, b: u8, ls: Seq<Seq<char>>|
            0 <= i < cs.len() && cs[i] == ChunkView::OpCode(b, ls) ==> out[i] == b,
        forall|i: int, b: u8| 0 <= i < cs.len() && cs[i] == ChunkView::Data(b) ==> out[i] == b,
{
    lemma_resolve_prefix(cs, cs.len(), out);
}

proof fn lemma_resolve_prefix(cs: Seq<ChunkView>, n: nat, out: Seq<u8>)
    requires
        n <= cs.len(),
        resolve_upto(cs, n) == Ok::<Seq<u8>, AssembleFault>(out),
    ensures
        out.len() == n,
        forall|i: int| 0 <= i < n ==> chunk_byte(cs, cs[i]) == Some(out[i]),
    decreases n,
{
    if n > 0 {
        let prev = resolve_upto(cs, (n - 1) as nat)->Ok_0;
        lemma_resolve_prefix(cs, (n - 1) as nat, prev);
        assert(out == prev.push(chunk_byte(cs, cs[n - 1])->Some_0));
        assert forall|i: int| 0 <= i < n implies chunk_byte(cs, cs[i]) == Some(out[i]) by {
            if i < n - 1 {
                assert(out[i] == prev[i]);
            }
        }
    }
}

/// Assembling depends on the source text alone: assembling the same text
/// twice gives the same outcome, byte for byte.
pub proof fn law_assemble_deterministic(
    src: Seq<char>,
    first: Result<Seq<u8>, AssembleFault>,
    second: Result<Seq<u8>, AssembleFault>,
)
    requires
        first == assemble_spec(src),
        second == assemble_spec(src),
    ensures
        first == second,
{
}

/// The stack after pushing `xs` in order.
pub open spec fn push_all(s: Seq<u16>, xs: Seq<u16>) -> Seq<u16>
    decreases xs.len(),
{
    if xs.len() == 0 {
        s
    } else {
        spec_push(push_all(s, xs.drop_last()), xs.last())
    }
}

/// The most recent `STACK_CAPACITY` values of `t` (all of them if there are fewer).
pub open spec fn latest(t: Seq<u16>) -> Seq<u16> {
    if t.len() <= STACK_CAPACITY {
        t
    } else {
        t.skip(t.len() - STACK_CAPACITY)
    }
}

/// A bounded stack keeps exactly the most recently pushed values: after any
/// run of pushes it holds the latest `STACK_CAPACITY` values, the older ones
/// having been discarded; and popping an empty stack gives 0.
pub proof fn law_stack_keeps_latest(s: Seq<u16>, xs: Seq<u16>)
    requires
        s.len() <= STACK_CAPACITY,
    ensures
        push_all(s, xs) == latest(s + xs),
        spec_top(Seq::<u16>::empty()) == 0,
        spec_pop(Seq::<u16>::empty()) == Seq::<u16>::empty(),
    decreases xs.len(),
{
    if xs.len() > 0 {
        let init = xs.drop_last();
        let x = xs.last();
        law_stack_keeps_latest(s, init);
        let u = s + init;
        assert(s + xs =~= u.push(x));
        if u.len() < STACK_CAPACITY {
            assert(push_all(s, xs) =~= latest(s + xs));
        } else {
            assert(latest(u).drop_first().push(x) =~= u.push(x).skip(
                u.push(x).len() - STACK_CAPACITY,
            ));
        }
    } else {
        assert(s + xs =~= s);
    }
}

/// `DIV` with a zero divisor is reported as a fault, and the state is left
/// as it was.
pub proof fn law_div_by_zero_is_reported(m: MachineState)
    requires
        m.valid(),
        m.memory[m.ip as int] == 0x26,
        spec_peek(m.stack, 1) == 0,
    ensures
        step_spec(m) == Err::<MachineState, MachineFault>(MachineFault::DivideByZero),
{
}

/// An intermediate byte that is final as it stands: not a label reference.
pub open spec fn is_plain(c: ChunkView) -> bool {
    c is Data || c is OpCode
}

pub open spec fn all_plain(cs: Seq<ChunkView>) -> bool {
    forall|i: int| 0 <= i < cs.len() ==> is_plain(#[trigger] cs[i])
}

/// The byte of a data or opcode byte.
pub open spec fn plain_byte(c: ChunkView) -> u8 {
    match c {
        ChunkView::Data(b) => b,
        ChunkView::OpCode(b, _) => b,
        _ => 0,
    }
}

pub open spec fn plain_bytes(cs: Seq<ChunkView>) -> Seq<u8> {
    cs.map_values(|c: ChunkView| plain_byte(c))
}

proof fn lemma_resolve_plain(cs: Seq<ChunkView>, n: nat)
    requires
        n <= cs.len(),
        all_plain(cs),
    ensures
        resolve_upto(cs, n) == Ok::<Seq<u8>, AssembleFault>(plain_bytes(cs.take(n as int))),
    decreases n,
{
    if n > 0 {
        lemma_resolve_plain(cs, (n - 1) as nat);
        assert(is_plain(cs[n - 1]));
        assert(plain_bytes(cs.take(n - 1)).push(plain_byte(cs[n - 1])) =~= plain_bytes(
            cs.take(n as int),
        ));
    } else {
        assert(plain_bytes(cs.take(0)) =~= Seq::<u8>::empty());
    }
}

/// What assembling gives when the program's intermediate bytes are `cs`.
proof fn lemma_assemble_from_chunks(src: Seq<char>, cs: Seq<ChunkView>)
    requires
        program_chunks(src) == Ok::<Seq<ChunkView>, AssembleFault>(cs),
    ensures
        assemble_spec(src) == resolve_upto(cs, cs.len()),
{
}

/// Placing a `.DATA` entry: when its address lies below the end of the code,
/// assembling fails with `DataOverlapError`; otherwise the code is followed by
/// zero bytes up to the address and then by the entry's bytes, which without
/// label references is exactly the assembled output.
pub proof fn law_data_placement(src: Seq<char>, st: EncState)
    requires
        label_scan(lines_of(src), lines_of(src).len()) is Ok,
        encode_upto(lines_of(src), lines_of(src).len()) == Ok::<EncState, AssembleFault>(st),
        st.data.len() == 1,
    ensures
        (st.data[0].address as nat) < st.chunks.len() ==> assemble_spec(src) == Err::<
            Seq<u8>,
            AssembleFault,
        >(AssembleFault::DataOverlapError { address: st.data[0].address, line: st.data[0].line }),
        (st.data[0].address as nat) >= st.chunks.len() ==> program_chunks(src) == Ok::<
            Seq<ChunkView>,
            AssembleFault,
        >(
            st.chunks + Seq::new(
                (st.data[0].address - st.chunks.len()) as nat,
                |i: int| ChunkView::Data(0),
            ) + st.data[0].bytes,
        ),
        (st.data[0].address as nat) >= st.chunks.len() && all_plain(st.chunks) && all_plain(
            st.data[0].bytes,
        ) ==> assemble_spec(src) == Ok::<Seq<u8>, AssembleFault>(
            plain_bytes(st.chunks) + Seq::new(
                (st.data[0].address - st.chunks.len()) as nat,
                |i: int| 0u8,
            ) + plain_bytes(st.data[0].bytes),
        ),
{
    let d = st.data[0];
    assert(splice_upto(st.chunks, st.data, 0) == Ok::<Seq<ChunkView>, AssembleFault>(st.chunks));
    assert(splice_upto(st.chunks, st.data, 1) == splice(st.chunks, d));
    if (d.address as nat) >= st.chunks.len() && all_plain(st.chunks) && all_plain(d.bytes) {
        let zeros = Seq::new((d.address - st.chunks.len()) as nat, |i: int| ChunkView::Data(0));
        let cs = st.chunks + zeros + d.bytes;
        assert(all_plain(cs)) by {
            assert forall|i: int| 0 <= i < cs.len() implies is_plain(#[trigger] cs[i]) by {
                if i < st.chunks.len() {
                } else if i < st.chunks.len() + zeros.len() {
                    assert(cs[i] == zeros[i - st.chunks.len()]);
                } else {
                    assert(cs[i] == d.bytes[i - st.chunks.len() - zeros.len()]);
                }
            }
        }
        lemma_assemble_from_chunks(src, cs);
        lemma_resolve_plain(cs, cs.len());
        assert(cs.take(cs.len() as int) =~= cs);
        assert(plain_bytes(cs) =~= plain_bytes(st.chunks) + Seq::new(
            (d.address - st.chunks.len()) as nat,
            |i: int| 0u8,
        ) + plain_bytes(d.bytes));
    }
}

/// A label reference is resolved to the position, in the assembled output, of
/// the first opcode that carries the label: the low byte of that position
/// comes first, then the high byte, and the opcode itself stands at that
/// position.
pub proof fn law_label_reference(
    src: Seq<char>,
    cs: Seq<ChunkView>,
    out: Seq<u8>,
    p: int,
    name: Seq<char>,
    line: nat,
)
    requires
        program_chunks(src) == Ok::<Seq<ChunkView>, AssembleFault>(cs),
        assemble_spec(src) == Ok::<Seq<u8>, AssembleFault>(out),
        0 <= p,
        p + 1 < cs.len(),
        cs[p] == ChunkView::LabelLow(name, line),
        cs[p + 1] == ChunkView::LabelHigh(name, line),
    ensures
        exists|q: int|
            {
                &&& 0 <= q < out.len()
                &&& cs[q] is OpCode
                &&& labels_of(cs[q]).contains(name)
                &&& forall|j: int| 0 <= j < q ==> !labels_of(cs[j]).contains(name)
                &&& out[q] == cs[q]->OpCode_0
                &&& out[p] == (q % 256) as u8
                &&& out[p + 1] == ((q / 256) % 256) as u8
            },
{
    lemma_assemble_from_chunks(src, cs);
    law_resolution_keeps_layout(cs, out);
    assert(chunk_byte(cs, cs[p]) == Some(out[p]));
    assert(chunk_byte(cs, cs[p + 1]) == Some(out[p + 1]));
    assert(label_address(cs, name) is Some);
    let q = choose|q: int| crate::assembler::is_first_labelled(cs, q, name);
    assert(label_address(cs, name) == Some(q));
    assert(cs[q] is OpCode) by {
        if !(cs[q] is OpCode) {
            assert(labels_of(cs[q]) == Seq::<Seq<char>>::empty());
        }
    }
    assert(chunk_byte(cs, cs[q]) == Some(out[q]));
}

/// Lines other than instructions add no bytes: a label line adds its name to
/// the labels that the next instruction will carry, and blank, comment and
/// `.DATA` lines leave those labels as they are.
pub proof fn law_label_lines_attach_forward(st: EncState, raw: Seq<char>, line: nat)
    requires
        is_ignored_line(trim(raw)) || is_label_line(trim(raw)) || is_data_line(trim(raw)),
        encode_step(st, raw, line) is Ok,
    ensures
        encode_step(st, raw, line)->Ok_0.chunks == st.chunks,
        is_label_line(trim(raw)) && !is_ignored_line(trim(raw)) ==> encode_step(
            st,
            raw,
            line,
        )->Ok_0.pending == st.pending.push(trim(raw).drop_first()),
        !is_label_line(trim(raw)) || is_ignored_line(trim(raw)) ==> encode_step(
            st,
            raw,
            line,
        )->Ok_0.pending == st.pending,
{
}

/// A line that is an instruction whose operands hold no label reference.
pub open spec fn plain_instruction_line(t: Seq<char>, line: nat) -> bool {
    &&& !is_ignored_line(t)
    &&& !is_label_line(t)
    &&& !is_data_line(t)
    &&& encode_line(t, line) is Ok
    &&& all_plain(encode_line(t, line)->Ok_0.1)
}

/// The bytes a trimmed line assembles to when it is blank, a comment, or an
/// instruction without label references: the opcode, then the operand bytes.
pub open spec fn line_bytes(t: Seq<char>, line: nat) -> Seq<u8> {
    if is_ignored_line(t) {
        Seq::empty()
    } else {
        seq![encode_line(t, line)->Ok_0.0] + plain_bytes(encode_line(t, line)->Ok_0.1)
    }
}

/// The bytes of the first `n` lines, one line after the other.
pub open spec fn program_bytes(lines: Seq<Seq<char>>, n: nat) -> Seq<u8>
    decreases n,
{
    if n == 0 {
        Seq::empty()
    } else {
        program_bytes(lines, (n - 1) as nat) + line_bytes(trim(lines[n - 1]), n)
    }
}

pub open spec fn all_plain_lines(lines: Seq<Seq<char>>) -> bool {
    forall|i: int|
        0 <= i < lines.len() ==> is_ignored_line(trim(#[trigger] lines[i]))
            || plain_instruction_line(trim(lines[i]), (i + 1) as nat)
}

proof fn lemma_plain_prefix(lines: Seq<Seq<char>>, n: nat)
    requires
        n <= lines.len(),
        all_plain_lines(lines),
    ensures
        label_scan(lines, n) == Ok::<Seq<Seq<char>>, AssembleFault>(Seq::empty()),
        encode_upto(lines, n) is Ok,
        encode_upto(lines, n)->Ok_0.pending == Seq::<Seq<char>>::empty(),
        encode_upto(lines, n)->Ok_0.data.len() == 0,
        all_plain(encode_upto(lines, n)->Ok_0.chunks),
        plain_bytes(encode_upto(lines, n)->Ok_0.chunks) == program_bytes(lines, n),
    decreases n,
{
    if n == 0 {
        assert(plain_bytes(Seq::<ChunkView>::empty()) =~= Seq::<u8>::empty());
    } else {
        lemma_plain_prefix(lines, (n - 1) as nat);
        let st = encode_upto(lines, (n - 1) as nat)->Ok_0;
        let t = trim(lines[n - 1]);
        assert(is_ignored_line(t) || plain_instruction_line(t, n));
        if !is_ignored_line(t) {
            let (op, ops) = encode_line(t, n)->Ok_0;
            let cs = st.chunks.push(ChunkView::OpCode(op, st.pending)) + ops;
            assert(encode_upto(lines, n)->Ok_0.chunks == cs);
            assert(all_plain(cs)) by {
                assert forall|i: int| 0 <= i < cs.len() implies is_plain(#[trigger] cs[i]) by {
                    if i < st.chunks.len() {
                        assert(cs[i] == st.chunks[i]);
                    } else if i > st.chunks.len() {
                        assert(cs[i] == ops[i - st.chunks.len() - 1]);
                    }
                }
            }
            assert(plain_bytes(cs) =~= plain_bytes(st.chunks) + (seq![op] + plain_bytes(ops)));
        } else {
            assert(program_bytes(lines, (n - 1) as nat) + Seq::<u8>::empty() =~= program_bytes(
                lines,
                (n - 1) as nat,
            ));
        }
    }
}

/// A program of instruction lines (blank and comment lines allowed) without
/// labels or `.DATA` assembles to the encodings of its lines, one after the
/// other; each instruction line gives exactly `1 + bytes_per_arg * num_args`
/// bytes, opcode first.
pub proof fn law_program_encoding(src: Seq<char>)
    requires
        all_plain_lines(lines_of(src)),
    ensures
        assemble_spec(src) == Ok::<Seq<u8>, AssembleFault>(
            program_bytes(lines_of(src), lines_of(src).len()),
        ),
        forall|i: int|
            #![trigger lines_of(src)[i]]
            0 <= i < lines_of(src).len() && !is_ignored_line(trim(lines_of(src)[i])) ==> {
                let t = trim(lines_of(src)[i]);
                &&& lookup_name(tokens_of(t)[0]) is Some
                &&& line_bytes(t, (i + 1) as nat).len() == lookup_name(
                    tokens_of(t)[0],
                )->0.encoded_len()
                &&& line_bytes(t, (i + 1) as nat)[0] == lookup_name(tokens_of(t)[0])->0.op_code
            },
{
    let lines = lines_of(src);
    lemma_plain_prefix(lines, lines.len());
    let st = encode_upto(lines, lines.len())->Ok_0;
    assert(splice_upto(st.chunks, st.data, 0) == Ok::<Seq<ChunkView>, AssembleFault>(st.chunks));
    lemma_assemble_from_chunks(src, st.chunks);
    lemma_resolve_plain(st.chunks, st.chunks.len());
    assert(st.chunks.take(st.chunks.len() as int) =~= st.chunks);
    assert forall|i: int|
        #![trigger lines_of(src)[i]]
        0 <= i < lines.len() && !is_ignored_line(trim(lines[i])) implies {
        let t = trim(lines[i]);
        &&& lookup_name(tokens_of(t)[0]) is Some
        &&& line_bytes(t, (i + 1) as nat).len() == lookup_name(tokens_of(t)[0])->0.encoded_len()
        &&& line_bytes(t, (i + 1) as nat)[0] == lookup_name(tokens_of(t)[0])->0.op_code
    } by {
        let t = trim(lines[i]);
        assert(plain_instruction_line(t, (i + 1) as nat));
        assert(encode_line(t, (i + 1) as nat) is Ok);
    }
}

} // verus!
