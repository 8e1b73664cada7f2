use vstd::prelude::*;
use crate::instructions::{find_inst_by_chars, lookup_name};
use crate::operand::{chunk_views, parse_operand, parse_value, Chunk, ChunkView};
use crate::text::{
    chars_eq, chars_of, copy_chars, lines_of, slice_chars, split_line, split_lines, tokens_of,
    trim, trim_chars, views,
};

verus! {

/// Why a program could not be assembled; `line` is the 1-based source line.
#[derive(Debug, PartialEq, Eq)]
pub enum AssembleError {
    /// The mnemonic is not in the catalog.
    UnknownInstruction { line: usize },
    /// The number of operands differs from what the instruction declares.
    ArgumentCountMismatch { line: usize, expected: usize, found: usize },
    /// The operands encode to more bytes than the instruction takes.
    OperandTooWide { line: usize, expected: usize, found: usize },
    /// The operands encode to fewer bytes than the instruction takes.
    OperandTooNarrow { line: usize, expected: usize, found: usize },
    /// An operand matches no form of the operand grammar.
    UnparsableOperand { line: usize },
    /// A label is declared a second time.
    DuplicateLabel { name: Vec<char>, line: usize },
    /// A label is referred to but labels no instruction.
    UndefinedLabel { name: Vec<char>, line: usize },
    /// The address of a `.DATA` directive is not a literal.
    DataAddressError { line: usize },
    /// The address of a `.DATA` directive is not exactly two bytes.
    DataAddressLengthError { line: usize },
    /// The value of a `.DATA` directive matches no form of the operand grammar.
    DataValueError { line: usize },
    /// A `.DATA` directive does not have exactly an address and a value.
    DataLengthError { line: usize },
    /// A `.DATA` address lies below the end of what precedes it.
    DataOverlapError { address: u16, line: usize },
}

/// An `AssembleError` as mathematical values.
pub enum AssembleFault {
    UnknownInstruction { line: nat },
    ArgumentCountMismatch { line: nat, expected: nat, found: nat },
    OperandTooWide { line: nat, expected: nat, found: nat },
    OperandTooNarrow { line: nat, expected: nat, found: nat },
    UnparsableOperand { line: nat },
    DuplicateLabel { name: Seq<char>, line: nat },
    UndefinedLabel { name: Seq<char>, line: nat },
    DataAddressError { line: nat },
    DataAddressLengthError { line: nat },
    DataValueError { line: nat },
    DataLengthError { line: nat },
    DataOverlapError { address: u16, line: nat },
}

impl View for AssembleError {
    type V = AssembleFault;

    open spec fn view(&self) -> AssembleFault {
        match self {
            AssembleError::UnknownInstruction { line } => AssembleFault::UnknownInstruction {
                line: *line as nat,
            },
            AssembleError::ArgumentCountMismatch { line, expected, found } =>
                AssembleFault::ArgumentCountMismatch {
                line: *line as nat,
                expected: *expected as nat,
                found: *found as nat,
            },
            AssembleError::OperandTooWide { line, expected, found } =>
                AssembleFault::OperandTooWide {
                line: *line as nat,
                expected: *expected as nat,
                found: *found as nat,
            },
            AssembleError::OperandTooNarrow { line, expected, found } =>
                AssembleFault::OperandTooNarrow {
                line: *line as nat,
                expected: *expected as nat,
                found: *found as nat,
            },
            AssembleError::UnparsableOperand { line } => AssembleFault::UnparsableOperand {
                line: *line as nat,
            },
            AssembleError::DuplicateLabel { name, line } => AssembleFault::DuplicateLabel {
                name: name@,
                line: *line as nat,
            },
            AssembleError::UndefinedLabel { name, line } => AssembleFault::UndefinedLabel {
                name: name@,
                line: *line as nat,
            },
            AssembleError::DataAddressError { line } => AssembleFault::DataAddressError {
                line: *line as nat,
            },
            AssembleError::DataAddressLengthError { line } =>
                AssembleFault::DataAddressLengthError { line: *line as nat },
            AssembleError::DataValueError { line } => AssembleFault::DataValueError {
                line: *line as nat,
            },
            AssembleError::DataLengthError { line } => AssembleFault::DataLengthError {
                line: *line as nat,
            },
            AssembleError::DataOverlapError { address, line } =>
                AssembleFault::DataOverlapError { address: *address, line: *line as nat },
        }
    }
}

/// A `.DATA` directive waiting to be placed: its address, its bytes and its line.
pub struct DataEntry {
    pub address: u16,
    pub bytes: Seq<ChunkView>,
    pub line: nat,
}

/// What encoding has produced so far: the bytes of the code, the labels
/// declared since the last instruction, and the pending `.DATA` directives.
pub struct EncState {
    pub chunks: Seq<ChunkView>,
    pub pending: Seq<Seq<char>>,
    pub data: Seq<DataEntry>,
}

/// A trimmed line declaring a label.
pub open spec fn is_label_line(t: Seq<char>) -> bool {
    t.len() > 0 && t[0] == ':'
}

/// A trimmed line that is blank or a comment.
pub open spec fn is_ignored_line(t: Seq<char>) -> bool {
    t.len() == 0 || t[0] == '#'
}

/// A trimmed line that is a `.DATA` directive.
pub open spec fn is_data_line(t: Seq<char>) -> bool {
    t.len() >= 5 && t.take(5) == seq!['.', 'D', 'A', 'T', 'A']
}

/// The label names declared on the first `n` lines, in order, or the first
/// redefinition among them.
pub open spec fn label_scan(lines: Seq<Seq<char>>, n: nat) -> Result<Seq<Seq<char>>, AssembleFault>
    decreases n,
{
    if n == 0 {
        Ok(Seq::empty())
    } else {
        match label_scan(lines, (n - 1) as nat) {
            Err(e) => Err(e),
            Ok(seen) => {
                let t = trim(lines[n - 1]);
                if is_label_line(t) {
                    if seen.contains(t.drop_first()) {
                        Err(AssembleFault::DuplicateLabel { name: t.drop_first(), line: n })
                    } else {
                        Ok(seen.push(t.drop_first()))
                    }
                } else {
                    Ok(seen)
                }
            },
        }
    }
}

/// The bytes that operand tokens encode to, or `None` where one does not parse.
pub open spec fn parse_operands(toks: Seq<Seq<char>>, line: nat) -> Option<Seq<ChunkView>>
    decreases toks.len(),
{
    if toks.len() == 0 {
        Some(Seq::empty())
    } else {
        match (parse_operand(toks[0], line), parse_operands(toks.drop_first(), line)) {
            (Some(a), Some(b)) => Some(a + b),
            _ => None,
        }
    }
}

/// An instruction line: the opcode and the operand bytes.
pub open spec fn encode_line(t: Seq<char>, line: nat) -> Result<(u8, Seq<ChunkView>), AssembleFault> {
    let toks = tokens_of(t);
    if toks.len() == 0 {
        Err(AssembleFault::UnknownInstruction { line })
    } else {
        match lookup_name(toks[0]) {
            None => Err(AssembleFault::UnknownInstruction { line }),
            Some(inst) => if inst.num_args as nat != toks.len() - 1 {
                Err(
                    AssembleFault::ArgumentCountMismatch {
                        line,
                        expected: inst.num_args as nat,
                        found: (toks.len() - 1) as nat,
                    },
                )
            } else {
                match parse_operands(toks.drop_first(), line) {
                    None => Err(AssembleFault::UnparsableOperand { line }),
                    Some(ops) => if ops.len() > inst.operand_width() {
                        Err(
                            AssembleFault::OperandTooWide {
                                line,
                                expected: inst.operand_width(),
                                found: ops.len(),
                            },
                        )
                    } else if ops.len() < inst.operand_width() {
                        Err(
                            AssembleFault::OperandTooNarrow {
                                line,
                                expected: inst.operand_width(),
                                found: ops.len(),
                            },
                        )
                    } else {
                        Ok((inst.op_code, ops))
                    },
                }
            },
        }
    }
}

/// A `.DATA ADDR VALUE` directive.
pub open spec fn data_directive(t: Seq<char>, line: nat) -> Result<DataEntry, AssembleFault> {
    let toks = tokens_of(t);
    if toks.len() != 3 {
        Err(AssembleFault::DataLengthError { line })
    } else {
        match parse_operand(toks[1], line) {
            None => Err(AssembleFault::DataAddressError { line }),
            Some(a) => if a.len() != 2 {
                Err(AssembleFault::DataAddressLengthError { line })
            } else if !(a[0] is Data && a[1] is Data) {
                Err(AssembleFault::DataAddressError { line })
            } else {
                match parse_operand(toks[2], line) {
                    None => Err(AssembleFault::DataValueError { line }),
                    Some(v) => Ok(
                        DataEntry {
                            address: (a[0]->Data_0 + 256 * a[1]->Data_0) as u16,
                            bytes: v,
                            line,
                        },
                    ),
                }
            },
        }
    }
}

/// Encoding one more line, the `line`-th.
pub open spec fn encode_step(st: EncState, raw: Seq<char>, line: nat) -> Result<EncState, AssembleFault> {
    let t = trim(raw);
    if is_ignored_line(t) {
        Ok(st)
    } else if is_label_line(t) {
        Ok(EncState { pending: st.pending.push(t.drop_first()), ..st })
    } else if is_data_line(t) {
        match data_directive(t, line) {
            Err(e) => Err(e),
            Ok(d) => Ok(EncState { data: st.data.push(d), ..st }),
        }
    } else {
        match encode_line(t, line) {
            Err(e) => Err(e),
            Ok((op, ops)) => Ok(
                EncState {
                    chunks: st.chunks.push(ChunkView::OpCode(op, st.pending)) + ops,
                    pending: Seq::empty(),
                    ..st
                },
            ),
        }
    }
}

/// Encoding the first `n` lines.
pub open spec fn encode_upto(lines: Seq<Seq<char>>, n: nat) -> Result<EncState, AssembleFault>
    decreases n,
{
    if n == 0 {
        Ok(EncState { chunks: Seq::empty(), pending: Seq::empty(), data: Seq::empty() })
    } else {
        match encode_upto(lines, (n - 1) as nat) {
            Err(e) => Err(e),
            Ok(st) => encode_step(st, lines[n - 1], n),
        }
    }
}

/// Placing one `.DATA` entry: zero bytes up to its address, then its bytes.
pub open spec fn splice(cs: Seq<ChunkView>, d: DataEntry) -> Result<Seq<ChunkView>, AssembleFault> {
    if (d.address as nat) < cs.len() {
        Err(AssembleFault::DataOverlapError { address: d.address, line: d.line })
    } else {
        Ok(cs + Seq::new((d.address - cs.len()) as nat, |i: int| ChunkView::Data(0)) + d.bytes)
    }
}

/// Placing the first `n` `.DATA` entries in order.
pub open spec fn splice_upto(cs: Seq<ChunkView>, data: Seq<DataEntry>, n: nat) -> Result<Seq<ChunkView>, AssembleFault>
    decreases n,
{
    if n == 0 {
        Ok(cs)
    } else {
        match splice_upto(cs, data, (n - 1) as nat) {
            Err(e) => Err(e),
            Ok(c) => splice(c, data[n - 1]),
        }
    }
}

/// The labels an intermediate byte carries.
pub open spec fn labels_of(c: ChunkView) -> Seq<Seq<char>> {
    match c {
        ChunkView::OpCode(_, ls) => ls,
        _ => Seq::empty(),
    }
}

/// Position `i` holds the first opcode labelled `name`.
pub open spec fn is_first_labelled(cs: Seq<ChunkView>, i: int, name: Seq<char>) -> bool {
    &&& 0 <= i < cs.len()
    &&& labels_of(cs[i]).contains(name)
    &&& forall|j: int| 0 <= j < i ==> !labels_of(cs[j]).contains(name)
}

/// The address a label stands for: the position, in the final byte stream, of
/// the opcode it labels.
pub open spec fn label_address(cs: Seq<ChunkView>, name: Seq<char>) -> Option<int> {
    if exists|i: int| is_first_labelled(cs, i, name) {
        Some(choose|i: int| is_first_labelled(cs, i, name))
    } else {
        None
    }
}

/// The final byte for an intermediate byte of `cs`.
pub open spec fn chunk_byte(cs: Seq<ChunkView>, c: ChunkView) -> Option<u8> {
    match c {
        ChunkView::Data(b) => Some(b),
        ChunkView::OpCode(b, _) => Some(b),
        ChunkView::LabelLow(n, _) => match label_address(cs, n) {
            Some(a) => Some((a % 256) as u8),
            None => None,
        },
        ChunkView::LabelHigh(n, _) => match label_address(cs, n) {
            Some(a) => Some(((a / 256) % 256) as u8),
            None => None,
        },
    }
}

/// The error for a label reference that labels nothing.
pub open spec fn undefined_label(c: ChunkView) -> AssembleFault {
    match c {
        ChunkView::LabelLow(n, l) => AssembleFault::UndefinedLabel { name: n, line: l },
        ChunkView::LabelHigh(n, l) => AssembleFault::UndefinedLabel { name: n, line: l },
        _ => AssembleFault::UndefinedLabel { name: Seq::empty(), line: 0 },
    }
}

/// The final bytes for the first `n` intermediate bytes of `cs`.
pub open spec fn resolve_upto(cs: Seq<ChunkView>, n: nat) -> Result<Seq<u8>, AssembleFault>
    decreases n,
{
    if n == 0 {
        Ok(Seq::empty())
    } else {
        match resolve_upto(cs, (n - 1) as nat) {
            Err(e) => Err(e),
            Ok(out) => match chunk_byte(cs, cs[n - 1]) {
                Some(b) => Ok(out.push(b)),
                None => Err(undefined_label(cs[n - 1])),
            },
        }
    }
}

/// The intermediate bytes of a whole program: its code followed by its
/// `.DATA` entries.
pub open spec fn program_chunks(src: Seq<char>) -> Result<Seq<ChunkView>, AssembleFault> {
    let lines = lines_of(src);
    match label_scan(lines, lines.len()) {
        Err(e) => Err(e),
        Ok(_) => match encode_upto(lines, lines.len()) {
            Err(e) => Err(e),
            Ok(st) => splice_upto(st.chunks, st.data, st.data.len()),
        },
    }
}

/// What assembling a source text gives.
pub open spec fn assemble_spec(src: Seq<char>) -> Result<Seq<u8>, AssembleFault> {
    match program_chunks(src) {
        Err(e) => Err(e),
        Ok(cs) => resolve_upto(cs, cs.len()),
    }
}

proof fn lemma_label_scan_err(ls: Seq<Seq<char>>, n: nat, m: nat)
    requires
        n <= m,
        label_scan(ls, n) is Err,
    ensures
        label_scan(ls, m) == label_scan(ls, n),
    decreases m,
{
    if m > n {
        lemma_label_scan_err(ls, n, (m - 1) as nat);
    }
}

proof fn lemma_encode_err(ls: Seq<Seq<char>>, n: nat, m: nat)
    requires
        n <= m,
        encode_upto(ls, n) is Err,
    ensures
        encode_upto(ls, m) == encode_upto(ls, n),
    decreases m,
{
    if m > n {
        lemma_encode_err(ls, n, (m - 1) as nat);
    }
}

proof fn lemma_splice_err(cs: Seq<ChunkView>, data: Seq<DataEntry>, n: nat, m: nat)
    requires
        n <= m,
        splice_upto(cs, data, n) is Err,
    ensures
        splice_upto(cs, data, m) == splice_upto(cs, data, n),
    decreases m,
{
    if m > n {
        lemma_splice_err(cs, data, n, (m - 1) as nat);
    }
}

proof fn lemma_resolve_err(cs: Seq<ChunkView>, n: nat, m: nat)
    requires
        n <= m,
        resolve_upto(cs, n) is Err,
    ensures
        resolve_upto(cs, m) == resolve_upto(cs, n),
    decreases m,
{
    if m > n {
        lemma_resolve_err(cs, n, (m - 1) as nat);
    }
}

/// `p` in front of what `o` holds.
pub open spec fn prepend_chunks(p: Seq<ChunkView>, o: Option<Seq<ChunkView>>) -> Option<Seq<ChunkView>> {
    match o {
        Some(x) => Some(p + x),
        None => None,
    }
}

/// Whether `name` is among `names`.
fn contains_name(names: &Vec<Vec<char>>, name: &Vec<char>) -> (r: bool)
    ensures
        r == views(names@).contains(name@),
{
    let mut i: usize = 0;
    while i < names.len()
        invariant
            i <= names@.len(),
            forall|j: int| 0 <= j < i ==> names@[j]@ != name@,
        decreases names.len() - i,
    {
        if chars_eq(&names[i], name) {
            assert(views(names@)[i as int] == name@);
            return true;
        }
        i += 1;
    }
    assert forall|j: int| 0 <= j < views(names@).len() implies views(names@)[j] != name@ by {
        assert(views(names@)[j] == names@[j]@);
    }
    false
}

fn scan_labels(lines: &Vec<Vec<char>>) -> (r: Result<(), AssembleError>)
    ensures
        match r {
            Ok(_) => label_scan(views(lines@), lines@.len()) is Ok,
            Err(e) => label_scan(views(lines@), lines@.len()) == Err::<Seq<Seq<char>>, AssembleFault>(e@),
        },
{
    let ghost ls = views(lines@);
    let mut seen: Vec<Vec<char>> = Vec::new();
    let mut i: usize = 0;
    assert(views(seen@) =~= Seq::<Seq<char>>::empty());
    while i < lines.len()
        invariant
            i <= lines@.len(),
            ls == views(lines@),
            label_scan(ls, i as nat) == Ok::<Seq<Seq<char>>, AssembleFault>(views(seen@)),
        decreases lines.len() - i,
    {
        let t = trim_chars(&lines[i]);
        assert(ls[i as int] == lines@[i as int]@);
        if t.len() > 0 && t[0] == ':' {
            let name = slice_chars(&t, 1, t.len());
            assert(name@ =~= t@.drop_first());
            if contains_name(&seen, &name) {
                proof {
                    lemma_label_scan_err(ls, (i + 1) as nat, lines@.len());
                }
                return Err(AssembleError::DuplicateLabel { name, line: i + 1 });
            }
            seen.push(name);
            assert(views(seen@) =~= label_scan(ls, i as nat)->Ok_0.push(t@.drop_first()));
        }
        i += 1;
    }
    Ok(())
}

/// Parses the operand tokens `toks[from..]`.
fn parse_operand_tokens(toks: &Vec<Vec<char>>, from: usize, line: usize) -> (r: Option<Vec<Chunk>>)
    requires
        from <= toks@.len(),
    ensures
        match r {
            Some(v) => parse_operands(views(toks@).skip(from as int), line as nat) == Some(chunk_views(v@)),
            None => parse_operands(views(toks@).skip(from as int), line as nat) is None,
        },
{
    let ghost ts = views(toks@);
    let mut acc: Vec<Chunk> = Vec::new();
    let mut i = from;
    assert(chunk_views(acc@) + parse_operands(ts.skip(from as int), line as nat).unwrap_or(Seq::empty())
        =~= parse_operands(ts.skip(from as int), line as nat).unwrap_or(Seq::empty()));
    assert(parse_operands(ts.skip(from as int), line as nat) == prepend_chunks(
        chunk_views(acc@),
        parse_operands(ts.skip(from as int), line as nat),
    )) by {
        assert(chunk_views(acc@) =~= Seq::<ChunkView>::empty());
        match parse_operands(ts.skip(from as int), line as nat) {
            Some(x) => { assert(Seq::<ChunkView>::empty() + x =~= x); },
            None => {},
        }
    }
    while i < toks.len()
        invariant
            from <= i <= toks@.len(),
            ts == views(toks@),
            parse_operands(ts.skip(from as int), line as nat) == prepend_chunks(
                chunk_views(acc@),
                parse_operands(ts.skip(i as int), line as nat),
            ),
        decreases toks.len() - i,
    {
        assert(ts.skip(i as int)[0] == toks@[i as int]@);
        assert(ts.skip(i as int).drop_first() =~= ts.skip(i + 1));
        match parse_value(&toks[i], line) {
            None => {
                return None;
            },
            Some(mut v) => {
                let ghost before = chunk_views(acc@);
                let ghost vv = chunk_views(v@);
                acc.append(&mut v);
                assert(chunk_views(acc@) =~= before + vv);
                proof {
                    match parse_operands(ts.skip(i + 1), line as nat) {
                        Some(x) => {
                            assert(before + (vv + x) =~= (before + vv) + x);
                        },
                        None => {},
                    }
                }
            },
        }
        i += 1;
    }
    assert(ts.skip(i as int) =~= Seq::<Seq<char>>::empty());
    assert(chunk_views(acc@) + Seq::<ChunkView>::empty() =~= chunk_views(acc@));
    Some(acc)
}

/// Encodes an instruction line (already trimmed).
fn encode_instruction(t: &Vec<char>, line: usize) -> (r: Result<(u8, Vec<Chunk>), AssembleError>)
    ensures
        match r {
            Ok((op, ops)) => encode_line(t@, line as nat) == Ok::<(u8, Seq<ChunkView>), AssembleFault>((op, chunk_views(ops@))),
            Err(e) => encode_line(t@, line as nat) == Err::<(u8, Seq<ChunkView>), AssembleFault>(e@),
        },
{
    let toks = split_line(t);
    if toks.len() == 0 {
        return Err(AssembleError::UnknownInstruction { line });
    }
    assert(views(toks@)[0] == toks@[0]@);
    let inst = match find_inst_by_chars(&toks[0]) {
        None => {
            return Err(AssembleError::UnknownInstruction { line });
        },
        Some(i) => i,
    };
    if inst.num_args as usize != toks.len() - 1 {
        return Err(
            AssembleError::ArgumentCountMismatch {
                line,
                expected: inst.num_args as usize,
                found: toks.len() - 1,
            },
        );
    }
    assert(views(toks@).skip(1) =~= views(toks@).drop_first());
    let ops = match parse_operand_tokens(&toks, 1, line) {
        None => {
            return Err(AssembleError::UnparsableOperand { line });
        },
        Some(o) => o,
    };
    assert(inst.bytes_per_arg as int * inst.num_args as int <= 255 * 255) by (nonlinear_arith)
        requires
            inst.bytes_per_arg <= 255,
            inst.num_args <= 255,
    ;
    let width: usize = inst.bytes_per_arg as usize * inst.num_args as usize;
    assert(width == inst.operand_width()) by (nonlinear_arith)
        requires
            width == inst.bytes_per_arg as int * inst.num_args as int,
    ;
    if ops.len() > width {
        return Err(AssembleError::OperandTooWide { line, expected: width, found: ops.len() });
    }
    if ops.len() < width {
        return Err(AssembleError::OperandTooNarrow { line, expected: width, found: ops.len() });
    }
    Ok((inst.op_code, ops))
}

/// A `.DATA` directive waiting to be placed.
struct DataBlock {
    address: u16,
    bytes: Vec<Chunk>,
    line: usize,
}

spec fn block_view(d: DataBlock) -> DataEntry {
    DataEntry { address: d.address, bytes: chunk_views(d.bytes@), line: d.line as nat }
}

spec fn block_views(v: Seq<DataBlock>) -> Seq<DataEntry> {
    v.map_values(|d: DataBlock| block_view(d))
}

/// Reads a `.DATA` directive (already trimmed).
fn encode_data(t: &Vec<char>, line: usize) -> (r: Result<DataBlock, AssembleError>)
    ensures
        match r {
            Ok(d) => data_directive(t@, line as nat) == Ok::<DataEntry, AssembleFault>(block_view(d)),
            Err(e) => data_directive(t@, line as nat) == Err::<DataEntry, AssembleFault>(e@),
        },
{
    let toks = split_line(t);
    if toks.len() != 3 {
        return Err(AssembleError::DataLengthError { line });
    }
    assert(views(toks@)[1] == toks@[1]@);
    assert(views(toks@)[2] == toks@[2]@);
    let a = match parse_value(&toks[1], line) {
        None => {
            return Err(AssembleError::DataAddressError { line });
        },
        Some(a) => a,
    };
    if a.len() != 2 {
        return Err(AssembleError::DataAddressLengthError { line });
    }
    assert(chunk_views(a@)[0] == a@[0]@ && chunk_views(a@)[1] == a@[1]@);
    let lo: u8 = match &a[0] {
        Chunk::Data(b) => *b,
        _ => {
            return Err(AssembleError::DataAddressError { line });
        },
    };
    let hi: u8 = match &a[1] {
        Chunk::Data(b) => *b,
        _ => {
            return Err(AssembleError::DataAddressError { line });
        },
    };
    let v = match parse_value(&toks[2], line) {
        None => {
            return Err(AssembleError::DataValueError { line });
        },
        Some(v) => v,
    };
    Ok(DataBlock { address: lo as u16 + 256 * hi as u16, bytes: v, line })
}

fn is_data_exec(t: &Vec<char>) -> (r: bool)
    ensures
        r == is_data_line(t@),
{
    if t.len() >= 5 && t[0] == '.' && t[1] == 'D' && t[2] == 'A' && t[3] == 'T' && t[4] == 'A' {
        assert(t@.take(5) =~= seq!['.', 'D', 'A', 'T', 'A']);
        true
    } else {
        proof {
            if t@.len() >= 5 && t@.take(5) == seq!['.', 'D', 'A', 'T', 'A'] {
                assert(t@[0] == t@.take(5)[0]);
                assert(t@[1] == t@.take(5)[1]);
                assert(t@[2] == t@.take(5)[2]);
                assert(t@[3] == t@.take(5)[3]);
                assert(t@[4] == t@.take(5)[4]);
            }
        }
        false
    }
}

/// Encodes every line: the code's intermediate bytes and the `.DATA` entries.
fn encode_lines(lines: &Vec<Vec<char>>) -> (r: Result<(Vec<Chunk>, Vec<DataBlock>), AssembleError>)
    ensures
        match r {
            Ok((cs, ds)) => {
                &&& encode_upto(views(lines@), lines@.len()) is Ok
                &&& encode_upto(views(lines@), lines@.len())->Ok_0.chunks == chunk_views(cs@)
                &&& encode_upto(views(lines@), lines@.len())->Ok_0.data == block_views(ds@)
            },
            Err(e) => encode_upto(views(lines@), lines@.len()) == Err::<EncState, AssembleFault>(e@),
        },
{
    let ghost ls = views(lines@);
    let mut chunks: Vec<Chunk> = Vec::new();
    let mut pending: Vec<Vec<char>> = Vec::new();
    let mut data: Vec<DataBlock> = Vec::new();
    let mut i: usize = 0;
    assert(chunk_views(chunks@) =~= Seq::<ChunkView>::empty());
    assert(views(pending@) =~= Seq::<Seq<char>>::empty());
    assert(block_views(data@) =~= Seq::<DataEntry>::empty());
    while i < lines.len()
        invariant
            i <= lines@.len(),
            ls == views(lines@),
            encode_upto(ls, i as nat) == Ok::<EncState, AssembleFault>(
                EncState {
                    chunks: chunk_views(chunks@),
                    pending: views(pending@),
                    data: block_views(data@),
                },
            ),
        decreases lines.len() - i,
    {
        let t = trim_chars(&lines[i]);
        assert(ls[i as int] == lines@[i as int]@);
        let ghost prev_chunks = chunk_views(chunks@);
        let ghost prev_pending = views(pending@);
        let ghost prev_data = block_views(data@);
        if t.len() == 0 || t[0] == '#' {
        } else if t[0] == ':' {
            let name = slice_chars(&t, 1, t.len());
            assert(name@ =~= t@.drop_first());
            pending.push(name);
            assert(views(pending@) =~= prev_pending.push(t@.drop_first()));
        } else if is_data_exec(&t) {
            match encode_data(&t, i + 1) {
                Err(e) => {
                    proof {
                        lemma_encode_err(ls, (i + 1) as nat, lines@.len());
                    }
                    return Err(e);
                },
                Ok(d) => {
                    let ghost dv = block_view(d);
                    data.push(d);
                    assert(block_views(data@) =~= prev_data.push(dv));
                },
            }
        } else {
            match encode_instruction(&t, i + 1) {
                Err(e) => {
                    proof {
                        lemma_encode_err(ls, (i + 1) as nat, lines@.len());
                    }
                    return Err(e);
                },
                Ok((op, ops)) => {
                    let mut ops = ops;
                    let ghost opsv = chunk_views(ops@);
                    let mut labels: Vec<Vec<char>> = Vec::new();
                    std::mem::swap(&mut labels, &mut pending);
                    chunks.push(Chunk::OpCode(op, labels));
                    chunks.append(&mut ops);
                    assert(chunk_views(chunks@) =~= prev_chunks.push(
                        ChunkView::OpCode(op, prev_pending),
                    ) + opsv);
                    assert(views(pending@) =~= Seq::<Seq<char>>::empty());
                },
            }
        }
        i += 1;
    }
    Ok((chunks, data))
}

/// Places the `.DATA` entries after the code, in order.
fn splice_data(chunks: Vec<Chunk>, data: Vec<DataBlock>) -> (r: Result<Vec<Chunk>, AssembleError>)
    ensures
        match r {
            Ok(cs) => splice_upto(chunk_views(chunks@), block_views(data@), data@.len()) == Ok::<Seq<ChunkView>, AssembleFault>(chunk_views(cs@)),
            Err(e) => splice_upto(chunk_views(chunks@), block_views(data@), data@.len()) == Err::<Seq<ChunkView>, AssembleFault>(e@),
        },
{
    let ghost cs0 = chunk_views(chunks@);
    let ghost dv = block_views(data@);
    let ghost total = data@.len();
    let mut out = chunks;
    let mut rest = data;
    let ghost mut k: nat = 0;
    assert(block_views(rest@) =~= dv.skip(0));
    while rest.len() > 0
        invariant
            k + rest@.len() == total,
            total == dv.len(),
            cs0 == chunk_views(chunks@),
            dv == block_views(data@),
            total == data@.len(),
            block_views(rest@) == dv.skip(k as int),
            splice_upto(cs0, dv, k) == Ok::<Seq<ChunkView>, AssembleFault>(chunk_views(out@)),
        decreases rest.len(),
    {
        let ghost before = chunk_views(out@);
        assert(block_views(rest@)[0] == dv[k as int]);
        let ghost rv = block_views(rest@);
        let d = rest.remove(0);
        assert(block_view(d) == dv[k as int]);
        assert(block_views(rest@) =~= rv.drop_first());
        assert(block_views(rest@) =~= dv.skip(k + 1int));
        if (d.address as usize) < out.len() {
            let e = AssembleError::DataOverlapError { address: d.address, line: d.line };
            assert(splice_upto(cs0, dv, (k + 1) as nat) == Err::<Seq<ChunkView>, AssembleFault>(e@));
            proof {
                lemma_splice_err(cs0, dv, (k + 1) as nat, total);
            }

            return Err(e);
        }
        let target = d.address as usize;
        assert forall|j: int| 0 <= j < before.len() implies out@[j]@ == before[j] by {}
        while out.len() < target
            invariant
                before.len() <= out@.len() <= target,
                forall|j: int| 0 <= j < before.len() ==> out@[j]@ == before[j],
                forall|j: int| before.len() <= j < out@.len() ==> out@[j]@ == ChunkView::Data(0),
            decreases target - out.len(),
        {
            out.push(Chunk::Data(0));
        }
        assert(chunk_views(out@) =~= before + Seq::new(
            (target - before.len()) as nat,
            |i: int| ChunkView::Data(0),
        ));
        let ghost filled = chunk_views(out@);
        let mut bytes = d.bytes;
        let ghost bv = chunk_views(bytes@);
        out.append(&mut bytes);
        assert(chunk_views(out@) =~= filled + bv);
        proof {
            k = k + 1;
        }
    }
    assert(k == total);
    Ok(out)
}

/// The position of the first opcode labelled `name`, if any.
fn find_label(cs: &Vec<Chunk>, name: &Vec<char>) -> (r: Option<usize>)
    ensures
        match r {
            Some(a) => label_address(chunk_views(cs@), name@) == Some(a as int),
            None => label_address(chunk_views(cs@), name@) is None,
        },
{
    let ghost cv = chunk_views(cs@);
    let mut i: usize = 0;
    while i < cs.len()
        invariant
            i <= cs@.len(),
            cv == chunk_views(cs@),
            forall|j: int| 0 <= j < i ==> !labels_of(cv[j]).contains(name@),
        decreases cs.len() - i,
    {
        assert(cv[i as int] == cs@[i as int]@);
        match &cs[i] {
            Chunk::OpCode(_, labels) => {
                if contains_name(labels, name) {
                    proof {
                        assert(is_first_labelled(cv, i as int, name@));
                        let w = choose|w: int| is_first_labelled(cv, w, name@);
                        assert(w == i) by {
                            if w < i {
                                assert(!labels_of(cv[w]).contains(name@));
                            } else if w > i {
                                assert(!labels_of(cv[i as int]).contains(name@));
                            }
                        }
                    }
                    return Some(i);
                }
            },
            _ => {},
        }
        i += 1;
    }
    None
}

/// Replaces label references by the addresses they stand for.
fn resolve(cs: &Vec<Chunk>) -> (r: Result<Vec<u8>, AssembleError>)
    ensures
        match r {
            Ok(b) => resolve_upto(chunk_views(cs@), cs@.len()) == Ok::<Seq<u8>, AssembleFault>(b@),
            Err(e) => resolve_upto(chunk_views(cs@), cs@.len()) == Err::<Seq<u8>, AssembleFault>(e@),
        },
{
    let ghost cv = chunk_views(cs@);
    let mut out: Vec<u8> = Vec::new();
    let mut i: usize = 0;
    while i < cs.len()
        invariant
            i <= cs@.len(),
            cv == chunk_views(cs@),
            resolve_upto(cv, i as nat) == Ok::<Seq<u8>, AssembleFault>(out@),
        decreases cs.len() - i,
    {
        assert(cv[i as int] == cs@[i as int]@);
        match &cs[i] {
            Chunk::Data(b) => {
                out.push(*b);
            },
            Chunk::OpCode(b, _) => {
                out.push(*b);
            },
            Chunk::LabelLow(name, line) => {
                match find_label(cs, name) {
                    Some(a) => {
                        out.push((a % 256) as u8);
                    },
                    None => {
                        proof {
                            lemma_resolve_err(cv, (i + 1) as nat, cs@.len());
                        }
                        return Err(AssembleError::UndefinedLabel { name: copy_chars(name), line: *line });
                    },
                }
            },
            Chunk::LabelHigh(name, line) => {
                match find_label(cs, name) {
                    Some(a) => {
                        out.push(((a / 256) % 256) as u8);
                    },
                    None => {
                        proof {
                            lemma_resolve_err(cv, (i + 1) as nat, cs@.len());
                        }
                        return Err(AssembleError::UndefinedLabel { name: copy_chars(name), line: *line });
                    },
                }
            },
        }
        i += 1;
    }
    Ok(out)
}

/// Collects assembly source text and assembles it into bytecode.
pub struct Assembler {
    program: Vec<char>,
}

impl View for Assembler {
    type V = Seq<char>;

    closed spec fn view(&self) -> Seq<char> {
        self.program@
    }
}

impl Assembler {
    pub fn new() -> (r: Assembler)
        ensures
            r@ == Seq::<char>::empty(),
    {
        Assembler { program: Vec::new() }
    }

    /// Appends source text.
    pub fn add_string(&mut self, new_lines: &str)
        ensures
            final(self)@ == old(self)@ + new_lines@,
    {
        let mut more = chars_of(new_lines);
        self.program.append(&mut more);
    }

    /// Checks that no label is declared twice.
    pub fn check_labels(&self) -> (r: Result<(), AssembleError>)
        ensures
            match r {
                Ok(_) => label_scan(lines_of(self@), lines_of(self@).len()) is Ok,
                Err(e) => label_scan(lines_of(self@), lines_of(self@).len()) == Err::<Seq<Seq<char>>, AssembleFault>(e@),
            },
    {
        let lines = split_lines(&self.program);
        scan_labels(&lines)
    }

    /// Assembles the source text into bytecode.
    pub fn assemble(&self) -> (r: Result<Vec<u8>, AssembleError>)
        ensures
            match r {
                Ok(b) => assemble_spec(self@) == Ok::<Seq<u8>, AssembleFault>(b@),
                Err(e) => assemble_spec(self@) == Err::<Seq<u8>, AssembleFault>(e@),
            },
    {
        let lines = split_lines(&self.program);
        match scan_labels(&lines) {
            Err(e) => {
                return Err(e);
            },
            Ok(_) => {},
        }
        let (chunks, data) = match encode_lines(&lines) {
            Err(e) => {
                return Err(e);
            },
            Ok(p) => p,
        };
        let cs = match splice_data(chunks, data) {
            Err(e) => {
                return Err(e);
            },
            Ok(cs) => cs,
        };
        resolve(&cs)
    }
}

} // verus!
