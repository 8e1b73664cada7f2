use vstd::prelude::*;

verus! {

/// One entry of the instruction catalog: the mnemonic, the opcode byte, how many
/// operands follow the opcode and how wide each is, and the cost in clock cycles.
#[derive(Clone, Copy)]
pub struct Instruction {
    pub inst: &'static str,
    pub num_args: u8,
    pub op_code: u8,
    pub bytes_per_arg: u8,
    pub clock_cycles: usize,
}

impl Instruction {
    /// Number of operand bytes that follow the opcode.
    pub open spec fn operand_width(self) -> nat {
        (self.num_args * self.bytes_per_arg) as nat
    }

    /// Number of bytes the instruction occupies, opcode included.
    pub open spec fn encoded_len(self) -> nat {
        1 + self.operand_width()
    }
}

pub open spec fn spec_entry(
    inst: &'static str,
    num_args: u8,
    op_code: u8,
    bytes_per_arg: u8,
    clock_cycles: usize,
) -> Instruction {
    Instruction { inst, num_args, op_code, bytes_per_arg, clock_cycles }
}

fn entry(
    inst: &'static str,
    num_args: u8,
    op_code: u8,
    bytes_per_arg: u8,
    clock_cycles: usize,
) -> (r: Instruction)
    ensures
        r == spec_entry(inst, num_args, op_code, bytes_per_arg, clock_cycles),
{
    Instruction { inst, num_args, op_code, bytes_per_arg, clock_cycles }
}

/// The catalog: the instruction that an opcode byte stands for, if any.
pub open spec fn catalog(code: u8) -> Option<Instruction> {
    match code {
        0x00 => Some(spec_entry("NOOP", 0, 0x00, 0, 1)),
        0x08 => Some(spec_entry("HALT", 0, 0x08, 0, 1)),
        0x10 => Some(spec_entry("LRI", 1, 0x10, 2, 3)),
        0x11 => Some(spec_entry("LR0", 0, 0x11, 0, 1)),
        0x12 => Some(spec_entry("LR1", 0, 0x12, 0, 1)),
        0x13 => Some(spec_entry("LR2", 0, 0x13, 0, 1)),
        0x14 => Some(spec_entry("LR3", 0, 0x14, 0, 1)),
        0x15 => Some(spec_entry("SR0", 0, 0x15, 0, 1)),
        0x16 => Some(spec_entry("SR1", 0, 0x16, 0, 1)),
        0x17 => Some(spec_entry("SR2", 0, 0x17, 0, 1)),
        0x18 => Some(spec_entry("SR3", 0, 0x18, 0, 1)),
        0x19 => Some(spec_entry("ZERO", 0, 0x19, 0, 1)),
        0x1a => Some(spec_entry("LRS", 1, 0x1a, 1, 2)),
        0x20 => Some(spec_entry("ADD", 0, 0x20, 0, 1)),
        0x21 => Some(spec_entry("ADDC", 0, 0x21, 0, 1)),
        0x22 => Some(spec_entry("SUB", 0, 0x22, 0, 1)),
        0x23 => Some(spec_entry("SUBC", 0, 0x23, 0, 1)),
        0x24 => Some(spec_entry("NEG", 0, 0x24, 0, 1)),
        0x25 => Some(spec_entry("MUL", 0, 0x25, 0, 2)),
        0x26 => Some(spec_entry("DIV", 0, 0x26, 0, 3)),
        0x27 => Some(spec_entry("ADDI", 1, 0x27, 2, 3)),
        0x28 => Some(spec_entry("SUBI", 1, 0x28, 2, 3)),
        0x30 => Some(spec_entry("PUSH", 0, 0x30, 0, 1)),
        0x31 => Some(spec_entry("POP", 0, 0x31, 0, 1)),
        0x32 => Some(spec_entry("SWAP", 0, 0x32, 0, 1)),
        0x33 => Some(spec_entry("PEAK", 0, 0x33, 0, 1)),
        0x34 => Some(spec_entry("SPILL", 0, 0x34, 0, 1)),
        0x35 => Some(spec_entry("DROP", 0, 0x35, 0, 1)),
        0x36 => Some(spec_entry("UNDER", 0, 0x36, 0, 1)),
        0x37 => Some(spec_entry("ROTCW", 0, 0x37, 0, 2)),
        0x38 => Some(spec_entry("ROTAC", 0, 0x38, 0, 2)),
        0x39 => Some(spec_entry("DUP", 0, 0x39, 0, 1)),
        0x3a => Some(spec_entry("PUSHI", 1, 0x3a, 2, 3)),
        0x3b => Some(spec_entry("ROTCW4", 0, 0x3b, 0, 2)),
        0x3c => Some(spec_entry("ROTAC4", 0, 0x3c, 0, 2)),
        0x3d => Some(spec_entry("ROTCW5", 0, 0x3d, 0, 2)),
        0x3e => Some(spec_entry("ROTAC5", 0, 0x3e, 0, 2)),
        0x40 => Some(spec_entry("JMPI", 1, 0x40, 2, 3)),
        0x41 => Some(spec_entry("JMPIG", 1, 0x41, 2, 4)),
        0x42 => Some(spec_entry("JMPIL", 1, 0x42, 2, 4)),
        0x43 => Some(spec_entry("JMPIE", 1, 0x43, 2, 4)),
        0x44 => Some(spec_entry("JMPIT", 1, 0x44, 2, 3)),
        0x45 => Some(spec_entry("JMP", 0, 0x45, 0, 1)),
        0x46 => Some(spec_entry("JMPGT", 0, 0x46, 0, 2)),
        0x47 => Some(spec_entry("JMPLT", 0, 0x47, 0, 2)),
        0x48 => Some(spec_entry("JMPEQ", 0, 0x48, 0, 2)),
        0x49 => Some(spec_entry("JMPT", 0, 0x49, 0, 1)),
        0x4a => Some(spec_entry("PUSHP", 0, 0x4a, 0, 1)),
        0x4b => Some(spec_entry("POPP", 0, 0x4b, 0, 1)),
        0x4c => Some(spec_entry("CALL", 0, 0x4c, 0, 1)),
        0x4d => Some(spec_entry("RET", 0, 0x4d, 0, 1)),
        0x4e => Some(spec_entry("CALLI", 1, 0x4e, 2, 3)),
        0x4f => Some(spec_entry("SKIP", 1, 0x4f, 2, 1)),
        0x50 => Some(spec_entry("LOAD", 0, 0x50, 0, 3)),
        0x51 => Some(spec_entry("STORE", 0, 0x51, 0, 3)),
        0x52 => Some(spec_entry("LOADI", 1, 0x52, 2, 5)),
        0x53 => Some(spec_entry("STOREI", 1, 0x53, 2, 5)),
        0x60 => Some(spec_entry("OR", 0, 0x60, 0, 1)),
        0x61 => Some(spec_entry("AND", 0, 0x61, 0, 1)),
        0x62 => Some(spec_entry("XOR", 0, 0x62, 0, 1)),
        0x63 => Some(spec_entry("NAND", 0, 0x63, 0, 1)),
        0x64 => Some(spec_entry("NOR", 0, 0x64, 0, 1)),
        0x65 => Some(spec_entry("NOT", 0, 0x65, 0, 1)),
        0x66 => Some(spec_entry("LSFT0", 0, 0x66, 0, 1)),
        0x67 => Some(spec_entry("RSFT0", 0, 0x67, 0, 1)),
        0x68 => Some(spec_entry("LSFT1", 0, 0x68, 0, 1)),
        0x69 => Some(spec_entry("RSFT1", 0, 0x69, 0, 1)),
        0x6a => Some(spec_entry("ORI", 1, 0x6a, 2, 3)),
        0x6b => Some(spec_entry("ANDI", 1, 0x6b, 2, 3)),
        0x6c => Some(spec_entry("XORI", 1, 0x6c, 2, 3)),
        0x6d => Some(spec_entry("NANDI", 1, 0x6d, 2, 3)),
        0x6e => Some(spec_entry("NORI", 1, 0x6e, 2, 3)),
        0x70 => Some(spec_entry("INC", 0, 0x70, 0, 1)),
        0x71 => Some(spec_entry("INC2", 0, 0x71, 0, 1)),
        0x72 => Some(spec_entry("INC3", 0, 0x72, 0, 1)),
        0x73 => Some(spec_entry("INC4", 0, 0x73, 0, 1)),
        0x74 => Some(spec_entry("DEC", 0, 0x74, 0, 1)),
        0x75 => Some(spec_entry("DEC2", 0, 0x75, 0, 1)),
        0x76 => Some(spec_entry("DEC3", 0, 0x76, 0, 1)),
        0x77 => Some(spec_entry("DEC4", 0, 0x77, 0, 1)),
        0x78 => Some(spec_entry("INCP", 0, 0x78, 0, 1)),
        0x79 => Some(spec_entry("INC2P", 0, 0x79, 0, 1)),
        0x7a => Some(spec_entry("INC3P", 0, 0x7a, 0, 1)),
        0x7b => Some(spec_entry("INC4P", 0, 0x7b, 0, 1)),
        0x7c => Some(spec_entry("DECP", 0, 0x7c, 0, 1)),
        0x7d => Some(spec_entry("DEC2P", 0, 0x7d, 0, 1)),
        0x7e => Some(spec_entry("DEC3P", 0, 0x7e, 0, 1)),
        0x7f => Some(spec_entry("DEC4P", 0, 0x7f, 0, 1)),
        0x80 => Some(spec_entry("TEST", 0, 0x80, 0, 1)),
        0x81 => Some(spec_entry("TESTC", 0, 0x81, 0, 1)),
        0x82 => Some(spec_entry("TESTO", 0, 0x82, 0, 1)),
        0x88 => Some(spec_entry("TSAST", 0, 0x88, 0, 3)),
        0x89 => Some(spec_entry("TSAINC", 0, 0x89, 0, 4)),
        0x8a => Some(spec_entry("TSADEC", 0, 0x8a, 0, 4)),
        0x8b => Some(spec_entry("TSASTR", 0, 0x8b, 0, 2)),
        0x8c => Some(spec_entry("TSAINR", 0, 0x8c, 0, 2)),
        0x8d => Some(spec_entry("TSADER", 0, 0x8d, 0, 2)),
        0x90 => Some(spec_entry("LSFTB", 0, 0x90, 0, 1)),
        0x91 => Some(spec_entry("RSFTB", 0, 0x91, 0, 1)),
        0xf0 => Some(spec_entry("PRN", 0, 0xf0, 0, 1)),
        0xf1 => Some(spec_entry("PRNI", 1, 0xf1, 1, 2)),
        0xf2 => Some(spec_entry("PRN2", 0, 0xf2, 0, 1)),
        0xf3 => Some(spec_entry("PRN2I", 1, 0xf3, 2, 3)),
        0xf4 => Some(spec_entry("DUMP8", 0, 0xf4, 0, 1)),
        0xf5 => Some(spec_entry("DUMP16", 0, 0xf5, 0, 1)),
        _ => None,
    }
}

/// Looks an instruction up by its opcode byte.
pub fn find_inst_by_opcode(op_code: &u8) -> (r: Option<Instruction>)
    ensures
        r == catalog(*op_code),
{
    match *op_code {
        0x00 => Some(entry("NOOP", 0, 0x00, 0, 1)),
        0x08 => Some(entry("HALT", 0, 0x08, 0, 1)),
        0x10 => Some(entry("LRI", 1, 0x10, 2, 3)),
        0x11 => Some(entry("LR0", 0, 0x11, 0, 1)),
        0x12 => Some(entry("LR1", 0, 0x12, 0, 1)),
        0x13 => Some(entry("LR2", 0, 0x13, 0, 1)),
        0x14 => Some(entry("LR3", 0, 0x14, 0, 1)),
        0x15 => Some(entry("SR0", 0, 0x15, 0, 1)),
        0x16 => Some(entry("SR1", 0, 0x16, 0, 1)),
        0x17 => Some(entry("SR2", 0, 0x17, 0, 1)),
        0x18 => Some(entry("SR3", 0, 0x18, 0, 1)),
        0x19 => Some(entry("ZERO", 0, 0x19, 0, 1)),
        0x1a => Some(entry("LRS", 1, 0x1a, 1, 2)),
        0x20 => Some(entry("ADD", 0, 0x20, 0, 1)),
        0x21 => Some(entry("ADDC", 0, 0x21, 0, 1)),
        0x22 => Some(entry("SUB", 0, 0x22, 0, 1)),
        0x23 => Some(entry("SUBC", 0, 0x23, 0, 1)),
        0x24 => Some(entry("NEG", 0, 0x24, 0, 1)),
        0x25 => Some(entry("MUL", 0, 0x25, 0, 2)),
        0x26 => Some(entry("DIV", 0, 0x26, 0, 3)),
        0x27 => Some(entry("ADDI", 1, 0x27, 2, 3)),
        0x28 => Some(entry("SUBI", 1, 0x28, 2, 3)),
        0x30 => Some(entry("PUSH", 0, 0x30, 0, 1)),
        0x31 => Some(entry("POP", 0, 0x31, 0, 1)),
        0x32 => Some(entry("SWAP", 0, 0x32, 0, 1)),
        0x33 => Some(entry("PEAK", 0, 0x33, 0, 1)),
        0x34 => Some(entry("SPILL", 0, 0x34, 0, 1)),
        0x35 => Some(entry("DROP", 0, 0x35, 0, 1)),
        0x36 => Some(entry("UNDER", 0, 0x36, 0, 1)),
        0x37 => Some(entry("ROTCW", 0, 0x37, 0, 2)),
        0x38 => Some(entry("ROTAC", 0, 0x38, 0, 2)),
        0x39 => Some(entry("DUP", 0, 0x39, 0, 1)),
        0x3a => Some(entry("PUSHI", 1, 0x3a, 2, 3)),
        0x3b => Some(entry("ROTCW4", 0, 0x3b, 0, 2)),
        0x3c => Some(entry("ROTAC4", 0, 0x3c, 0, 2)),
        0x3d => Some(entry("ROTCW5", 0, 0x3d, 0, 2)),
        0x3e => Some(entry("ROTAC5", 0, 0x3e, 0, 2)),
        0x40 => Some(entry("JMPI", 1, 0x40, 2, 3)),
        0x41 => Some(entry("JMPIG", 1, 0x41, 2, 4)),
        0x42 => Some(entry("JMPIL", 1, 0x42, 2, 4)),
        0x43 => Some(entry("JMPIE", 1, 0x43, 2, 4)),
        0x44 => Some(entry("JMPIT", 1, 0x44, 2, 3)),
        0x45 => Some(entry("JMP", 0, 0x45, 0, 1)),
        0x46 => Some(entry("JMPGT", 0, 0x46, 0, 2)),
        0x47 => Some(entry("JMPLT", 0, 0x47, 0, 2)),
        0x48 => Some(entry("JMPEQ", 0, 0x48, 0, 2)),
        0x49 => Some(entry("JMPT", 0, 0x49, 0, 1)),
        0x4a => Some(entry("PUSHP", 0, 0x4a, 0, 1)),
        0x4b => Some(entry("POPP", 0, 0x4b, 0, 1)),
        0x4c => Some(entry("CALL", 0, 0x4c, 0, 1)),
        0x4d => Some(entry("RET", 0, 0x4d, 0, 1)),
        0x4e => Some(entry("CALLI", 1, 0x4e, 2, 3)),
        0x4f => Some(entry("SKIP", 1, 0x4f, 2, 1)),
        0x50 => Some(entry("LOAD", 0, 0x50, 0, 3)),
        0x51 => Some(entry("STORE", 0, 0x51, 0, 3)),
        0x52 => Some(entry("LOADI", 1, 0x52, 2, 5)),
        0x53 => Some(entry("STOREI", 1, 0x53, 2, 5)),
        0x60 => Some(entry("OR", 0, 0x60, 0, 1)),
        0x61 => Some(entry("AND", 0, 0x61, 0, 1)),
        0x62 => Some(entry("XOR", 0, 0x62, 0, 1)),
        0x63 => Some(entry("NAND", 0, 0x63, 0, 1)),
        0x64 => Some(entry("NOR", 0, 0x64, 0, 1)),
        0x65 => Some(entry("NOT", 0, 0x65, 0, 1)),
        0x66 => Some(entry("LSFT0", 0, 0x66, 0, 1)),
        0x67 => Some(entry("RSFT0", 0, 0x67, 0, 1)),
        0x68 => Some(entry("LSFT1", 0, 0x68, 0, 1)),
        0x69 => Some(entry("RSFT1", 0, 0x69, 0, 1)),
        0x6a => Some(entry("ORI", 1, 0x6a, 2, 3)),
        0x6b => Some(entry("ANDI", 1, 0x6b, 2, 3)),
        0x6c => Some(entry("XORI", 1, 0x6c, 2, 3)),
        0x6d => Some(entry("NANDI", 1, 0x6d, 2, 3)),
        0x6e => Some(entry("NORI", 1, 0x6e, 2, 3)),
        0x70 => Some(entry("INC", 0, 0x70, 0, 1)),
        0x71 => Some(entry("INC2", 0, 0x71, 0, 1)),
        0x72 => Some(entry("INC3", 0, 0x72, 0, 1)),
        0x73 => Some(entry("INC4", 0, 0x73, 0, 1)),
        0x74 => Some(entry("DEC", 0, 0x74, 0, 1)),
        0x75 => Some(entry("DEC2", 0, 0x75, 0, 1)),
        0x76 => Some(entry("DEC3", 0, 0x76, 0, 1)),
        0x77 => Some(entry("DEC4", 0, 0x77, 0, 1)),
        0x78 => Some(entry("INCP", 0, 0x78, 0, 1)),
        0x79 => Some(entry("INC2P", 0, 0x79, 0, 1)),
        0x7a => Some(entry("INC3P", 0, 0x7a, 0, 1)),
        0x7b => Some(entry("INC4P", 0, 0x7b, 0, 1)),
        0x7c => Some(entry("DECP", 0, 0x7c, 0, 1)),
        0x7d => Some(entry("DEC2P", 0, 0x7d, 0, 1)),
        0x7e => Some(entry("DEC3P", 0, 0x7e, 0, 1)),
        0x7f => Some(entry("DEC4P", 0, 0x7f, 0, 1)),
        0x80 => Some(entry("TEST", 0, 0x80, 0, 1)),
        0x81 => Some(entry("TESTC", 0, 0x81, 0, 1)),
        0x82 => Some(entry("TESTO", 0, 0x82, 0, 1)),
        0x88 => Some(entry("TSAST", 0, 0x88, 0, 3)),
        0x89 => Some(entry("TSAINC", 0, 0x89, 0, 4)),
        0x8a => Some(entry("TSADEC", 0, 0x8a, 0, 4)),
        0x8b => Some(entry("TSASTR", 0, 0x8b, 0, 2)),
        0x8c => Some(entry("TSAINR", 0, 0x8c, 0, 2)),
        0x8d => Some(entry("TSADER", 0, 0x8d, 0, 2)),
        0x90 => Some(entry("LSFTB", 0, 0x90, 0, 1)),
        0x91 => Some(entry("RSFTB", 0, 0x91, 0, 1)),
        0xf0 => Some(entry("PRN", 0, 0xf0, 0, 1)),
        0xf1 => Some(entry("PRNI", 1, 0xf1, 1, 2)),
        0xf2 => Some(entry("PRN2", 0, 0xf2, 0, 1)),
        0xf3 => Some(entry("PRN2I", 1, 0xf3, 2, 3)),
        0xf4 => Some(entry("DUMP8", 0, 0xf4, 0, 1)),
        0xf5 => Some(entry("DUMP16", 0, 0xf5, 0, 1)),
        _ => None,
    }
}

/// The upper-case form of a text, as `str::to_uppercase` gives it.
pub uninterp spec fn upper_of(s: Seq<char>) -> Seq<char>;

/// Relies on `str::to_uppercase`: the upper-case form of the characters, which
/// depends on the characters alone.
#[verifier::external_body]
fn uppercase(s: &Vec<char>) -> (r: Vec<char>)
    ensures
        r@ == upper_of(s@),
{
    let text: String = s.iter().collect();
    text.to_uppercase().chars().collect()
}

/// The opcode `code` is in the catalog under the mnemonic `u`.
pub open spec fn is_named(u: Seq<char>, code: u8) -> bool {
    &&& catalog(code) is Some
    &&& catalog(code)->0.inst@ == u
}

/// `code` is the lowest opcode in the catalog under the mnemonic `u`.
pub open spec fn is_first_named(u: Seq<char>, code: u8) -> bool {
    &&& is_named(u, code)
    &&& forall|d: u8| d < code ==> !is_named(u, d)
}

/// The catalog entry whose mnemonic is exactly `u`.
pub open spec fn lookup_upper(u: Seq<char>) -> Option<Instruction> {
    if exists|c: u8| is_first_named(u, c) {
        catalog(choose|c: u8| is_first_named(u, c))
    } else {
        None
    }
}

/// The instruction a written mnemonic names: the catalog entry whose mnemonic
/// equals the upper-case form of the name.
pub open spec fn lookup_name(name: Seq<char>) -> Option<Instruction> {
    lookup_upper(upper_of(name))
}

fn spells(name: &Vec<char>, mnemonic: &str) -> (r: bool)
    ensures
        r == (name@ == mnemonic@),
{
    let n = mnemonic.unicode_len();
    if name.len() != n {
        return false;
    }
    let mut i: usize = 0;
    while i < n
        invariant
            i <= n,
            n == name@.len(),
            n == mnemonic@.len(),
            forall|j: int| 0 <= j < i ==> name@[j] == mnemonic@[j],
        decreases n - i,
    {
        if name[i] != mnemonic.get_char(i) {
            return false;
        }
        i += 1;
    }
    assert(name@ =~= mnemonic@);
    true
}

/// Looks an instruction up by its mnemonic written in upper case, compared exactly.
pub fn find_inst_by_upper(u: &Vec<char>) -> (r: Option<Instruction>)
    ensures
        r == lookup_upper(u@),
{
    let mut code: u16 = 0;
    while code < 256
        invariant
            code <= 256,
            forall|d: u8| d < code ==> !is_named(u@, d),
        decreases 256 - code,
    {
        let c = code as u8;
        match find_inst_by_opcode(&c) {
            Some(i) => {
                if spells(u, i.inst) {
                    proof {
                        assert(is_first_named(u@, c));
                        let w = choose|w: u8| is_first_named(u@, w);
                        assert(w == c) by {
                            if w < c {
                                assert(!is_named(u@, w));
                            } else if w > c {
                                assert(!is_named(u@, c));
                            }
                        }
                    }
                    return Some(i);
                }
            },
            None => {},
        }
        code += 1;
    }
    None
}

/// Looks an instruction up by a mnemonic given as characters, in any case.
pub fn find_inst_by_chars(name: &Vec<char>) -> (r: Option<Instruction>)
    ensures
        r == lookup_name(name@),
{
    let u = uppercase(name);
    find_inst_by_upper(&u)
}

/// Looks an instruction up by its mnemonic, in any case.
pub fn find_inst_by_name(name: &str) -> (r: Option<Instruction>)
    ensures
        r == lookup_name(name@),
{
    let chars = crate::text::chars_of(name);
    find_inst_by_chars(&chars)
}

} // verus!
