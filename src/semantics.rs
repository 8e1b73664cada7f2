use vstd::prelude::*;
use crate::stack::{spec_peek, spec_pop, spec_push, spec_top, STACK_CAPACITY};
use crate::serial::SERIAL_CAPACITY;

verus! {

/// Size of the machine's flat address space.
pub const MEMORY_SIZE: usize = 65536;

/// The CPU flags.
#[derive(Clone, Copy, Debug, PartialEq, Eq, Structural)]
pub struct Flags {
    pub halt: bool,
    pub carry: bool,
    pub overflow: bool,
    pub test: bool,
}

/// A runtime fault that stops a step before it changes anything.
#[derive(Clone, Copy, Debug, PartialEq, Eq, Structural)]
pub enum MachineFault {
    /// `DIV` with a zero divisor (the second value on the operand stack).
    DivideByZero,
}

/// The whole state of the machine as mathematical values.
pub struct MachineState {
    pub memory: Seq<u8>,
    pub registers: Seq<u16>,
    pub accumulator: u16,
    pub ip: u16,
    pub stack: Seq<u16>,
    pub call_stack: Seq<u16>,
    pub flags: Flags,
    pub output: Seq<u8>,
    pub input: Seq<u8>,
}

impl MachineState {
    pub open spec fn valid(self) -> bool {
        &&& self.memory.len() == MEMORY_SIZE
        &&& self.registers.len() == 4
        &&& self.stack.len() <= STACK_CAPACITY
        &&& self.call_stack.len() <= STACK_CAPACITY
        &&& self.output.len() <= SERIAL_CAPACITY
        &&& self.input.len() <= SERIAL_CAPACITY
    }
}

/// `a + n`, wrapping modulo 65536.
pub open spec fn adv(a: u16, n: int) -> u16 {
    ((a + n) % 65536) as u16
}

/// The little-endian 16-bit word stored at `a` and `a + 1` (wrapping).
pub open spec fn word_at(mem: Seq<u8>, a: u16) -> u16 {
    (mem[a as int] + 256 * mem[adv(a, 1) as int]) as u16
}

/// Memory after storing `v` little-endian at `a` and `a + 1` (wrapping).
pub open spec fn store_word(mem: Seq<u8>, a: u16, v: u16) -> Seq<u8> {
    mem.update(a as int, (v % 256) as u8).update(adv(a, 1) as int, (v / 256) as u8)
}

/// The one-byte operand that follows the opcode.
pub open spec fn imm8(m: MachineState) -> u8 {
    m.memory[adv(m.ip, 1) as int]
}

/// The two-byte little-endian operand that follows the opcode.
pub open spec fn imm16(m: MachineState) -> u16 {
    word_at(m.memory, adv(m.ip, 1))
}

/// A serial queue after offering one byte; it is dropped when the queue is full.
pub open spec fn spec_put(q: Seq<u8>, b: u8) -> Seq<u8> {
    if q.len() < SERIAL_CAPACITY {
        q.push(b)
    } else {
        q
    }
}

/// The lower-case ASCII hex digit for a value below 16.
pub open spec fn hex_digit(n: u16) -> u8 {
    if n < 10 {
        (48 + n) as u8
    } else {
        (87 + n) as u8
    }
}

/// `0xHH`: the low byte of `v` as ASCII text.
pub open spec fn dump8_text(v: u16) -> Seq<u8> {
    seq![48u8, 120u8, hex_digit((v % 256) / 16), hex_digit(v % 16)]
}

/// `0xHHHH`: `v` as ASCII text.
pub open spec fn dump16_text(v: u16) -> Seq<u8> {
    seq![
        48u8,
        120u8,
        hex_digit(v / 4096),
        hex_digit((v / 256) % 16),
        hex_digit((v / 16) % 16),
        hex_digit(v % 16),
    ]
}

/// The state with the instruction pointer moved on by `n` bytes.
pub open spec fn next(m: MachineState, n: int) -> MachineState {
    MachineState { ip: adv(m.ip, n), ..m }
}

/// Result of an addition: the sum modulo 65536 in the accumulator, and the
/// carry flag set exactly when it wrapped.
pub open spec fn sum_result(m: MachineState, s: Seq<u16>, sum: int, n: int) -> MachineState {
    MachineState {
        accumulator: (sum % 65536) as u16,
        stack: s,
        flags: Flags { carry: sum > 65535, ..m.flags },
        ip: adv(m.ip, n),
        ..m
    }
}

/// Result of a subtraction: a negative difference is corrected by 65536 and
/// sets the carry flag.
pub open spec fn diff_result(m: MachineState, s: Seq<u16>, d: int, n: int) -> MachineState {
    MachineState {
        accumulator: (if d < 0 { d + 65536 } else { d }) as u16,
        stack: s,
        flags: Flags { carry: d < 0, ..m.flags },
        ip: adv(m.ip, n),
        ..m
    }
}

/// Result of a multiplication: the product, saturated at 65535, in the
/// accumulator, and the overflow flag set exactly when it saturated.
pub open spec fn product_result(m: MachineState, s: Seq<u16>, p: int) -> MachineState {
    MachineState {
        accumulator: if p > 65535 { 65535 } else { p as u16 },
        stack: s,
        flags: Flags { overflow: p > 65535, ..m.flags },
        ip: adv(m.ip, 1),
        ..m
    }
}

/// The state with a new accumulator and stack, one byte further on.
pub open spec fn to_acc(m: MachineState, s: Seq<u16>, v: u16) -> MachineState {
    MachineState { accumulator: v, stack: s, ip: adv(m.ip, 1), ..m }
}

/// The state with a new stack, `n` bytes further on.
pub open spec fn with_stack(m: MachineState, s: Seq<u16>, n: int) -> MachineState {
    MachineState { stack: s, ip: adv(m.ip, n), ..m }
}

/// Loads and stores between the accumulator, the registers and immediates
/// (opcodes below 0x20).
pub open spec fn load_store_spec(m: MachineState, code: u8) -> MachineState {
    if code == 0x00 {
        next(m, 1)
    } else if code == 0x08 {
        MachineState { flags: Flags { halt: true, ..m.flags }, ..m }
    } else if code == 0x10 {
        MachineState { accumulator: imm16(m), ip: adv(m.ip, 3), ..m }
    } else if 0x11 <= code <= 0x14 {
        MachineState { accumulator: m.registers[code - 0x11], ip: adv(m.ip, 1), ..m }
    } else if 0x15 <= code <= 0x18 {
        MachineState {
            registers: m.registers.update(code - 0x15, m.accumulator),
            ip: adv(m.ip, 1),
            ..m
        }
    } else if code == 0x19 {
        MachineState { accumulator: 0, ip: adv(m.ip, 1), ..m }
    } else if code == 0x1a {
        MachineState { accumulator: imm8(m) as u16, ip: adv(m.ip, 2), ..m }
    } else {
        m
    }
}

/// Arithmetic on the operand stack (opcodes 0x20 to 0x2f). `a` is the value
/// popped first (the top), `b` the one popped second.
pub open spec fn arith_spec(m: MachineState, code: u8) -> MachineState {
    let a = spec_top(m.stack);
    let s1 = spec_pop(m.stack);
    let b = spec_top(s1);
    let s2 = spec_pop(s1);
    let c: int = if m.flags.carry { 1 } else { 0 };
    if code == 0x20 {
        sum_result(m, s2, a + b, 1)
    } else if code == 0x21 {
        sum_result(m, s2, a + b + c, 1)
    } else if code == 0x22 {
        diff_result(m, s2, a - b, 1)
    } else if code == 0x23 {
        diff_result(m, s2, a - b - c, 1)
    } else if code == 0x24 {
        to_acc(m, s1, ((65536 - a) % 65536) as u16)
    } else if code == 0x25 {
        product_result(m, s2, a * b)
    } else if code == 0x26 {
        to_acc(m, s2, (a / b) as u16)
    } else if code == 0x27 {
        sum_result(m, s1, a + imm16(m), 3)
    } else if code == 0x28 {
        diff_result(m, s1, a - imm16(m), 3)
    } else {
        m
    }
}

/// Stack manipulation (opcodes 0x30 to 0x3f). The values are popped in the
/// order `f1`, `f2`, ... and pushed back in the order each instruction lists.
pub open spec fn stack_spec(m: MachineState, code: u8) -> MachineState {
    let s0 = m.stack;
    let f1 = spec_top(s0);
    let s1 = spec_pop(s0);
    let f2 = spec_top(s1);
    let s2 = spec_pop(s1);
    let f3 = spec_top(s2);
    let s3 = spec_pop(s2);
    let f4 = spec_top(s3);
    let s4 = spec_pop(s3);
    let f5 = spec_top(s4);
    let s5 = spec_pop(s4);
    if code == 0x30 {
        with_stack(m, spec_push(s0, m.accumulator), 1)
    } else if code == 0x31 {
        to_acc(m, s1, f1)
    } else if code == 0x32 {
        with_stack(m, spec_push(spec_push(s2, f1), f2), 1)
    } else if code == 0x33 {
        to_acc(m, spec_push(s1, f1), f1)
    } else if code == 0x34 {
        with_stack(m, spec_push(s2, f1), 1)
    } else if code == 0x35 {
        with_stack(m, s1, 1)
    } else if code == 0x36 {
        with_stack(m, spec_push(spec_push(s1, m.accumulator), f1), 1)
    } else if code == 0x37 {
        with_stack(m, spec_push(spec_push(spec_push(s3, f2), f1), f3), 1)
    } else if code == 0x38 {
        with_stack(m, spec_push(spec_push(spec_push(s3, f1), f3), f2), 1)
    } else if code == 0x39 {
        with_stack(m, spec_push(spec_push(s1, f1), f1), 1)
    } else if code == 0x3a {
        with_stack(m, spec_push(s0, imm16(m)), 3)
    } else if code == 0x3b {
        with_stack(m, spec_push(spec_push(spec_push(spec_push(s4, f3), f2), f1), f4), 1)
    } else if code == 0x3c {
        with_stack(m, spec_push(spec_push(spec_push(spec_push(s4, f1), f4), f3), f2), 1)
    } else if code == 0x3d {
        with_stack(
            m,
            spec_push(spec_push(spec_push(spec_push(spec_push(s5, f1), f5), f4), f3), f2),
            1,
        )
    } else if code == 0x3e {
        with_stack(
            m,
            spec_push(spec_push(spec_push(spec_push(spec_push(s5, f4), f3), f2), f1), f5),
            1,
        )
    } else {
        m
    }
}

/// Whether a comparison jump is taken: `first` is the value that was on top.
pub open spec fn compare_holds(code: u8, first: u16, second: u16) -> bool {
    if code == 0x41 || code == 0x46 {
        first > second
    } else if code == 0x42 || code == 0x47 {
        first < second
    } else {
        first == second
    }
}

/// Control flow (opcodes 0x40 to 0x4f).
pub open spec fn jump_spec(m: MachineState, code: u8) -> MachineState {
    let s0 = m.stack;
    let f1 = spec_top(s0);
    let s1 = spec_pop(s0);
    let f2 = spec_top(s1);
    let s2 = spec_pop(s1);
    let f3 = spec_top(s2);
    let s3 = spec_pop(s2);
    if code == 0x40 {
        MachineState { ip: imm16(m), ..m }
    } else if 0x41 <= code <= 0x43 {
        // the two compared values are pushed back as they were
        MachineState {
            stack: spec_push(spec_push(s2, f2), f1),
            ip: if compare_holds(code, f1, f2) { imm16(m) } else { adv(m.ip, 3) },
            ..m
        }
    } else if code == 0x44 {
        MachineState { ip: if m.flags.test { imm16(m) } else { adv(m.ip, 3) }, ..m }
    } else if code == 0x45 {
        MachineState { stack: s1, ip: f1, ..m }
    } else if 0x46 <= code <= 0x48 {
        MachineState {
            stack: spec_push(spec_push(s3, f3), f2),
            ip: if compare_holds(code, f2, f3) { f1 } else { adv(m.ip, 1) },
            ..m
        }
    } else if code == 0x49 {
        MachineState { stack: s1, ip: if m.flags.test { f1 } else { adv(m.ip, 1) }, ..m }
    } else if code == 0x4a {
        MachineState { call_stack: spec_push(m.call_stack, m.ip), ip: adv(m.ip, 1), ..m }
    } else if code == 0x4b {
        MachineState {
            call_stack: spec_pop(m.call_stack),
            ip: spec_top(m.call_stack),
            ..m
        }
    } else if code == 0x4c {
        MachineState { stack: s1, call_stack: spec_push(m.call_stack, m.ip), ip: f1, ..m }
    } else if code == 0x4d {
        MachineState {
            call_stack: spec_pop(m.call_stack),
            ip: adv(spec_top(m.call_stack), 1),
            ..m
        }
    } else if code == 0x4e {
        // the pushed address is that of the operand's last byte, so that `RET`
        // continues after the operand
        MachineState {
            call_stack: spec_push(m.call_stack, adv(m.ip, 2)),
            ip: imm16(m),
            ..m
        }
    } else if code == 0x4f {
        next(m, 3)
    } else {
        m
    }
}

/// Indirect memory access (opcodes 0x50 to 0x5f).
pub open spec fn memory_spec(m: MachineState, code: u8) -> MachineState {
    let f1 = spec_top(m.stack);
    let s1 = spec_pop(m.stack);
    let f2 = spec_top(s1);
    let s2 = spec_pop(s1);
    if code == 0x50 {
        with_stack(m, spec_push(s1, word_at(m.memory, f1)), 1)
    } else if code == 0x51 {
        MachineState { memory: store_word(m.memory, f1, f2), stack: s2, ip: adv(m.ip, 1), ..m }
    } else if code == 0x52 {
        with_stack(m, spec_push(m.stack, word_at(m.memory, imm16(m))), 3)
    } else if code == 0x53 {
        MachineState {
            memory: store_word(m.memory, imm16(m), f1),
            stack: s1,
            ip: adv(m.ip, 3),
            ..m
        }
    } else {
        m
    }
}

/// Bitwise operations and single-bit shifts (opcodes 0x60 to 0x6f).
pub open spec fn bitwise_spec(m: MachineState, code: u8) -> MachineState {
    let f1 = spec_top(m.stack);
    let s1 = spec_pop(m.stack);
    let f2 = spec_top(s1);
    let s2 = spec_pop(s1);
    let i = imm16(m);
    if code == 0x60 {
        to_acc(m, s2, f1 | f2)
    } else if code == 0x61 {
        to_acc(m, s2, f1 & f2)
    } else if code == 0x62 {
        to_acc(m, s2, f1 ^ f2)
    } else if code == 0x63 {
        to_acc(m, s2, !(f1 & f2))
    } else if code == 0x64 {
        to_acc(m, s2, !(f1 | f2))
    } else if code == 0x65 {
        to_acc(m, s1, !f1)
    } else if code == 0x66 {
        to_acc(m, s1, ((f1 * 2) % 65536) as u16)
    } else if code == 0x67 {
        to_acc(m, s1, f1 / 2)
    } else if code == 0x68 {
        to_acc(m, s1, ((f1 * 2) % 65536 + 1) as u16)
    } else if code == 0x69 {
        to_acc(m, s1, (f1 / 2 + 32768) as u16)
    } else if 0x6a <= code <= 0x6e {
        MachineState {
            accumulator: if code == 0x6a {
                f1 | i
            } else if code == 0x6b {
                f1 & i
            } else if code == 0x6c {
                f1 ^ i
            } else if code == 0x6d {
                !(f1 & i)
            } else {
                !(f1 | i)
            },
            stack: s1,
            ip: adv(m.ip, 3),
            ..m
        }
    } else {
        m
    }
}

/// `v + k` wrapping modulo 65536.
pub open spec fn wrap(v: int) -> u16 {
    (v % 65536) as u16
}

/// Increments and decrements by 1 to 4 (opcodes 0x70 to 0x7f): the first
/// eight leave the result in the accumulator, the last eight push it back.
pub open spec fn incdec_spec(m: MachineState, code: u8) -> MachineState {
    let f1 = spec_top(m.stack);
    let s1 = spec_pop(m.stack);
    let k: int = (code % 4 + 1) as int;
    let v: u16 = if code % 8 < 4 { wrap(f1 + k) } else { wrap(f1 - k + 65536) };
    if 0x70 <= code <= 0x77 {
        to_acc(m, s1, v)
    } else if 0x78 <= code <= 0x7f {
        with_stack(m, spec_push(s1, v), 1)
    } else {
        m
    }
}

/// Flag tests (opcodes 0x80 to 0x8f) and whole-byte shifts (0x90, 0x91).
pub open spec fn test_spec(m: MachineState, code: u8) -> MachineState {
    let f1 = spec_top(m.stack);
    let s1 = spec_pop(m.stack);
    let r0 = m.registers[0];
    if code == 0x80 {
        MachineState { flags: Flags { test: m.flags.carry || m.flags.overflow, ..m.flags }, ..next(m, 1) }
    } else if code == 0x81 {
        MachineState { flags: Flags { test: m.flags.carry, ..m.flags }, ..next(m, 1) }
    } else if code == 0x82 {
        MachineState { flags: Flags { test: m.flags.overflow, ..m.flags }, ..next(m, 1) }
    } else if 0x88 <= code <= 0x8a {
        MachineState {
            flags: Flags { test: f1 != 0, ..m.flags },
            stack: spec_push(
                s1,
                if code == 0x88 {
                    1
                } else if code == 0x89 {
                    wrap(f1 + 1)
                } else {
                    wrap(f1 - 1 + 65536)
                },
            ),
            ..next(m, 1)
        }
    } else if 0x8b <= code <= 0x8d {
        MachineState {
            flags: Flags { test: r0 != 0, ..m.flags },
            registers: m.registers.update(
                0,
                if code == 0x8b {
                    1
                } else if code == 0x8c {
                    wrap(r0 + 1)
                } else {
                    wrap(r0 - 1 + 65536)
                },
            ),
            ..next(m, 1)
        }
    } else if code == 0x90 {
        to_acc(m, s1, ((f1 % 256) * 256) as u16)
    } else if code == 0x91 {
        to_acc(m, s1, f1 / 256)
    } else {
        m
    }
}

/// Output to the serial channel (opcodes 0xf0 and up).
pub open spec fn io_spec(m: MachineState, code: u8) -> MachineState {
    let f1 = spec_top(m.stack);
    let s1 = spec_pop(m.stack);
    if code == 0xf0 {
        MachineState { output: spec_put(m.output, (f1 % 256) as u8), ..with_stack(m, s1, 1) }
    } else if code == 0xf1 {
        MachineState { output: spec_put(m.output, imm8(m)), ..next(m, 2) }
    } else if code == 0xf2 {
        MachineState {
            output: spec_put(spec_put(m.output, (f1 % 256) as u8), (f1 / 256) as u8),
            ..with_stack(m, s1, 1)
        }
    } else if code == 0xf3 {
        MachineState {
            output: spec_put(spec_put(m.output, imm8(m)), m.memory[adv(m.ip, 2) as int]),
            ..next(m, 3)
        }
    } else if code == 0xf4 {
        MachineState {
            output: crate::serial::spec_put_all(m.output, dump8_text(f1)),
            ..with_stack(m, s1, 1)
        }
    } else if code == 0xf5 {
        MachineState {
            output: crate::serial::spec_put_all(m.output, dump16_text(f1)),
            ..with_stack(m, s1, 1)
        }
    } else {
        m
    }
}

/// The effect of the instruction with opcode `code` on the state `m`.
pub open spec fn execute_spec(m: MachineState, code: u8) -> MachineState {
    if code < 0x20 {
        load_store_spec(m, code)
    } else if code < 0x30 {
        arith_spec(m, code)
    } else if code < 0x40 {
        stack_spec(m, code)
    } else if code < 0x50 {
        jump_spec(m, code)
    } else if code < 0x60 {
        memory_spec(m, code)
    } else if code < 0x70 {
        bitwise_spec(m, code)
    } else if code < 0x80 {
        incdec_spec(m, code)
    } else if code < 0xf0 {
        test_spec(m, code)
    } else {
        io_spec(m, code)
    }
}

/// One fetch-decode-execute step: the opcode at the instruction pointer is
/// looked up in the catalog; an unknown opcode changes nothing, `DIV` with a
/// zero divisor is a fault that changes nothing, and any other instruction
/// takes effect.
pub open spec fn step_spec(m: MachineState) -> Result<MachineState, MachineFault> {
    let code = m.memory[m.ip as int];
    if crate::instructions::catalog(code) is None {
        Ok(m)
    } else if code == 0x26 && spec_peek(m.stack, 1) == 0 {
        Err(MachineFault::DivideByZero)
    } else {
        Ok(execute_spec(m, code))
    }
}

} // verus!
