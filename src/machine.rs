use vstd::prelude::*;
use crate::instructions::{catalog, find_inst_by_opcode};
use crate::semantics::{
    adv, arith_spec, bitwise_spec, dump16_text, dump8_text, execute_spec, hex_digit, imm16,
    imm8, incdec_spec, io_spec, jump_spec, load_store_spec, memory_spec, stack_spec, step_spec,
    store_word, test_spec, word_at, Flags, MachineFault, MachineState, MEMORY_SIZE,
};
use crate::serial::SerialBuffer;
use crate::stack::{spec_peek, spec_pop, spec_top, Stack};

verus! {

/// One of the four general-purpose registers.
#[derive(Clone, Copy, Debug, PartialEq, Eq, Structural)]
pub enum Register {
    R0,
    R1,
    R2,
    R3,
}

impl Register {
    pub open spec fn spec_index(self) -> int {
        match self {
            Register::R0 => 0,
            Register::R1 => 1,
            Register::R2 => 2,
            Register::R3 => 3,
        }
    }

    /// Position of the register in the register file.
    pub fn index(&self) -> (r: usize)
        ensures
            r == self.spec_index(),
    {
        match self {
            Register::R0 => 0,
            Register::R1 => 1,
            Register::R2 => 2,
            Register::R3 => 3,
        }
    }
}

/// The number of clock cycles a step of `m` takes: those of the instruction at
/// the instruction pointer, or none for an unknown opcode.
pub open spec fn step_cycles(m: MachineState) -> usize {
    match catalog(m.memory[m.ip as int]) {
        Some(i) => i.clock_cycles,
        None => 0,
    }
}

/// The state after at most `n` steps from `m`, stopping early once the halt flag
/// is set or a step faults.
pub open spec fn run_spec(m: MachineState, n: nat) -> Result<MachineState, MachineFault>
    decreases n,
{
    if n == 0 || m.flags.halt {
        Ok(m)
    } else {
        match step_spec(m) {
            Ok(s) => run_spec(s, (n - 1) as nat),
            Err(f) => Err(f),
        }
    }
}

/// The state in which a run of at most `n` steps from `m` stops: at the halt
/// flag, at the bound, or just before a step that faults (a faulting step
/// changes nothing).
pub open spec fn run_state(m: MachineState, n: nat) -> MachineState
    decreases n,
{
    if n == 0 || m.flags.halt {
        m
    } else {
        match step_spec(m) {
            Ok(s) => run_state(s, (n - 1) as nat),
            Err(_) => m,
        }
    }
}

/// How many steps a run of at most `n` steps from `m` takes before it stops at
/// the halt flag, at a fault, or at the bound.
pub open spec fn steps_taken(m: MachineState, n: nat) -> nat
    decreases n,
{
    if n == 0 || m.flags.halt {
        0
    } else {
        match step_spec(m) {
            Ok(s) => 1 + steps_taken(s, (n - 1) as nat),
            Err(_) => 0,
        }
    }
}

/// The state of a freshly made machine: all memory, registers and the
/// accumulator zero, both stacks and both serial queues empty, no flag set.
pub open spec fn initial_state() -> MachineState {
    MachineState {
        memory: Seq::new(MEMORY_SIZE as nat, |i: int| 0u8),
        registers: seq![0u16, 0u16, 0u16, 0u16],
        accumulator: 0,
        ip: 0,
        stack: Seq::empty(),
        call_stack: Seq::empty(),
        flags: Flags { halt: false, carry: false, overflow: false, test: false },
        output: Seq::empty(),
        input: Seq::empty(),
    }
}

/// The simulated CPU and its memory.
pub struct Machine {
    memory: Vec<u8>,
    registers: Vec<u16>,
    accumulator: u16,
    instruction_pointer: u16,
    stack: Stack,
    instruction_pointer_stack: Stack,
    flags: Flags,
    output_buffer: SerialBuffer,
    input_buffer: SerialBuffer,
}

impl View for Machine {
    type V = MachineState;

    closed spec fn view(&self) -> MachineState {
        MachineState {
            memory: self.memory@,
            registers: self.registers@,
            accumulator: self.accumulator,
            ip: self.instruction_pointer,
            stack: self.stack@,
            call_stack: self.instruction_pointer_stack@,
            flags: self.flags,
            output: self.output_buffer@,
            input: self.input_buffer@,
        }
    }
}

fn adv_exec(a: u16, n: u16) -> (r: u16)
    ensures
        r == adv(a, n as int),
{
    ((a as u32 + n as u32) % 65536) as u16
}

fn hex_digit_exec(n: u16) -> (r: u8)
    requires
        n < 16,
    ensures
        r == hex_digit(n),
{
    if n < 10 {
        (48 + n) as u8
    } else {
        (87 + n) as u8
    }
}

impl Machine {
    pub open spec fn wf(&self) -> bool {
        self@.valid()
    }

    pub fn new() -> (r: Machine)
        ensures
            r.wf(),
            r@ == initial_state(),
    {
        let m = Machine {
            memory: vec![0u8; MEMORY_SIZE],
            registers: vec![0u16; 4],
            accumulator: 0,
            instruction_pointer: 0,
            stack: Stack::new(),
            instruction_pointer_stack: Stack::new(),
            flags: Flags { halt: false, carry: false, overflow: false, test: false },
            output_buffer: SerialBuffer::new(),
            input_buffer: SerialBuffer::new(),
        };
        assert(m@.memory =~= initial_state().memory);
        assert(m@.registers =~= initial_state().registers);
        m
    }

    /// Copies a program into memory from address 0 on.
    pub fn load(&mut self, bytes: &Vec<u8>)
        requires
            old(self).wf(),
            bytes@.len() <= MEMORY_SIZE,
        ensures
            final(self).wf(),
            final(self)@ == (MachineState {
                memory: bytes@ + old(self)@.memory.skip(bytes@.len() as int),
                ..old(self)@
            }),
    {
        let mut i: usize = 0;
        assert(bytes@.take(0) + old(self)@.memory.skip(0) =~= old(self)@.memory);
        while i < bytes.len()
            invariant
                self.wf(),
                old(self).wf(),
                i <= bytes@.len(),
                bytes@.len() <= MEMORY_SIZE,
                self.memory@ == bytes@.take(i as int) + old(self)@.memory.skip(i as int),
                self@ == (MachineState { memory: self.memory@, ..old(self)@ }),
            decreases bytes.len() - i,
        {
            self.memory.set(i, bytes[i]);
            assert(self.memory@ =~= bytes@.take(i + 1) + old(self)@.memory.skip(i + 1));
            i += 1;
        }
        assert(bytes@.take(i as int) =~= bytes@);
    }

    fn advance(&mut self, n: u16)
        requires
            old(self).wf(),
        ensures
            final(self).wf(),
            final(self)@ == (MachineState { ip: adv(old(self)@.ip, n as int), ..old(self)@ }),
    {
        self.instruction_pointer = adv_exec(self.instruction_pointer, n);
    }

    fn read_imm8(&self) -> (r: u8)
        requires
            self.wf(),
        ensures
            r == imm8(self@),
    {
        self.memory[adv_exec(self.instruction_pointer, 1) as usize]
    }

    fn read_word(&self, a: u16) -> (r: u16)
        requires
            self.wf(),
        ensures
            r == word_at(self@.memory, a),
    {
        let lo = self.memory[a as usize] as u16;
        let hi = self.memory[adv_exec(a, 1) as usize] as u16;
        lo + 256 * hi
    }

    fn read_imm16(&self) -> (r: u16)
        requires
            self.wf(),
        ensures
            r == imm16(self@),
    {
        self.read_word(adv_exec(self.instruction_pointer, 1))
    }

    fn write_word(&mut self, a: u16, v: u16)
        requires
            old(self).wf(),
        ensures
            final(self).wf(),
            final(self)@ == (MachineState {
                memory: store_word(old(self)@.memory, a, v),
                ..old(self)@
            }),
    {
        self.memory.set(a as usize, (v % 256) as u8);
        self.memory.set(adv_exec(a, 1) as usize, (v / 256) as u8);
    }

    fn exec_load_store(&mut self, code: u8)
        requires
            old(self).wf(),
            code < 0x20,
        ensures
            final(self).wf(),
            final(self)@ == load_store_spec(old(self)@, code),
    {
        if code == 0x00 {
            self.advance(1);
        } else if code == 0x08 {
            self.flags.halt = true;
        } else if code == 0x10 {
            self.accumulator = self.read_imm16();
            self.advance(3);
        } else if 0x11 <= code && code <= 0x14 {
            self.accumulator = self.registers[(code - 0x11) as usize];
            self.advance(1);
        } else if 0x15 <= code && code <= 0x18 {
            self.registers.set((code - 0x15) as usize, self.accumulator);
            self.advance(1);
        } else if code == 0x19 {
            self.accumulator = 0;
            self.advance(1);
        } else if code == 0x1a {
            self.accumulator = self.read_imm8() as u16;
            self.advance(2);
        }
    }

    fn exec_arith(&mut self, code: u8)
        requires
            old(self).wf(),
            0x20 <= code < 0x30,
            code == 0x26 ==> spec_peek(old(self)@.stack, 1) != 0,
        ensures
            final(self).wf(),
            final(self)@ == arith_spec(old(self)@, code),
    {
        if code == 0x20 || code == 0x21 {
            let c: u32 = if code == 0x21 && self.flags.carry { 1 } else { 0 };
            let a = self.stack.pop();
            let b = self.stack.pop();
            let sum: u32 = a as u32 + b as u32 + c;
            self.accumulator = (sum % 65536) as u16;
            self.flags.carry = sum > 65535;
            self.advance(1);
        } else if code == 0x22 || code == 0x23 {
            let c: i32 = if code == 0x23 && self.flags.carry { 1 } else { 0 };
            let a = self.stack.pop();
            let b = self.stack.pop();
            let d: i32 = a as i32 - b as i32 - c;
            self.accumulator = if d < 0 { (d + 65536) as u16 } else { d as u16 };
            self.flags.carry = d < 0;
            self.advance(1);
        } else if code == 0x24 {
            let a = self.stack.pop();
            self.accumulator = ((65536 - a as u32) % 65536) as u16;
            self.advance(1);
        } else if code == 0x25 {
            let a = self.stack.pop();
            let b = self.stack.pop();
            assert((a as u64) * (b as u64) <= 65535 * 65535) by (nonlinear_arith)
                requires
                    a <= 65535,
                    b <= 65535,
            ;
            let p: u64 = a as u64 * b as u64;
            if p > 65535 {
                self.accumulator = 65535;
                self.flags.overflow = true;
            } else {
                self.accumulator = p as u16;
                self.flags.overflow = false;
            }
            self.advance(1);
        } else if code == 0x26 {
            let ghost s = self@.stack;
            assert(spec_top(spec_pop(s)) == spec_peek(s, 1));
            let a = self.stack.pop();
            let b = self.stack.pop();
            self.accumulator = a / b;
            self.advance(1);
        } else if code == 0x27 || code == 0x28 {
            let i = self.read_imm16();
            let a = self.stack.pop();
            if code == 0x27 {
                let sum: u32 = a as u32 + i as u32;
                self.accumulator = (sum % 65536) as u16;
                self.flags.carry = sum > 65535;
            } else {
                let d: i32 = a as i32 - i as i32;
                self.accumulator = if d < 0 { (d + 65536) as u16 } else { d as u16 };
                self.flags.carry = d < 0;
            }
            self.advance(3);
        }
    }

    fn exec_stack(&mut self, code: u8)
        requires
            old(self).wf(),
            0x30 <= code < 0x40,
        ensures
            final(self).wf(),
            final(self)@ == stack_spec(old(self)@, code),
    {
        if code == 0x30 {
            self.stack.push(self.accumulator);
            self.advance(1);
        } else if code == 0x31 {
            self.accumulator = self.stack.pop();
            self.advance(1);
        } else if code == 0x32 {
            let f1 = self.stack.pop();
            let f2 = self.stack.pop();
            self.stack.push(f1);
            self.stack.push(f2);
            self.advance(1);
        } else if code == 0x33 {
            let f1 = self.stack.pop();
            self.stack.push(f1);
            self.accumulator = f1;
            self.advance(1);
        } else if code == 0x34 {
            let f1 = self.stack.pop();
            self.stack.pop();
            self.stack.push(f1);
            self.advance(1);
        } else if code == 0x35 {
            self.stack.pop();
            self.advance(1);
        } else if code == 0x36 {
            let f1 = self.stack.pop();
            self.stack.push(self.accumulator);
            self.stack.push(f1);
            self.advance(1);
        } else if code == 0x37 || code == 0x38 {
            let f1 = self.stack.pop();
            let f2 = self.stack.pop();
            let f3 = self.stack.pop();
            if code == 0x37 {
                self.stack.push(f2);
                self.stack.push(f1);
                self.stack.push(f3);
            } else {
                self.stack.push(f1);
                self.stack.push(f3);
                self.stack.push(f2);
            }
            self.advance(1);
        } else if code == 0x39 {
            let f1 = self.stack.pop();
            self.stack.push(f1);
            self.stack.push(f1);
            self.advance(1);
        } else if code == 0x3a {
            let i = self.read_imm16();
            self.stack.push(i);
            self.advance(3);
        } else if code == 0x3b || code == 0x3c {
            let f1 = self.stack.pop();
            let f2 = self.stack.pop();
            let f3 = self.stack.pop();
            let f4 = self.stack.pop();
            if code == 0x3b {
                self.stack.push(f3);
                self.stack.push(f2);
                self.stack.push(f1);
                self.stack.push(f4);
            } else {
                self.stack.push(f1);
                self.stack.push(f4);
                self.stack.push(f3);
                self.stack.push(f2);
            }
            self.advance(1);
        } else if code == 0x3d || code == 0x3e {
            let f1 = self.stack.pop();
            let f2 = self.stack.pop();
            let f3 = self.stack.pop();
            let f4 = self.stack.pop();
            let f5 = self.stack.pop();
            if code == 0x3d {
                self.stack.push(f1);
                self.stack.push(f5);
                self.stack.push(f4);
                self.stack.push(f3);
                self.stack.push(f2);
            } else {
                self.stack.push(f4);
                self.stack.push(f3);
                self.stack.push(f2);
                self.stack.push(f1);
                self.stack.push(f5);
            }
            self.advance(1);
        }
    }

    fn exec_jump(&mut self, code: u8)
        requires
            old(self).wf(),
            0x40 <= code < 0x50,
        ensures
            final(self).wf(),
            final(self)@ == jump_spec(old(self)@, code),
    {
        if code == 0x40 {
            self.instruction_pointer = self.read_imm16();
        } else if 0x41 <= code && code <= 0x43 {
            let target = self.read_imm16();
            let f1 = self.stack.pop();
            let f2 = self.stack.pop();
            self.stack.push(f2);
            self.stack.push(f1);
            let taken = if code == 0x41 {
                f1 > f2
            } else if code == 0x42 {
                f1 < f2
            } else {
                f1 == f2
            };
            if taken {
                self.instruction_pointer = target;
            } else {
                self.advance(3);
            }
        } else if code == 0x44 {
            if self.flags.test {
                self.instruction_pointer = self.read_imm16();
            } else {
                self.advance(3);
            }
        } else if code == 0x45 {
            self.instruction_pointer = self.stack.pop();
        } else if 0x46 <= code && code <= 0x48 {
            let target = self.stack.pop();
            let f2 = self.stack.pop();
            let f3 = self.stack.pop();
            self.stack.push(f3);
            self.stack.push(f2);
            let taken = if code == 0x46 {
                f2 > f3
            } else if code == 0x47 {
                f2 < f3
            } else {
                f2 == f3
            };
            if taken {
                self.instruction_pointer = target;
            } else {
                self.advance(1);
            }
        } else if code == 0x49 {
            let target = self.stack.pop();
            if self.flags.test {
                self.instruction_pointer = target;
            } else {
                self.advance(1);
            }
        } else if code == 0x4a {
            self.instruction_pointer_stack.push(self.instruction_pointer);
            self.advance(1);
        } else if code == 0x4b {
            self.instruction_pointer = self.instruction_pointer_stack.pop();
        } else if code == 0x4c {
            let target = self.stack.pop();
            self.instruction_pointer_stack.push(self.instruction_pointer);
            self.instruction_pointer = target;
        } else if code == 0x4d {
            let back = self.instruction_pointer_stack.pop();
            self.instruction_pointer = adv_exec(back, 1);
        } else if code == 0x4e {
            let target = self.read_imm16();
            self.instruction_pointer_stack.push(adv_exec(self.instruction_pointer, 2));
            self.instruction_pointer = target;
        } else if code == 0x4f {
            self.advance(3);
        }
    }

    fn exec_memory(&mut self, code: u8)
        requires
            old(self).wf(),
            0x50 <= code < 0x60,
        ensures
            final(self).wf(),
            final(self)@ == memory_spec(old(self)@, code),
    {
        if code == 0x50 {
            let address = self.stack.pop();
            let v = self.read_word(address);
            self.stack.push(v);
            self.advance(1);
        } else if code == 0x51 {
            let address = self.stack.pop();
            let v = self.stack.pop();
            self.write_word(address, v);
            self.advance(1);
        } else if code == 0x52 {
            let address = self.read_imm16();
            let v = self.read_word(address);
            self.stack.push(v);
            self.advance(3);
        } else if code == 0x53 {
            let address = self.read_imm16();
            let v = self.stack.pop();
            self.write_word(address, v);
            self.advance(3);
        }
    }

    fn exec_bitwise(&mut self, code: u8)
        requires
            old(self).wf(),
            0x60 <= code < 0x70,
        ensures
            final(self).wf(),
            final(self)@ == bitwise_spec(old(self)@, code),
    {
        if 0x60 <= code && code <= 0x64 {
            let f1 = self.stack.pop();
            let f2 = self.stack.pop();
            self.accumulator = if code == 0x60 {
                f1 | f2
            } else if code == 0x61 {
                f1 & f2
            } else if code == 0x62 {
                f1 ^ f2
            } else if code == 0x63 {
                !(f1 & f2)
            } else {
                !(f1 | f2)
            };
            self.advance(1);
        } else if 0x65 <= code && code <= 0x69 {
            let f1 = self.stack.pop();
            self.accumulator = if code == 0x65 {
                !f1
            } else if code == 0x66 {
                ((f1 as u32 * 2) % 65536) as u16
            } else if code == 0x67 {
                f1 / 2
            } else if code == 0x68 {
                ((f1 as u32 * 2) % 65536 + 1) as u16
            } else {
                f1 / 2 + 32768
            };
            self.advance(1);
        } else if 0x6a <= code && code <= 0x6e {
            let i = self.read_imm16();
            let f1 = self.stack.pop();
            self.accumulator = if code == 0x6a {
                f1 | i
            } else if code == 0x6b {
                f1 & i
            } else if code == 0x6c {
                f1 ^ i
            } else if code == 0x6d {
                !(f1 & i)
            } else {
                !(f1 | i)
            };
            self.advance(3);
        }
    }

    fn exec_incdec(&mut self, code: u8)
        requires
            old(self).wf(),
            0x70 <= code < 0x80,
        ensures
            final(self).wf(),
            final(self)@ == incdec_spec(old(self)@, code),
    {
        let f1 = self.stack.pop();
        let k: u32 = (code % 4 + 1) as u32;
        let v: u16 = if code % 8 < 4 {
            ((f1 as u32 + k) % 65536) as u16
        } else {
            ((f1 as u32 + 65536 - k) % 65536) as u16
        };
        if code <= 0x77 {
            self.accumulator = v;
        } else {
            self.stack.push(v);
        }
        self.advance(1);
    }

    fn exec_test(&mut self, code: u8)
        requires
            old(self).wf(),
            0x80 <= code < 0xf0,
        ensures
            final(self).wf(),
            final(self)@ == test_spec(old(self)@, code),
    {
        if code == 0x80 {
            self.flags.test = self.flags.carry || self.flags.overflow;
            self.advance(1);
        } else if code == 0x81 {
            self.flags.test = self.flags.carry;
            self.advance(1);
        } else if code == 0x82 {
            self.flags.test = self.flags.overflow;
            self.advance(1);
        } else if 0x88 <= code && code <= 0x8a {
            let f1 = self.stack.pop();
            self.flags.test = f1 != 0;
            let v: u16 = if code == 0x88 {
                1
            } else if code == 0x89 {
                ((f1 as u32 + 1) % 65536) as u16
            } else {
                ((f1 as u32 + 65535) % 65536) as u16
            };
            self.stack.push(v);
            self.advance(1);
        } else if 0x8b <= code && code <= 0x8d {
            let r0 = self.registers[0];
            self.flags.test = r0 != 0;
            let v: u16 = if code == 0x8b {
                1
            } else if code == 0x8c {
                ((r0 as u32 + 1) % 65536) as u16
            } else {
                ((r0 as u32 + 65535) % 65536) as u16
            };
            self.registers.set(0, v);
            self.advance(1);
        } else if code == 0x90 {
            let f1 = self.stack.pop();
            self.accumulator = ((f1 % 256) * 256) as u16;
            self.advance(1);
        } else if code == 0x91 {
            let f1 = self.stack.pop();
            self.accumulator = f1 / 256;
            self.advance(1);
        }
    }

    fn exec_io(&mut self, code: u8)
        requires
            old(self).wf(),
            0xf0 <= code,
        ensures
            final(self).wf(),
            final(self)@ == io_spec(old(self)@, code),
    {
        if code == 0xf0 {
            let f1 = self.stack.pop();
            self.output_buffer.put((f1 % 256) as u8);
            self.advance(1);
        } else if code == 0xf1 {
            let b = self.read_imm8();
            self.output_buffer.put(b);
            self.advance(2);
        } else if code == 0xf2 {
            let f1 = self.stack.pop();
            self.output_buffer.put((f1 % 256) as u8);
            self.output_buffer.put((f1 / 256) as u8);
            self.advance(1);
        } else if code == 0xf3 {
            let b1 = self.read_imm8();
            let b2 = self.memory[adv_exec(self.instruction_pointer, 2) as usize];
            self.output_buffer.put(b1);
            self.output_buffer.put(b2);
            self.advance(3);
        } else if code == 0xf4 {
            let f1 = self.stack.pop();
            let text: Vec<u8> = vec![
                48u8,
                120u8,
                hex_digit_exec((f1 % 256) / 16),
                hex_digit_exec(f1 % 16),
            ];
            assert(text@ =~= dump8_text(f1));
            self.output_buffer.put_all(text);
            self.advance(1);
        } else if code == 0xf5 {
            let f1 = self.stack.pop();
            let text: Vec<u8> = vec![
                48u8,
                120u8,
                hex_digit_exec(f1 / 4096),
                hex_digit_exec((f1 / 256) % 16),
                hex_digit_exec((f1 / 16) % 16),
                hex_digit_exec(f1 % 16),
            ];
            assert(text@ =~= dump16_text(f1));
            self.output_buffer.put_all(text);
            self.advance(1);
        }
    }

    fn execute(&mut self, code: u8)
        requires
            old(self).wf(),
            code == 0x26 ==> spec_peek(old(self)@.stack, 1) != 0,
        ensures
            final(self).wf(),
            final(self)@ == execute_spec(old(self)@, code),
    {
        if code < 0x20 {
            self.exec_load_store(code);
        } else if code < 0x30 {
            self.exec_arith(code);
        } else if code < 0x40 {
            self.exec_stack(code);
        } else if code < 0x50 {
            self.exec_jump(code);
        } else if code < 0x60 {
            self.exec_memory(code);
        } else if code < 0x70 {
            self.exec_bitwise(code);
        } else if code < 0x80 {
            self.exec_incdec(code);
        } else if code < 0xf0 {
            self.exec_test(code);
        } else {
            self.exec_io(code);
        }
    }

    /// Fetches the opcode at the instruction pointer and executes it. Answers
    /// the instruction's clock cycles (0 for an unknown opcode, which changes
    /// nothing), or the fault that stopped it, in which case nothing changed.
    pub fn step(&mut self) -> (r: Result<usize, MachineFault>)
        requires
            old(self).wf(),
        ensures
            final(self).wf(),
            match step_spec(old(self)@) {
                Ok(s) => final(self)@ == s && r == Ok::<usize, MachineFault>(step_cycles(old(self)@)),
                Err(f) => final(self)@ == old(self)@ && r == Err::<usize, MachineFault>(f),
            },
    {
        let code = self.memory[self.instruction_pointer as usize];
        match find_inst_by_opcode(&code) {
            None => Ok(0),
            Some(inst) => {
                if code == 0x26 && self.stack.peek(1) == 0 {
                    return Err(MachineFault::DivideByZero);
                }
                self.execute(code);
                Ok(inst.clock_cycles)
            },
        }
    }

    /// Steps until the halt flag is set, a step faults, or `max_steps` steps
    /// have been taken; answers the number of steps taken.
    pub fn run_until_halt(&mut self, max_steps: usize) -> (r: Result<usize, MachineFault>)
        requires
            old(self).wf(),
        ensures
            final(self).wf(),
            final(self)@ == run_state(old(self)@, max_steps as nat),
            match run_spec(old(self)@, max_steps as nat) {
                Ok(s) => final(self)@ == s && r == Ok::<usize, MachineFault>(
                    steps_taken(old(self)@, max_steps as nat) as usize,
                ),
                Err(f) => r == Err::<usize, MachineFault>(f),
            },
    {
        let mut n: usize = 0;
        while n < max_steps && !self.flags.halt
            invariant
                self.wf(),
                n <= max_steps,
                run_spec(old(self)@, max_steps as nat) == run_spec(self@, (max_steps - n) as nat),
                run_state(old(self)@, max_steps as nat) == run_state(self@, (max_steps - n) as nat),
                steps_taken(old(self)@, max_steps as nat) == n + steps_taken(
                    self@,
                    (max_steps - n) as nat,
                ),
            decreases max_steps - n,
        {
            match self.step() {
                Ok(_) => {},
                Err(f) => {
                    return Err(f);
                },
            }
            n += 1;
        }
        Ok(n)
    }

    /// The accumulator.
    pub fn accumulator(&self) -> (r: u16)
        ensures
            r == self@.accumulator,
    {
        self.accumulator
    }

    /// The instruction pointer.
    pub fn instruction_pointer(&self) -> (r: u16)
        ensures
            r == self@.ip,
    {
        self.instruction_pointer
    }

    /// The value of a register.
    pub fn register(&self, reg: Register) -> (r: u16)
        requires
            self.wf(),
        ensures
            r == self@.registers[reg.spec_index()],
    {
        self.registers[reg.index()]
    }

    /// The flags.
    pub fn flags(&self) -> (r: Flags)
        ensures
            r == self@.flags,
    {
        self.flags
    }

    /// Whether the halt flag is set.
    pub fn halted(&self) -> (r: bool)
        ensures
            r == self@.flags.halt,
    {
        self.flags.halt
    }

    /// The byte stored at an address.
    pub fn memory_at(&self, address: u16) -> (r: u8)
        requires
            self.wf(),
        ensures
            r == self@.memory[address as int],
    {
        self.memory[address as usize]
    }

    /// The operand stack.
    pub fn operand_stack(&self) -> (r: &Stack)
        ensures
            r@ == self@.stack,
    {
        &self.stack
    }

    /// The call stack of return addresses.
    pub fn call_stack(&self) -> (r: &Stack)
        ensures
            r@ == self@.call_stack,
    {
        &self.instruction_pointer_stack
    }

    /// The bytes written to the output channel and not yet taken.
    pub fn output_buffer(&self) -> (r: &SerialBuffer)
        ensures
            r@ == self@.output,
    {
        &self.output_buffer
    }

    /// Takes every byte written to the output channel, oldest first.
    pub fn take_output(&mut self) -> (r: Vec<u8>)
        requires
            old(self).wf(),
        ensures
            final(self).wf(),
            r@ == old(self)@.output,
            final(self)@ == (MachineState { output: Seq::empty(), ..old(self)@ }),
    {
        self.output_buffer.take_all()
    }
}

} // verus!
