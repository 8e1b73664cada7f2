use rusty_jello::assembler::Assembler;
use rusty_jello::machine::{Machine, Register};
use rusty_jello::semantics::MachineFault;

fn boot(src: &str) -> Machine {
    let mut a = Assembler::new();
    a.add_string(src);
    let bytes = a.assemble().unwrap();
    let mut m = Machine::new();
    m.load(&bytes);
    m
}

#[test]
fn pushi_then_halt_round_trip() {
    let mut m = boot("PUSHI 0x1234\nHALT");
    assert_eq!(m.step(), Ok(3));
    assert_eq!(m.step(), Ok(1));
    assert_eq!(m.operand_stack().peek(0), 0x1234);
    assert!(m.flags().halt);
}

#[test]
fn add_sets_carry_on_wrap() {
    let mut m = boot("PUSHI 0xFFFF\nPUSHI 0x0002\nADD\nHALT");
    assert_eq!(m.run_until_halt(100), Ok(4));
    assert_eq!(m.accumulator(), 0x0001);
    assert!(m.flags().carry);
}

#[test]
fn sub_borrows() {
    let mut m = boot("PUSHI 0x0005\nPUSHI 0x0003\nSUB\nHALT");
    m.run_until_halt(100).unwrap();
    assert_eq!(m.accumulator(), 0xfffe);
    assert!(m.flags().carry);
}

#[test]
fn mul_saturates() {
    let mut m = boot("PUSHI 0x0100\nPUSHI 0x0100\nMUL\nTESTO\nHALT");
    m.run_until_halt(100).unwrap();
    assert_eq!(m.accumulator(), 0xffff);
    assert!(m.flags().overflow);
    assert!(m.flags().test);
}

#[test]
fn div_truncates() {
    let mut m = boot("PUSHI 0x0002\nPUSHI 0x0007\nDIV\nHALT");
    m.run_until_halt(100).unwrap();
    assert_eq!(m.accumulator(), 3);
}

#[test]
fn div_by_zero_is_a_fault() {
    let mut m = boot("PUSHI 0x0000\nPUSHI 0x0005\nDIV\nHALT");
    assert_eq!(m.step(), Ok(3));
    assert_eq!(m.step(), Ok(3));
    assert_eq!(m.step(), Err(MachineFault::DivideByZero));
    assert_eq!(m.instruction_pointer(), 6);
    assert_eq!(m.operand_stack().len(), 2);
    assert_eq!(m.run_until_halt(10), Err(MachineFault::DivideByZero));
}

#[test]
fn neg_is_twos_complement() {
    let mut m = boot("PUSHI 0x0001\nNEG\nHALT");
    m.run_until_halt(10).unwrap();
    assert_eq!(m.accumulator(), 0xffff);
}

#[test]
fn registers_round_trip() {
    let mut m = boot("LRI 0xabcd\nSR2\nZERO\nLR2\nHALT");
    m.run_until_halt(10).unwrap();
    assert_eq!(m.register(Register::R2), 0xabcd);
    assert_eq!(m.accumulator(), 0xabcd);
}

#[test]
fn swap_and_rotate() {
    let mut m = boot("PUSHI 0x0001\nPUSHI 0x0002\nPUSHI 0x0003\nROTCW\nHALT");
    m.run_until_halt(10).unwrap();
    // popped 3, 2, 1 and pushed back 2, 3, 1
    assert_eq!(m.operand_stack().peek(0), 1);
    assert_eq!(m.operand_stack().peek(1), 3);
    assert_eq!(m.operand_stack().peek(2), 2);
    let mut s = boot("PUSHI 0x0001\nPUSHI 0x0002\nSWAP\nHALT");
    s.run_until_halt(10).unwrap();
    assert_eq!(s.operand_stack().peek(0), 1);
    assert_eq!(s.operand_stack().peek(1), 2);
}

#[test]
fn conditional_jump_keeps_operands() {
    // top 5 > second 3: jump taken to HALT at 0x000a
    let mut m = boot("PUSHI 0x0003\nPUSHI 0x0005\nJMPIG :done\nNOOP\n:done\nHALT");
    m.run_until_halt(10).unwrap();
    assert_eq!(m.instruction_pointer(), 10);
    assert_eq!(m.operand_stack().peek(0), 5);
    assert_eq!(m.operand_stack().peek(1), 3);
}

#[test]
fn call_and_return() {
    let mut m = boot("CALLI :sub\nHALT\n:sub\nLRI 0x0042\nRET");
    assert_eq!(m.run_until_halt(10), Ok(4));
    assert_eq!(m.accumulator(), 0x42);
    assert_eq!(m.instruction_pointer(), 3);
}

#[test]
fn store_and_load_words() {
    let mut m = boot("PUSHI 0xbeef\nSTOREI 0x0100\nLOADI 0x0100\nHALT");
    m.run_until_halt(10).unwrap();
    assert_eq!(m.memory_at(0x0100), 0xef);
    assert_eq!(m.memory_at(0x0101), 0xbe);
    assert_eq!(m.operand_stack().peek(0), 0xbeef);
}

#[test]
fn store_wraps_at_top_of_memory() {
    let mut m = boot("PUSHI 0x1234\nPUSHI 0xffff\nSTORE\nHALT");
    m.run_until_halt(10).unwrap();
    assert_eq!(m.memory_at(0xffff), 0x34);
    assert_eq!(m.memory_at(0x0000), 0x12);
}

#[test]
fn shifts_inject_bits() {
    let mut m = boot("PUSHI 0x8001\nRSFT1\nHALT");
    m.run_until_halt(10).unwrap();
    assert_eq!(m.accumulator(), 0xc000);
    let mut l = boot("PUSHI 0x8001\nLSFT1\nHALT");
    l.run_until_halt(10).unwrap();
    assert_eq!(l.accumulator(), 0x0003);
}

#[test]
fn increments_and_decrements_wrap() {
    let mut m = boot("PUSHI 0xffff\nINC2\nHALT");
    m.run_until_halt(10).unwrap();
    assert_eq!(m.accumulator(), 1);
    let mut d = boot("PUSHI 0x0001\nDEC3P\nHALT");
    d.run_until_halt(10).unwrap();
    assert_eq!(d.operand_stack().peek(0), 0xfffe);
}

#[test]
fn test_and_decrement_register() {
    let mut m = boot("TSADER\nHALT");
    m.run_until_halt(10).unwrap();
    assert!(!m.flags().test);
    assert_eq!(m.register(Register::R0), 0xffff);
}

#[test]
fn print_instructions_write_output() {
    let mut m = boot("PUSHI 0x4241\nPRN2\nPRNI 'C'\nPUSHI 0xbeef\nDUMP16\nPUSHI 0x0107\nDUMP8\nHALT");
    m.run_until_halt(20).unwrap();
    assert_eq!(m.take_output(), b"ABC0xbeef0x07".to_vec());
    assert!(!m.output_buffer().has_bytes());
}

#[test]
fn unknown_opcode_is_a_no_op() {
    let mut m = Machine::new();
    m.load(&vec![0x01, 0x08]);
    assert_eq!(m.step(), Ok(0));
    assert_eq!(m.instruction_pointer(), 0);
    assert_eq!(m.run_until_halt(5), Ok(5));
    assert!(!m.halted());
}

#[test]
fn skip_passes_its_operand() {
    let mut m = boot("SKIP 0x0808\nHALT");
    assert_eq!(m.step(), Ok(1));
    assert_eq!(m.instruction_pointer(), 3);
}

#[test]
fn fresh_machine_is_zeroed() {
    let m = Machine::new();
    assert_eq!(m.accumulator(), 0);
    assert_eq!(m.instruction_pointer(), 0);
    assert_eq!(m.memory_at(0xffff), 0);
    assert_eq!(m.operand_stack().len(), 0);
    assert_eq!(m.call_stack().len(), 0);
    assert!(!m.halted());
}

fn stack_after(src: &str) -> Vec<u16> {
    let mut m = boot(src);
    m.run_until_halt(50).unwrap();
    let s = m.operand_stack();
    (0..s.len()).rev().map(|d| s.peek(d)).collect()
}

#[test]
fn stack_permutations() {
    let three = "PUSHI 0x0001\nPUSHI 0x0002\nPUSHI 0x0003\n";
    let four = "PUSHI 0x0001\nPUSHI 0x0002\nPUSHI 0x0003\nPUSHI 0x0004\n";
    let five = "PUSHI 0x0001\nPUSHI 0x0002\nPUSHI 0x0003\nPUSHI 0x0004\nPUSHI 0x0005\n";
    assert_eq!(stack_after(&format!("{}ROTAC\nHALT", three)), vec![3, 1, 2]);
    assert_eq!(stack_after(&format!("{}ROTCW4\nHALT", four)), vec![2, 3, 4, 1]);
    assert_eq!(stack_after(&format!("{}ROTAC4\nHALT", four)), vec![4, 1, 2, 3]);
    assert_eq!(stack_after(&format!("{}ROTCW5\nHALT", five)), vec![5, 1, 2, 3, 4]);
    assert_eq!(stack_after(&format!("{}ROTAC5\nHALT", five)), vec![2, 3, 4, 5, 1]);
    assert_eq!(stack_after(&format!("{}SPILL\nHALT", three)), vec![1, 3]);
    assert_eq!(stack_after(&format!("{}DROP\nDUP\nHALT", three)), vec![1, 2, 2]);
    assert_eq!(stack_after("PUSHI 0x0001\nLRI 0x0009\nUNDER\nHALT"), vec![9, 1]);
}

#[test]
fn peak_reads_top() {
    let mut m = boot("PUSHI 0x0007\nPEAK\nHALT");
    m.run_until_halt(10).unwrap();
    assert_eq!(m.accumulator(), 7);
    assert_eq!(m.operand_stack().len(), 1);
}

#[test]
fn stack_compare_jump() {
    // the address is on top, then the two compared values
    let mut m = boot("PUSHI 0x0005\nPUSHI 0x0003\nPUSHI :done\nJMPLT\nNOOP\n:done\nHALT");
    assert_eq!(m.run_until_halt(10), Ok(5));
    assert_eq!(m.instruction_pointer(), 11);
    assert_eq!(m.operand_stack().peek(0), 3);
    assert_eq!(m.operand_stack().peek(1), 5);
}

#[test]
fn push_and_pop_instruction_pointer() {
    let mut m = boot("NOOP\nPUSHP\nPOPP\nHALT");
    m.step().unwrap();
    m.step().unwrap();
    assert_eq!(m.call_stack().peek(0), 1);
    m.step().unwrap();
    assert_eq!(m.instruction_pointer(), 1);
}

#[test]
fn bitwise_with_two_operands() {
    let mut m = boot("PUSHI 0xff00\nPUSHI 0xf0f0\nNAND\nHALT");
    m.run_until_halt(10).unwrap();
    assert_eq!(m.accumulator(), 0x0fff);
    let mut i = boot("PUSHI 0x00f0\nXORI 0x0ff0\nHALT");
    i.run_until_halt(10).unwrap();
    assert_eq!(i.accumulator(), 0x0f00);
}

#[test]
fn test_and_increment_stack() {
    let mut m = boot("PUSHI 0x0000\nTSAINC\nHALT");
    m.run_until_halt(10).unwrap();
    assert!(!m.flags().test);
    assert_eq!(m.operand_stack().peek(0), 1);
}

#[test]
fn byte_shifts() {
    let mut l = boot("PUSHI 0x12ab\nLSFTB\nHALT");
    l.run_until_halt(10).unwrap();
    assert_eq!(l.accumulator(), 0xab00);
    let mut r = boot("PUSHI 0x12ab\nRSFTB\nHALT");
    r.run_until_halt(10).unwrap();
    assert_eq!(r.accumulator(), 0x0012);
}

#[test]
fn print_low_byte() {
    let mut m = boot("PUSHI 0x1241\nPRN\nHALT");
    m.run_until_halt(10).unwrap();
    assert_eq!(m.take_output(), vec![0x41]);
}

#[test]
fn fault_leaves_the_state_before_the_faulting_step() {
    let mut m = boot("PUSHI 0x0000\nPUSHI 0x0004\nDIV\nHALT");
    assert_eq!(m.run_until_halt(10), Err(MachineFault::DivideByZero));
    assert_eq!(m.instruction_pointer(), 6);
    assert_eq!(m.operand_stack().peek(0), 4);
    assert_eq!(m.operand_stack().peek(1), 0);
}
