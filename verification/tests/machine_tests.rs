use chip8_core::cpu::Cpu;
use chip8_core::cpu::Fault;
use chip8_core::cpu::RunStatus;

fn put_word(cpu: &mut Cpu, at: usize, w: u16) {
    cpu.mem[at] = (w >> 8) as u8;
    cpu.mem[at + 1] = (w & 0xFF) as u8;
}

#[test]
fn new_machine_is_zeroed() {
    let cpu = Cpu::new();
    assert_eq!(cpu.pos_in_mem, 0);
    assert_eq!(cpu.stack_ptr, 0);
    assert!(cpu.mem.iter().all(|&b| b == 0));
    assert!(cpu.registers.iter().all(|&r| r == 0));
    assert!(cpu.stack.iter().all(|&a| a == 0));
}

#[test]
fn ld_sets_a_register() {
    let mut cpu = Cpu::new();
    cpu.ld(7, 0xAB);
    assert_eq!(cpu.registers[7], 0xAB);
    assert_eq!(cpu.pos_in_mem, 0);
}

#[test]
fn add_wraps_modulo_256() {
    let mut cpu = Cpu::new();
    cpu.registers[0] = 250;
    cpu.add(0, 10);
    assert_eq!(cpu.registers[0], 4);

    cpu.registers[1] = 255;
    cpu.add(1, 255);
    assert_eq!(cpu.registers[1], 254);

    cpu.registers[2] = 200;
    cpu.add(2, 55);
    assert_eq!(cpu.registers[2], 255);
}

#[test]
fn add_xy_wraps_modulo_256() {
    let mut cpu = Cpu::new();
    cpu.registers[0] = 250;
    cpu.registers[1] = 10;
    cpu.add_xy(0, 1);
    assert_eq!(cpu.registers[0], 4);
    assert_eq!(cpu.registers[1], 10);
}

#[test]
fn bitwise_handlers_compute_or_and_xor() {
    let mut cpu = Cpu::new();
    cpu.registers[0] = 0b1100_1010;
    cpu.registers[1] = 0b1010_0110;
    cpu.or_xy(0, 1);
    assert_eq!(cpu.registers[0], 0b1110_1110);

    cpu.registers[2] = 0b1100_1010;
    cpu.registers[3] = 0b1010_0110;
    cpu.and_xy(2, 3);
    assert_eq!(cpu.registers[2], 0b1000_0010);

    cpu.registers[4] = 0b1100_1010;
    cpu.registers[5] = 0b1010_0110;
    cpu.xor_xy(4, 5);
    assert_eq!(cpu.registers[4], 0b0110_1100);
}

#[test]
fn se_compares_register_value_not_index() {
    // Register 3 holds 7; `SE r3, 3` must not skip, even though the
    // register's own index equals the immediate.
    let mut cpu = Cpu::new();
    cpu.registers[3] = 7;
    cpu.se(3, 3);
    assert_eq!(cpu.pos_in_mem, 0);
    cpu.se(3, 7);
    assert_eq!(cpu.pos_in_mem, 2);
}

#[test]
fn sne_compares_register_value_not_index() {
    let mut cpu = Cpu::new();
    cpu.registers[3] = 7;
    cpu.sne(3, 7);
    assert_eq!(cpu.pos_in_mem, 0);
    cpu.sne(3, 3);
    assert_eq!(cpu.pos_in_mem, 2);
}

#[test]
fn jmp_sets_the_program_counter() {
    let mut cpu = Cpu::new();
    cpu.jmp(0x345);
    assert_eq!(cpu.pos_in_mem, 0x345);
}

#[test]
fn call_pushes_and_ret_pops() {
    let mut cpu = Cpu::new();
    cpu.pos_in_mem = 0x202;
    cpu.call(0x400);
    assert_eq!(cpu.pos_in_mem, 0x400);
    assert_eq!(cpu.stack_ptr, 1);
    assert_eq!(cpu.stack[0], 0x202);
    cpu.ret();
    assert_eq!(cpu.pos_in_mem, 0x202);
    assert_eq!(cpu.stack_ptr, 0);
}

#[test]
fn run_halts_on_the_halt_word() {
    let mut cpu = Cpu::new();
    // Memory is all zero: the first fetched word is the halt sentinel.
    assert_eq!(cpu.run(10), RunStatus::Halted);
    assert_eq!(cpu.pos_in_mem, 2);
}

#[test]
fn cls_is_a_no_op() {
    let mut cpu = Cpu::new();
    cpu.registers[0] = 9;
    put_word(&mut cpu, 0, 0x00E0);
    assert_eq!(cpu.run(10), RunStatus::Halted);
    assert_eq!(cpu.registers[0], 9);
    assert_eq!(cpu.pos_in_mem, 4);
}

#[test]
fn satisfied_skip_advances_by_four() {
    let mut cpu = Cpu::new();
    cpu.registers[2] = 5;
    // SE r2, 5 is satisfied: the LD under it must not execute.
    put_word(&mut cpu, 0, 0x3205);
    put_word(&mut cpu, 2, 0x6077);
    assert_eq!(cpu.run(10), RunStatus::Halted);
    assert_eq!(cpu.registers[0], 0);
    assert_eq!(cpu.pos_in_mem, 6);
}

#[test]
fn unsatisfied_skip_advances_by_two() {
    let mut cpu = Cpu::new();
    cpu.registers[2] = 4;
    put_word(&mut cpu, 0, 0x3205);
    put_word(&mut cpu, 2, 0x6077);
    assert_eq!(cpu.run(10), RunStatus::Halted);
    assert_eq!(cpu.registers[0], 0x77);
}

#[test]
fn skip_on_equal_registers() {
    let mut cpu = Cpu::new();
    cpu.registers[1] = 3;
    cpu.registers[2] = 3;
    // SE r1, r2 is satisfied: the LD under it must not execute.
    put_word(&mut cpu, 0, 0x5120);
    put_word(&mut cpu, 2, 0x6077);
    assert_eq!(cpu.run(10), RunStatus::Halted);
    assert_eq!(cpu.registers[0], 0);

    let mut cpu = Cpu::new();
    cpu.registers[1] = 3;
    cpu.registers[2] = 4;
    put_word(&mut cpu, 0, 0x5120);
    put_word(&mut cpu, 2, 0x6077);
    assert_eq!(cpu.run(10), RunStatus::Halted);
    assert_eq!(cpu.registers[0], 0x77);
}

#[test]
fn register_register_moves_and_arithmetic_run() {
    let mut cpu = Cpu::new();
    cpu.registers[1] = 0x0F;
    put_word(&mut cpu, 0, 0x8010); // LD r0, r1
    put_word(&mut cpu, 2, 0x7001); // ADD r0, 1
    assert_eq!(cpu.run(10), RunStatus::Halted);
    assert_eq!(cpu.registers[0], 0x10);
}

#[test]
fn seventeenth_nested_call_is_a_stack_overflow() {
    let mut cpu = Cpu::new();
    // CALL 0x000 at address 0 calls itself forever; the seventeenth call
    // finds all sixteen slots in use.
    put_word(&mut cpu, 0, 0x2000);
    assert_eq!(cpu.run(100), RunStatus::Faulted(Fault::StackOverflow));
    assert_eq!(cpu.stack_ptr, 16);
}

#[test]
fn ret_on_an_empty_stack_is_a_stack_underflow() {
    let mut cpu = Cpu::new();
    put_word(&mut cpu, 0, 0x00EE);
    assert_eq!(cpu.run(10), RunStatus::Faulted(Fault::StackUnderflow));
}

#[test]
fn unimplemented_word_is_fatal_and_carried() {
    let mut cpu = Cpu::new();
    put_word(&mut cpu, 0, 0x9000);
    assert_eq!(cpu.run(10), RunStatus::Faulted(Fault::UnimplementedOpcode(0x9000)));

    let mut cpu = Cpu::new();
    put_word(&mut cpu, 0, 0x8AB7);
    assert_eq!(cpu.run(10), RunStatus::Faulted(Fault::UnimplementedOpcode(0x8AB7)));
}

#[test]
fn fetch_past_the_end_of_memory_is_fatal() {
    let mut cpu = Cpu::new();
    // JMP 0xFFF leaves no room for a two-byte fetch.
    put_word(&mut cpu, 0, 0x1FFF);
    assert_eq!(cpu.run(10), RunStatus::Faulted(Fault::FetchOutOfBounds));
    assert_eq!(cpu.pos_in_mem, 0xFFF);
}

#[test]
fn a_cycling_program_runs_out_of_steps() {
    let mut cpu = Cpu::new();
    put_word(&mut cpu, 0, 0x1000); // JMP 0x000
    assert_eq!(cpu.run(1000), RunStatus::OutOfSteps);
}

#[test]
fn call_add_twice_ret_regression() {
    // The reference program: two CALLs to a routine at 0x100 that adds
    // register 1 into register 0 twice and returns.
    let mut cpu = Cpu::new();
    cpu.registers[0] = 5;
    cpu.registers[1] = 10;

    cpu.mem[0x000] = 0x21;
    cpu.mem[0x001] = 0x00;
    cpu.mem[0x002] = 0x21;
    cpu.mem[0x003] = 0x00;

    cpu.mem[0x100] = 0x80;
    cpu.mem[0x101] = 0x14;
    cpu.mem[0x102] = 0x80;
    cpu.mem[0x103] = 0x14;
    cpu.mem[0x104] = 0x00;
    cpu.mem[0x105] = 0xEE;

    assert_eq!(cpu.run(100), RunStatus::Halted);
    assert_eq!(cpu.registers[0], 45);
    // The run halted cleanly at the 0x0000 word following the second CALL.
    assert_eq!(cpu.pos_in_mem, 6);
    assert_eq!(cpu.stack_ptr, 0);
}
