use isc_vm::{assemble, demo_program, encode, ExecutionError, Processor, RunStatus};

fn words(source: &str) -> Vec<u32> {
    assemble(source).unwrap()
}

fn after_run(source: &str) -> Processor {
    let mut cpu = Processor::new(false);
    assert_eq!(cpu.run(&words(source), 10_000), Ok(RunStatus::Finished));
    cpu
}

fn registers(cpu: &Processor) -> [u32; 4] {
    [
        cpu.register(0).unwrap(),
        cpu.register(1).unwrap(),
        cpu.register(2).unwrap(),
        cpu.register(3).unwrap(),
    ]
}

fn memory(cpu: &Processor) -> Vec<u32> {
    (0..64).map(|address| cpu.memory_word(address).unwrap()).collect()
}

#[test]
fn a_new_processor_is_all_zero() {
    let cpu = Processor::new(true);
    assert_eq!(registers(&cpu), [0, 0, 0, 0]);
    assert_eq!(memory(&cpu), vec![0; 64]);
    assert_eq!(cpu.program_counter(), 0);
    assert_eq!(cpu.flag_register(), 0);
    assert!(!cpu.halted());
    assert!(cpu.debug());
    assert!(!Processor::new(false).debug());
}

#[test]
fn accessors_refuse_what_is_not_there() {
    let cpu = Processor::new(false);
    assert_eq!(cpu.register(3), Some(0));
    assert_eq!(cpu.register(4), None);
    assert_eq!(cpu.memory_word(63), Some(0));
    assert_eq!(cpu.memory_word(64), None);
}

#[test]
fn load_program_copies_from_address_zero_and_keeps_the_rest() {
    let mut cpu = Processor::new(false);
    cpu.load_program(&[11, 22, 33, 44]);
    cpu.load_program(&[55, 66]);
    let mut expected = vec![0u32; 64];
    expected[0] = 55;
    expected[1] = 66;
    expected[2] = 33;
    expected[3] = 44;
    assert_eq!(memory(&cpu), expected);
    assert_eq!(cpu.program_counter(), 0);
}

#[test]
fn load_program_takes_a_full_memory() {
    let program: Vec<u32> = (100..164).collect();
    let mut cpu = Processor::new(false);
    cpu.load_program(&program);
    assert_eq!(memory(&cpu), program);
}

#[test]
fn fetch_gives_the_word_at_the_program_counter() {
    let mut cpu = Processor::new(false);
    let program = words("ldi 5 r0\nldi 4 r1\nhlt");
    cpu.load_program(&program);
    assert_eq!(cpu.fetch_instruction(), program[0]);
    assert_eq!(cpu.execute_instruction(), Ok(()));
    assert!(!cpu.end_cycle());
    assert_eq!(cpu.fetch_instruction(), program[1]);
    assert_eq!(cpu.program_counter(), 1);
}

#[test]
fn load_load_add_halt_gives_the_sum_and_halts() {
    let mut cpu = Processor::new(false);
    cpu.load_program(&words("ldi 5 r0\nldi 4 r1\nadd r0 r1 r2\nhlt"));
    for _ in 0..3 {
        assert_eq!(cpu.execute_instruction(), Ok(()));
        assert!(!cpu.halted());
        assert!(!cpu.end_cycle());
    }
    assert_eq!(cpu.execute_instruction(), Ok(()));
    assert_eq!(cpu.register(2), Some(9));
    assert_eq!(registers(&cpu), [5, 4, 9, 0]);
    assert!(cpu.halted());
    assert_eq!(cpu.program_counter(), 3);
}

#[test]
fn a_run_that_halts_leaves_the_processor_reset() {
    let cpu = after_run("ldi 5 r0\nldi 4 r1\nadd r0 r1 r2\nhlt");
    assert_eq!(registers(&cpu), [5, 4, 9, 0]);
    assert_eq!(cpu.program_counter(), 0);
    assert!(!cpu.halted());
}

#[test]
fn load_immediate_takes_every_16_bit_value() {
    let cpu = after_run("ldi 65535 r3\nldi 16 r0\nldi 0 r1\nhlt");
    assert_eq!(registers(&cpu), [16, 0, 0, 65535]);
}

#[test]
fn subtract_gives_the_difference() {
    let cpu = after_run("ldi 9 r0\nldi 4 r1\nsub r0 r1 r3\nhlt");
    assert_eq!(registers(&cpu), [9, 4, 0, 5]);
}

#[test]
fn subtract_wraps_round_below_zero() {
    let cpu = after_run("ldi 1 r1\nsub r0 r1 r2\nhlt");
    assert_eq!(cpu.register(2), Some(0xFFFF_FFFF));
}

#[test]
fn add_wraps_round_at_two_to_the_32() {
    let cpu = after_run("ldi 3 r1\nsub r0 r1 r2\nldi 5 r3\nadd r2 r3 r0\nhlt");
    assert_eq!(cpu.register(2), Some(0xFFFF_FFFD));
    assert_eq!(cpu.register(0), Some(2));
}

#[test]
fn add_may_use_one_register_three_times() {
    let cpu = after_run("ldi 21 r1\nadd r1 r1 r1\nhlt");
    assert_eq!(cpu.register(1), Some(42));
}

#[test]
fn compare_with_an_equal_register_sets_the_flag_to_two() {
    let cpu = after_run("ldi 8 r2\ncmp 8 r2\nhlt");
    assert_eq!(cpu.flag_register(), 2);
}

#[test]
fn compare_with_a_smaller_register_sets_the_flag_to_three() {
    let cpu = after_run("ldi 5 r2\ncmp 8 r2\nhlt");
    assert_eq!(cpu.flag_register(), 3);
}

#[test]
fn compare_with_a_greater_register_sets_the_flag_to_one() {
    let cpu = after_run("ldi 10 r2\ncmp 8 r2\nhlt");
    assert_eq!(cpu.flag_register(), 1);
}

#[test]
fn compare_reads_the_register_as_signed() {
    let cpu = after_run("ldi 1 r1\nsub r0 r1 r2\ncmp 0 r2\nhlt");
    assert_eq!(cpu.register(2), Some(0xFFFF_FFFF));
    assert_eq!(cpu.flag_register(), 3);
    let mut cpu = Processor::new(false);
    let mut program = words("lod 4 r0\ncmp 65535 r0\nhlt");
    program.push(0);
    program.push(0x8000_0000);
    assert_eq!(cpu.run(&program, 100), Ok(RunStatus::Finished));
    assert_eq!(cpu.flag_register(), 3);
    let mut cpu = Processor::new(false);
    let mut program = words("lod 4 r0\ncmp 65535 r0\nhlt");
    program.push(0);
    program.push(0x7FFF_FFFF);
    assert_eq!(cpu.run(&program, 100), Ok(RunStatus::Finished));
    assert_eq!(cpu.flag_register(), 1);
}

#[test]
fn compare_leaves_registers_and_memory_alone() {
    let mut cpu = Processor::new(false);
    let program = words("ldi 5 r2\ncmp 8 r2");
    cpu.load_program(&program);
    assert_eq!(cpu.execute_instruction(), Ok(()));
    assert!(!cpu.end_cycle());
    let before = memory(&cpu);
    assert_eq!(cpu.execute_instruction(), Ok(()));
    assert_eq!(registers(&cpu), [0, 0, 5, 0]);
    assert_eq!(memory(&cpu), before);
    assert_eq!(cpu.program_counter(), 1);
}

#[test]
fn a_taken_jump_if_less_lands_on_its_target_and_clears_the_flag() {
    let mut cpu = after_run("ldi 5 r2\ncmp 8 r2\nhlt");
    assert_eq!(cpu.flag_register(), 3);
    cpu.load_program(&words("jlt 2\nldi 7 r0\nldi 9 r1\nhlt"));
    assert_eq!(cpu.execute_instruction(), Ok(()));
    assert_eq!(cpu.flag_register(), 0);
    assert_eq!(cpu.program_counter(), 1);
    assert!(!cpu.end_cycle());
    assert_eq!(cpu.program_counter(), 2);
    assert_eq!(cpu.execute_instruction(), Ok(()));
    assert_eq!(cpu.register(0), Some(0));
    assert_eq!(cpu.register(1), Some(9));
}

#[test]
fn a_taken_jump_skips_what_lies_before_its_target() {
    let cpu = after_run("ldi 5 r2\ncmp 8 r2\njlt 5\nldi 1 r0\nldi 2 r1\nldi 3 r3\nhlt");
    assert_eq!(registers(&cpu), [0, 0, 5, 3]);
    assert_eq!(cpu.flag_register(), 0);
}

#[test]
fn jump_if_equal_and_jump_if_greater_wait_for_their_own_flag() {
    let cpu = after_run("ldi 8 r2\ncmp 8 r2\njeq 5\nldi 1 r0\nldi 2 r1\nldi 3 r3\nhlt");
    assert_eq!(registers(&cpu), [0, 0, 8, 3]);
    assert_eq!(cpu.flag_register(), 0);
    let cpu = after_run("ldi 9 r2\ncmp 8 r2\njgt 5\nldi 1 r0\nldi 2 r1\nldi 3 r3\nhlt");
    assert_eq!(registers(&cpu), [0, 0, 9, 3]);
    assert_eq!(cpu.flag_register(), 0);
}

#[test]
fn a_jump_whose_flag_is_not_set_changes_nothing() {
    let cpu = after_run("ldi 8 r2\ncmp 8 r2\njlt 5\njgt 5\nldi 2 r1\nldi 3 r3\nhlt");
    assert_eq!(registers(&cpu), [0, 2, 8, 3]);
    assert_eq!(cpu.flag_register(), 2);
    let cpu = after_run("jeq 3\njgt 3\njlt 3\nldi 1 r0\nhlt");
    assert_eq!(cpu.register(0), Some(1));
    assert_eq!(cpu.flag_register(), 0);
}

#[test]
fn an_unconditional_jump_sets_the_program_counter_to_its_target() {
    let mut cpu = Processor::new(false);
    cpu.load_program(&words("jmp 3\nldi 1 r0\nldi 2 r1\nldi 3 r2\nldi 4 r3\nhlt"));
    assert_eq!(cpu.execute_instruction(), Ok(()));
    assert_eq!(cpu.program_counter(), 3);
    assert!(!cpu.end_cycle());
    assert_eq!(cpu.program_counter(), 4);
    assert_eq!(cpu.run(&Vec::new(), 100), Ok(RunStatus::Finished));
    assert_eq!(registers(&cpu), [0, 0, 0, 4]);
}

#[test]
fn an_unconditional_jump_leaves_the_flag_alone() {
    let cpu = after_run("ldi 5 r2\ncmp 8 r2\njmp 3\nhlt\nhlt");
    assert_eq!(cpu.flag_register(), 3);
}

#[test]
fn a_jump_reads_the_low_five_bits_of_its_operand() {
    let mut cpu = Processor::new(false);
    cpu.load_program(&[encode(5, 32 + 7)]);
    assert_eq!(cpu.execute_instruction(), Ok(()));
    assert_eq!(cpu.program_counter(), 7);
}

#[test]
fn store_writes_a_register_to_memory() {
    let cpu = after_run("ldi 77 r1\nsto 18 r1\nsto 63 r1\nhlt");
    assert_eq!(cpu.memory_word(18), Some(77));
    assert_eq!(cpu.memory_word(63), Some(77));
    assert_eq!(cpu.memory_word(17), Some(0));
}

#[test]
fn load_reads_memory_into_a_register() {
    let cpu = after_run("ldi 77 r1\nsto 40 r1\nlod 40 r3\nhlt");
    assert_eq!(registers(&cpu), [0, 77, 0, 77]);
}

#[test]
fn store_may_overwrite_code() {
    let cpu = after_run("ldi 0 r1\nsto 3 r1\nldi 9 r2\nhlt\nldi 1 r0\nhlt");
    assert_eq!(cpu.memory_word(3), Some(0));
    assert_eq!(registers(&cpu), [1, 0, 9, 0]);
}

#[test]
fn load_may_read_code() {
    let program = words("lod 0 r2\nhlt");
    let mut cpu = Processor::new(false);
    assert_eq!(cpu.run(&program, 10), Ok(RunStatus::Finished));
    assert_eq!(cpu.register(2), Some(program[0]));
}

#[test]
fn an_opcode_without_a_meaning_changes_nothing() {
    for opcode in [0u32, 11, 12, 13, 14] {
        let mut cpu = Processor::new(false);
        cpu.load_program(&[encode(opcode, 0x3FFFF), 0xFFFF_FFFF]);
        let before = memory(&cpu);
        assert_eq!(cpu.execute_instruction(), Ok(()));
        assert_eq!(registers(&cpu), [0, 0, 0, 0]);
        assert_eq!(memory(&cpu), before);
        assert_eq!(cpu.flag_register(), 0);
        assert_eq!(cpu.program_counter(), 0);
        assert!(!cpu.halted());
        assert!(!cpu.end_cycle());
        assert_eq!(cpu.execute_instruction(), Ok(()));
        assert_eq!(registers(&cpu), [0, 0, 0, 0]);
        assert_eq!(memory(&cpu), before);
        assert_eq!(cpu.program_counter(), 1);
        assert!(!cpu.halted());
    }
}

#[test]
fn halt_ignores_its_operand() {
    let mut cpu = Processor::new(false);
    cpu.load_program(&[encode(15, 0x3FFFF)]);
    assert_eq!(cpu.execute_instruction(), Ok(()));
    assert!(cpu.halted());
    assert_eq!(registers(&cpu), [0, 0, 0, 0]);
}

#[test]
fn a_first_source_that_is_no_register_is_an_error() {
    for opcode in [2u32, 3] {
        let mut cpu = Processor::new(false);
        let program = vec![encode(1, 5 * 4 + 1), encode(opcode, 4 * 16 + 1 * 4 + 2), encode(15, 0)];
        assert_eq!(cpu.run(&program, 100), Err(ExecutionError::AddressOutOfRange));
        assert_eq!(cpu.program_counter(), 1);
        assert_eq!(registers(&cpu), [0, 5, 0, 0]);
        assert_eq!(&memory(&cpu)[..3], &program[..]);
        assert!(!cpu.halted());
        assert_eq!(cpu.execute_instruction(), Err(ExecutionError::AddressOutOfRange));
        assert_eq!(cpu.program_counter(), 1);
        assert_eq!(registers(&cpu), [0, 5, 0, 0]);
    }
}

#[test]
fn the_last_register_is_a_first_source() {
    let cpu = after_run("ldi 6 r3\nadd r3 r3 r0\nsub r3 r0 r1\nhlt");
    assert_eq!(registers(&cpu), [12, 0xFFFF_FFFA, 0, 6]);
}

#[test]
fn an_address_behind_memory_is_an_error() {
    for opcode in [9u32, 10] {
        let mut cpu = Processor::new(false);
        let program = vec![encode(1, 5 * 4 + 1), encode(opcode, 64 * 4 + 1)];
        assert_eq!(cpu.run(&program, 100), Err(ExecutionError::AddressOutOfRange));
        assert_eq!(cpu.program_counter(), 1);
        assert_eq!(registers(&cpu), [0, 5, 0, 0]);
        let mut expected = vec![0u32; 64];
        expected[0] = program[0];
        expected[1] = program[1];
        assert_eq!(memory(&cpu), expected);
    }
}

#[test]
fn a_taken_conditional_jump_to_address_zero_lands_there() {
    let mut cpu = after_run("ldi 8 r2\ncmp 8 r2\nhlt");
    assert_eq!(cpu.flag_register(), 2);
    cpu.load_program(&[encode(6, 0), 0, 0]);
    assert_eq!(cpu.execute_instruction(), Ok(()));
    assert_eq!(cpu.program_counter(), -1);
    assert_eq!(cpu.flag_register(), 0);
    assert!(!cpu.halted());
    assert!(!cpu.end_cycle());
    assert_eq!(cpu.program_counter(), 0);
    assert_eq!(cpu.execute_instruction(), Ok(()));
    assert_eq!(cpu.program_counter(), 0);
    assert_eq!(cpu.flag_register(), 0);
    assert!(!cpu.end_cycle());
    assert_eq!(cpu.program_counter(), 1);
    assert_eq!(registers(&cpu), [0, 0, 8, 0]);
}

#[test]
fn a_run_goes_on_at_address_zero_after_a_jump_to_it() {
    let mut cpu = after_run("ldi 8 r2\ncmp 8 r2\nhlt");
    assert_eq!(cpu.run(&vec![encode(6, 0), 0, 0], 64), Ok(RunStatus::OutOfCycles));
    assert_eq!(cpu.program_counter(), 63);
    assert_eq!(cpu.flag_register(), 0);
    let mut cpu = after_run("ldi 8 r2\ncmp 8 r2\nhlt");
    assert_eq!(cpu.run(&vec![encode(6, 0), 0, 0], 65), Ok(RunStatus::Finished));
    assert_eq!(cpu.program_counter(), 0);
    assert_eq!(cpu.flag_register(), 0);
    assert_eq!(registers(&cpu), [0, 0, 8, 0]);
    assert!(!cpu.halted());
}

#[test]
fn a_loop_may_start_at_address_zero() {
    let mut cpu = after_run("ldi 1 r1\nhlt");
    let program = words("add r0 r1 r0\ncmp 3 r0\njlt 0\nhlt");
    assert_eq!(cpu.run(&program, 1000), Ok(RunStatus::Finished));
    assert_eq!(registers(&cpu), [3, 1, 0, 0]);
    assert_eq!(cpu.flag_register(), 2);
    let mut cpu = after_run("ldi 1 r1\nhlt");
    let program = words("add r0 r1 r0\ncmp 1 r0\njeq 0\nhlt");
    assert_eq!(cpu.run(&program, 1000), Ok(RunStatus::Finished));
    assert_eq!(registers(&cpu), [2, 1, 0, 0]);
    assert_eq!(cpu.flag_register(), 1);
    let mut cpu = after_run("ldi 3 r0\nldi 1 r1\nhlt");
    let program = words("sub r0 r1 r0\ncmp 1 r0\njgt 0\nhlt");
    assert_eq!(cpu.run(&program, 1000), Ok(RunStatus::Finished));
    assert_eq!(registers(&cpu), [1, 1, 0, 0]);
    assert_eq!(cpu.flag_register(), 2);
}

#[test]
fn a_conditional_jump_to_address_zero_that_is_not_taken_changes_nothing() {
    let cpu = after_run("ldi 9 r2\ncmp 8 r2\njlt 0\njeq 0\nhlt");
    assert_eq!(cpu.flag_register(), 1);
}

#[test]
fn a_program_without_halt_ends_at_the_last_address() {
    let mut cpu = Processor::new(false);
    assert_eq!(cpu.run(&words("ldi 5 r0\nldi 4 r1\nadd r0 r1 r2"), 63), Ok(RunStatus::OutOfCycles));
    assert_eq!(cpu.program_counter(), 63);
    assert!(!cpu.halted());
    assert_eq!(cpu.run(&Vec::new(), 1), Ok(RunStatus::Finished));
    assert_eq!(cpu.program_counter(), 0);
    assert!(!cpu.halted());
    assert_eq!(registers(&cpu), [5, 4, 9, 0]);
}

#[test]
fn a_program_without_halt_takes_64_cycles_from_address_zero() {
    let mut cpu = Processor::new(false);
    assert_eq!(cpu.run(&Vec::new(), 64), Ok(RunStatus::Finished));
    assert_eq!(cpu.program_counter(), 0);
    assert!(!cpu.halted());
}

#[test]
fn the_instruction_at_the_last_address_is_executed() {
    let mut program = vec![0u32; 63];
    program.push(encode(1, 7 * 4 + 3));
    let mut cpu = Processor::new(false);
    assert_eq!(cpu.run(&program, 1000), Ok(RunStatus::Finished));
    assert_eq!(cpu.register(3), Some(7));
}

#[test]
fn end_cycle_moves_on_or_resets() {
    let mut cpu = Processor::new(false);
    for address in 0..63 {
        assert_eq!(cpu.program_counter(), address);
        assert!(!cpu.end_cycle());
    }
    assert_eq!(cpu.program_counter(), 63);
    assert!(cpu.end_cycle());
    assert_eq!(cpu.program_counter(), 0);
    cpu.load_program(&words("ldi 1 r1\nhlt"));
    assert!(!cpu.end_cycle());
    assert_eq!(cpu.execute_instruction(), Ok(()));
    assert!(cpu.halted());
    assert!(cpu.end_cycle());
    assert_eq!(cpu.program_counter(), 0);
    assert!(!cpu.halted());
}

#[test]
fn a_run_without_cycles_only_loads() {
    let mut cpu = Processor::new(false);
    let program = words("ldi 5 r0\nhlt");
    assert_eq!(cpu.run(&program, 0), Ok(RunStatus::OutOfCycles));
    assert_eq!(registers(&cpu), [0, 0, 0, 0]);
    assert_eq!(&memory(&cpu)[..2], &program[..]);
    assert_eq!(cpu.program_counter(), 0);
}

#[test]
fn a_run_out_of_cycles_goes_on_where_it_stopped() {
    let mut cpu = Processor::new(false);
    let program = words("ldi 5 r0\nldi 4 r1\nadd r0 r1 r2\nhlt");
    assert_eq!(cpu.run(&program, 2), Ok(RunStatus::OutOfCycles));
    assert_eq!(cpu.program_counter(), 2);
    assert_eq!(registers(&cpu), [5, 4, 0, 0]);
    assert_eq!(cpu.run(&program, 1), Ok(RunStatus::OutOfCycles));
    assert_eq!(registers(&cpu), [5, 4, 9, 0]);
    assert_eq!(cpu.run(&program, 1), Ok(RunStatus::Finished));
    assert_eq!(cpu.program_counter(), 0);
}

#[test]
fn an_endless_program_uses_up_its_cycles() {
    let mut cpu = Processor::new(false);
    assert_eq!(cpu.run(&words("ldi 1 r1\nadd r0 r1 r0\njmp 0"), 3001), Ok(RunStatus::OutOfCycles));
    assert_eq!(cpu.register(0), Some(1500));
}

#[test]
fn a_processor_runs_again_after_a_run() {
    let mut cpu = Processor::new(false);
    assert_eq!(cpu.run(&words("ldi 5 r0\nhlt"), 100), Ok(RunStatus::Finished));
    assert_eq!(cpu.run(&words("ldi 6 r1\nadd r0 r1 r2\nhlt"), 100), Ok(RunStatus::Finished));
    assert_eq!(registers(&cpu), [5, 6, 11, 0]);
    assert_eq!(cpu.program_counter(), 0);
    assert!(!cpu.halted());
}

#[test]
fn the_demonstration_program_counts_to_eight() {
    let mut cpu = Processor::new(false);
    assert_eq!(cpu.demo(1000), Ok(RunStatus::Finished));
    assert_eq!(registers(&cpu), [0, 1, 8, 0]);
    assert_eq!(cpu.memory_word(18), Some(8));
    assert_eq!(cpu.flag_register(), 2);
    assert_eq!(cpu.program_counter(), 0);
    assert!(!cpu.halted());
}

#[test]
fn the_demonstration_program_takes_25_cycles() {
    let mut cpu = Processor::new(false);
    assert_eq!(cpu.demo(24), Ok(RunStatus::OutOfCycles));
    assert_eq!(cpu.program_counter(), 6);
    let mut cpu = Processor::new(false);
    assert_eq!(cpu.demo(25), Ok(RunStatus::Finished));
}

#[test]
fn the_demonstration_program_is_what_its_source_assembles_to() {
    let source = "ldi 1 r1\nldi 1 r2\nadd r1 r2 r2\ncmp 8 r2\njlt 2\nsto 18 r2\nhlt";
    assert_eq!(assemble(source), Ok(demo_program()));
    assert_eq!(
        demo_program(),
        vec![0x40005, 0x40006, 0x8001A, 0x100022, 0x200002, 0x24004A, 0x3C0000]
    );
}
