use chip8::interpreter::Interpreter;
use chip8::machine::{LoadError, StepError};
use chip8::op::Op;

fn machine_with(program: &[u8]) -> Interpreter {
    let mut m = Interpreter::new();
    m.load_program(program).unwrap();
    m
}

fn run(m: &mut Interpreter, steps: usize) {
    for _ in 0..steps {
        m.step_with_random(0).unwrap();
    }
}

#[test]
fn new_machine_state() {
    let m = Interpreter::new();
    assert_eq!(m.program_counter(), 512);
    assert_eq!(m.index_register(), 0);
    assert_eq!(m.stack_pointer(), 0);
    assert_eq!(m.delay_timer(), 0);
    assert_eq!(m.sound_timer(), 0);
    for i in 0..16 {
        assert_eq!(m.register(i), 0);
    }
    assert!(m.pixels().iter().all(|p| !*p));
    // glyph of 0 at the font base, glyph of F at its end
    assert_eq!(m.memory_at(0x50), 0xF0);
    assert_eq!(m.memory_at(0x51), 0x90);
    assert_eq!(m.memory_at(0x9F), 0x80);
    assert_eq!(m.memory_at(0x4F), 0);
    assert_eq!(m.memory_at(0xA0), 0);
    assert_eq!(m.memory_at(512), 0);
}

#[test]
fn load_copies_program_verbatim() {
    let m = machine_with(&[0x12, 0x34, 0x56]);
    assert_eq!(m.memory_at(512), 0x12);
    assert_eq!(m.memory_at(513), 0x34);
    assert_eq!(m.memory_at(514), 0x56);
    assert_eq!(m.memory_at(515), 0);
}

#[test]
fn load_largest_program() {
    let mut m = Interpreter::new();
    let program = vec![0xAB; 3584];
    assert_eq!(m.load_program(&program), Ok(()));
    assert_eq!(m.memory_at(4095), 0xAB);
}

#[test]
fn load_too_large_program_fails() {
    let mut m = Interpreter::new();
    let program = vec![0xAB; 3585];
    assert_eq!(m.load_program(&program), Err(LoadError::ProgramTooLarge));
    assert_eq!(m.memory_at(512), 0);
}

#[test]
fn scenario_load_and_add_registers() {
    let mut m = machine_with(&[0x61, 0x05, 0x62, 0x03, 0x81, 0x24]);
    m.step_with_random(0).unwrap();
    assert_eq!(m.register(1), 5);
    m.step_with_random(0).unwrap();
    assert_eq!(m.register(2), 3);
    m.step_with_random(0).unwrap();
    assert_eq!(m.register(1), 8);
    assert_eq!(m.register(15), 0);
    assert_eq!(m.program_counter(), 518);
}

#[test]
fn add_registers_with_carry() {
    let mut m = machine_with(&[0x60, 0xFF, 0x61, 0x01, 0x80, 0x14]);
    run(&mut m, 3);
    assert_eq!(m.register(0), 0);
    assert_eq!(m.register(15), 1);
}

#[test]
fn add_registers_exact_255_has_no_carry() {
    let mut m = machine_with(&[0x60, 0xF0, 0x61, 0x0F, 0x6F, 0x07, 0x80, 0x14]);
    run(&mut m, 4);
    assert_eq!(m.register(0), 255);
    assert_eq!(m.register(15), 0);
}

#[test]
fn add_registers_into_flag_register_keeps_sum() {
    // destination is the flag register: the sum is written after the carry
    let mut m = machine_with(&[0x6F, 0xFF, 0x61, 0x05, 0x8F, 0x14]);
    run(&mut m, 3);
    assert_eq!(m.register(15), 4);
}

#[test]
fn subtract_registers_without_borrow() {
    let mut m = machine_with(&[0x60, 0x05, 0x61, 0x03, 0x80, 0x15]);
    run(&mut m, 3);
    assert_eq!(m.register(0), 2);
    assert_eq!(m.register(15), 1);
}

#[test]
fn subtract_registers_equal_values() {
    let mut m = machine_with(&[0x60, 0x07, 0x61, 0x07, 0x80, 0x15]);
    run(&mut m, 3);
    assert_eq!(m.register(0), 0);
    assert_eq!(m.register(15), 1);
}

#[test]
fn subtract_registers_with_borrow() {
    let mut m = machine_with(&[0x60, 0x03, 0x61, 0x05, 0x80, 0x15]);
    run(&mut m, 3);
    assert_eq!(m.register(0), 254);
    assert_eq!(m.register(15), 0);
}

#[test]
fn reverse_subtract_registers() {
    let mut m = machine_with(&[0x60, 0x03, 0x61, 0x05, 0x80, 0x17, 0x62, 0x09, 0x82, 0x17]);
    run(&mut m, 3);
    assert_eq!(m.register(0), 2);
    assert_eq!(m.register(15), 1);
    run(&mut m, 2);
    // 5 - 9 borrows
    assert_eq!(m.register(2), 252);
    assert_eq!(m.register(15), 0);
}

#[test]
fn shift_right_flag_is_low_bit() {
    let mut m = machine_with(&[0x60, 0x05, 0x80, 0x06, 0x61, 0x04, 0x81, 0x06]);
    run(&mut m, 2);
    assert_eq!(m.register(0), 2);
    assert_eq!(m.register(15), 1);
    run(&mut m, 2);
    assert_eq!(m.register(1), 2);
    assert_eq!(m.register(15), 0);
}

#[test]
fn shift_left_flag_is_high_bit() {
    let mut m = machine_with(&[0x60, 0x81, 0x80, 0x0E, 0x61, 0x41, 0x81, 0x0E]);
    run(&mut m, 2);
    assert_eq!(m.register(0), 0x02);
    assert_eq!(m.register(15), 1);
    run(&mut m, 2);
    assert_eq!(m.register(1), 0x82);
    assert_eq!(m.register(15), 0);
}

#[test]
fn shift_of_flag_register_keeps_shifted_out_bit() {
    let mut m = machine_with(&[0x6F, 0x02, 0x8F, 0x06, 0x6F, 0x80, 0x8F, 0x0E]);
    run(&mut m, 2);
    assert_eq!(m.register(15), 0);
    run(&mut m, 2);
    assert_eq!(m.register(15), 1);
}

#[test]
fn add_immediate_wraps_and_leaves_flag() {
    let mut m = machine_with(&[0x6F, 0x07, 0x60, 0xFE, 0x70, 0x05]);
    run(&mut m, 3);
    assert_eq!(m.register(0), 3);
    assert_eq!(m.register(15), 7);
}

#[test]
fn bitwise_register_operations() {
    let mut m = machine_with(&[
        0x60, 0x0C, 0x61, 0x0A, 0x82, 0x00, 0x82, 0x11, 0x83, 0x00, 0x83, 0x12, 0x84, 0x00,
        0x84, 0x13, 0x85, 0x10,
    ]);
    run(&mut m, 9);
    assert_eq!(m.register(2), 0x0E);
    assert_eq!(m.register(3), 0x08);
    assert_eq!(m.register(4), 0x06);
    assert_eq!(m.register(5), 0x0A);
}

#[test]
fn skip_if_equal_immediate() {
    let mut m = machine_with(&[0x60, 0x05, 0x30, 0x05, 0x30, 0x06]);
    run(&mut m, 2);
    assert_eq!(m.program_counter(), 518);
    let mut m = machine_with(&[0x60, 0x05, 0x30, 0x06]);
    run(&mut m, 2);
    assert_eq!(m.program_counter(), 516);
}

#[test]
fn skip_if_not_equal_immediate() {
    let mut m = machine_with(&[0x60, 0x05, 0x40, 0x06, 0x00, 0x00]);
    run(&mut m, 2);
    assert_eq!(m.program_counter(), 518);
}

#[test]
fn skip_register_comparisons() {
    let mut m = machine_with(&[0x60, 0x05, 0x61, 0x05, 0x50, 0x10, 0x00, 0x00, 0x90, 0x10]);
    run(&mut m, 3);
    assert_eq!(m.program_counter(), 520);
    run(&mut m, 1);
    assert_eq!(m.program_counter(), 522);
}

#[test]
fn scenario_jump_sets_counter() {
    let mut m = machine_with(&[0x12, 0x28]);
    m.step_with_random(0).unwrap();
    assert_eq!(m.program_counter(), 0x228);
}

#[test]
fn jump_with_register_offset() {
    let mut m = machine_with(&[0x60, 0x05, 0xB3, 0x00]);
    run(&mut m, 2);
    assert_eq!(m.program_counter(), 0x305);
}

#[test]
fn call_then_return() {
    // 0x200: call 0x206; 0x202: load; 0x204: pad; 0x206: return
    let mut m = machine_with(&[0x22, 0x06, 0x60, 0x01, 0x00, 0x00, 0x00, 0xEE]);
    m.step_with_random(0).unwrap();
    assert_eq!(m.program_counter(), 0x206);
    assert_eq!(m.stack_pointer(), 1);
    m.step_with_random(0).unwrap();
    assert_eq!(m.program_counter(), 0x202);
    assert_eq!(m.stack_pointer(), 0);
}

#[test]
fn scenario_return_with_empty_stack_fails() {
    let mut m = machine_with(&[0x00, 0xEE]);
    assert_eq!(m.step_with_random(0), Err(StepError::StackUnderflow));
    assert_eq!(m.program_counter(), 512);
    assert_eq!(m.stack_pointer(), 0);
}

#[test]
fn nested_calls_overflow_the_stack() {
    // a routine that calls itself
    let mut m = machine_with(&[0x22, 0x00]);
    for depth in 1..16 {
        m.step_with_random(0).unwrap();
        assert_eq!(m.stack_pointer(), depth);
    }
    assert_eq!(m.step_with_random(0), Err(StepError::StackOverflow));
    assert_eq!(m.stack_pointer(), 15);
}

#[test]
fn invalid_instruction_fails_and_changes_nothing() {
    let mut m = machine_with(&[0x51, 0x21]);
    assert_eq!(m.step_with_random(0), Err(StepError::InvalidInstruction));
    assert_eq!(m.program_counter(), 512);
}

#[test]
fn key_skip_with_out_of_range_key_fails() {
    let mut m = machine_with(&[0x60, 0x10, 0xE0, 0x9E]);
    m.step_with_random(0).unwrap();
    assert_eq!(m.step_with_random(0), Err(StepError::KeyOutOfRange { key: 16 }));
    assert_eq!(m.program_counter(), 514);
}

#[test]
fn key_skip_instructions() {
    let mut m = machine_with(&[0x60, 0x07, 0xE0, 0x9E, 0x00, 0x00, 0xE0, 0xA1]);
    m.set_key(7, true);
    run(&mut m, 2);
    assert_eq!(m.program_counter(), 518);
    run(&mut m, 1);
    assert_eq!(m.program_counter(), 520);
    let mut m = machine_with(&[0x60, 0x07, 0xE0, 0xA1]);
    run(&mut m, 2);
    assert_eq!(m.program_counter(), 518);
}

#[test]
fn key_wait_without_key_stays() {
    let mut m = machine_with(&[0xF3, 0x0A]);
    for _ in 0..5 {
        m.step_with_random(0).unwrap();
        assert_eq!(m.program_counter(), 512);
        for i in 0..16 {
            assert_eq!(m.register(i), 0);
        }
    }
    m.set_key(9, true);
    m.set_key(4, true);
    m.step_with_random(0).unwrap();
    assert_eq!(m.register(3), 4);
    assert_eq!(m.program_counter(), 514);
}

#[test]
fn timers_count_down_to_zero() {
    // V0 := 3; delay := V0; sound := V0; then jump to self
    let mut m = machine_with(&[0x60, 0x03, 0xF0, 0x15, 0xF0, 0x18, 0x12, 0x06]);
    run(&mut m, 2);
    assert_eq!(m.delay_timer(), 2);
    run(&mut m, 1);
    assert_eq!(m.delay_timer(), 1);
    assert_eq!(m.sound_timer(), 2);
    run(&mut m, 1);
    assert_eq!(m.delay_timer(), 0);
    assert_eq!(m.sound_timer(), 1);
    run(&mut m, 3);
    assert_eq!(m.delay_timer(), 0);
    assert_eq!(m.sound_timer(), 0);
}

#[test]
fn read_delay_timer() {
    let mut m = machine_with(&[0x60, 0x09, 0xF0, 0x15, 0xF1, 0x07]);
    run(&mut m, 3);
    assert_eq!(m.register(1), 8);
}

#[test]
fn step_past_program_does_nothing() {
    let mut m = machine_with(&[0x60, 0x05, 0xF0, 0x15]);
    run(&mut m, 2);
    assert_eq!(m.delay_timer(), 4);
    // the counter sits at the end of the program: that word is still fetched
    assert!(m.can_continue());
    run(&mut m, 1);
    assert_eq!(m.program_counter(), 518);
    assert_eq!(m.delay_timer(), 3);
    assert!(!m.can_continue());
    run(&mut m, 3);
    assert_eq!(m.program_counter(), 518);
    assert_eq!(m.delay_timer(), 3);
}

#[test]
fn fetch_at_last_byte_fails() {
    let mut program = vec![0u8; 3584];
    program[0] = 0x1F;
    program[1] = 0xFF;
    let mut m = machine_with(&program);
    m.step_with_random(0).unwrap();
    assert_eq!(m.program_counter(), 0xFFF);
    assert!(m.can_continue());
    assert_eq!(m.step_with_random(0), Err(StepError::MemoryOutOfRange));
}

#[test]
fn store_bcd_digits() {
    let mut m = machine_with(&[0x60, 0xEA, 0xA3, 0x00, 0xF0, 0x33]);
    run(&mut m, 3);
    assert_eq!(m.memory_at(0x300), 2);
    assert_eq!(m.memory_at(0x301), 3);
    assert_eq!(m.memory_at(0x302), 4);
    assert_eq!(m.index_register(), 0x300);
}

#[test]
fn store_bcd_past_memory_fails() {
    let mut m = machine_with(&[0xAF, 0xFE, 0xF0, 0x33]);
    run(&mut m, 1);
    assert_eq!(m.step_with_random(0), Err(StepError::MemoryOutOfRange));
}

#[test]
fn register_dump_and_load() {
    let mut m = machine_with(&[
        0x60, 0x11, 0x61, 0x22, 0x62, 0x33, 0xA3, 0x00, 0xF2, 0x55, 0xA3, 0x00, 0xF1, 0x65,
    ]);
    run(&mut m, 5);
    assert_eq!(m.memory_at(0x300), 0x11);
    assert_eq!(m.memory_at(0x301), 0x22);
    assert_eq!(m.memory_at(0x302), 0x33);
    assert_eq!(m.memory_at(0x303), 0);
    assert_eq!(m.index_register(), 0x303);
    run(&mut m, 2);
    assert_eq!(m.register(0), 0x11);
    assert_eq!(m.register(1), 0x22);
    assert_eq!(m.index_register(), 0x302);
}

#[test]
fn register_load_from_program_bytes() {
    let mut m = machine_with(&[0xA2, 0x00, 0xF1, 0x65]);
    run(&mut m, 2);
    assert_eq!(m.register(0), 0xA2);
    assert_eq!(m.register(1), 0x00);
    assert_eq!(m.register(2), 0);
    assert_eq!(m.index_register(), 0x202);
}

#[test]
fn register_dump_past_memory_fails() {
    let mut m = machine_with(&[0xAF, 0xFE, 0xF2, 0x55]);
    run(&mut m, 1);
    assert_eq!(m.step_with_random(0), Err(StepError::MemoryOutOfRange));
    assert_eq!(m.index_register(), 0xFFE);
}

#[test]
fn add_to_index_register() {
    let mut m = machine_with(&[0xA1, 0x00, 0x60, 0x25, 0xF0, 0x1E]);
    run(&mut m, 3);
    assert_eq!(m.index_register(), 0x125);
}

#[test]
fn index_register_overflow_fails() {
    // I := 0xFFF; V0 := 0xFF; then add V0 to I forever
    let mut m = machine_with(&[0xAF, 0xFF, 0x60, 0xFF, 0xF0, 0x1E, 0x12, 0x04]);
    let mut outcome = Ok(());
    for _ in 0..2000 {
        outcome = m.step_with_random(0);
        if outcome.is_err() {
            break;
        }
    }
    assert_eq!(outcome, Err(StepError::IndexOverflow));
    assert!(m.index_register() as u32 + 0xFF > 0xFFFF);
}

#[test]
fn font_address_of_digit() {
    let mut m = machine_with(&[0x60, 0x0A, 0xF0, 0x29]);
    run(&mut m, 2);
    assert_eq!(m.index_register(), 0x50 + 5 * 0x0A);
    assert_eq!(m.memory_at(m.index_register() as usize), 0xF0);
}

#[test]
fn random_is_masked() {
    let mut m = machine_with(&[0xC0, 0x0F, 0xC1, 0xFF, 0xC2, 0x00]);
    m.step_with_random(0xAB).unwrap();
    assert_eq!(m.register(0), 0x0B);
    m.step_with_random(0xAB).unwrap();
    assert_eq!(m.register(1), 0xAB);
    m.step_with_random(0xAB).unwrap();
    assert_eq!(m.register(2), 0);
}

#[test]
fn random_from_generator_is_masked() {
    let mut m = machine_with(&[0xC0, 0x0F, 0xC1, 0x30]);
    m.step().unwrap();
    assert!(m.register(0) <= 0x0F);
    m.step().unwrap();
    assert_eq!(m.register(1) & !0x30, 0);
    assert_eq!(m.program_counter(), 516);
}

#[test]
fn program_listing_decodes_each_word() {
    let m = machine_with(&[0x61, 0x05, 0x00, 0xE0, 0x12]);
    let listing = m.program_listing();
    assert_eq!(listing.len(), 3);
    assert_eq!(listing[0], (512, 0x6105, Op::LD { x: 1, byte: 5 }));
    assert_eq!(listing[1], (514, 0x00E0, Op::CLS));
    assert_eq!(listing[2], (516, 0x1200, Op::JP { addr: 0x200 }));
}
