use chip8::{Chip8, Fault, LoadError, Mode};

fn machine(program: &[u8]) -> Chip8 {
    let mut m = Chip8::new();
    m.load_program(program).unwrap();
    m
}

fn steps(m: &mut Chip8, count: usize) {
    for _ in 0..count {
        m.step(0).unwrap();
    }
}

#[test]
fn new_machine_starts_at_program_start() {
    let m = Chip8::new();
    assert_eq!(m.program_counter(), 0x200);
    assert_eq!(m.index(), 0);
    assert_eq!(m.stack_pointer(), 0);
    assert_eq!(m.delay_timer(), 0);
    assert_eq!(m.sound_timer(), 0);
    assert_eq!(m.mode(), Mode::Running);
    assert!(m.pixels().iter().all(|&p| p == 0));
    assert_eq!(m.pixels().len(), 2048);
    for x in 0..16 {
        assert_eq!(m.register(x), 0);
    }
    assert_eq!(m.memory_at(80), 0);
    assert_eq!(m.memory_at(4095), 0);
}

#[test]
fn font_glyph_zero_at_address_zero() {
    let m = Chip8::new();
    let glyph: Vec<u8> = (0..5).map(|a| m.memory_at(a)).collect();
    assert_eq!(glyph, vec![0xF0, 0x90, 0x90, 0x90, 0xF0]);
    let last: Vec<u8> = (75..80).map(|a| m.memory_at(a)).collect();
    assert_eq!(last, vec![0xF0, 0x80, 0xF0, 0x80, 0x80]);
}

#[test]
fn load_program_copies_bytes() {
    let m = machine(&[0x12, 0x34, 0x56]);
    assert_eq!(m.memory_at(0x200), 0x12);
    assert_eq!(m.memory_at(0x201), 0x34);
    assert_eq!(m.memory_at(0x202), 0x56);
    assert_eq!(m.memory_at(0x203), 0);
}

#[test]
fn load_program_largest_fits() {
    let mut m = Chip8::new();
    let program = vec![0xAB; 3584];
    assert_eq!(m.load_program(&program), Ok(()));
    assert_eq!(m.memory_at(4095), 0xAB);
}

#[test]
fn load_program_too_large_is_refused() {
    let mut m = Chip8::new();
    let program = vec![0xAB; 3585];
    assert_eq!(m.load_program(&program), Err(LoadError::TooLarge));
    assert_eq!(m.memory_at(0x200), 0);
}

#[test]
fn load_immediate_sets_register_and_advances() {
    let mut m = machine(&[0x6A, 0x42]);
    m.step(0).unwrap();
    assert_eq!(m.register(0xA), 0x42);
    assert_eq!(m.program_counter(), 0x202);
}

#[test]
fn add_immediate_wraps() {
    let mut m = machine(&[0x63, 0xFF, 0x73, 0x01, 0x64, 0x10, 0x74, 0x22]);
    steps(&mut m, 4);
    assert_eq!(m.register(3), 0x00);
    assert_eq!(m.register(4), 0x32);
    assert_eq!(m.register(0xF), 0);
}

#[test]
fn clear_display_zeroes_every_cell() {
    // I = 0x20A (sprite), draw 1 row at (V0, V0), clear
    let mut m = machine(&[0xA2, 0x08, 0xD0, 0x01, 0x00, 0xE0, 0x12, 0x06, 0xFF]);
    steps(&mut m, 2);
    assert_eq!(m.pixels()[0], 1);
    steps(&mut m, 1);
    assert!(m.pixels().iter().all(|&p| p == 0));
    assert_eq!(m.program_counter(), 0x206);
}

#[test]
fn call_then_return_restores_counter_and_depth() {
    let mut m = machine(&[0x22, 0x04, 0x00, 0x00, 0x00, 0xEE]);
    m.step(0).unwrap();
    assert_eq!(m.program_counter(), 0x204);
    assert_eq!(m.stack_pointer(), 1);
    m.step(0).unwrap();
    assert_eq!(m.program_counter(), 0x202);
    assert_eq!(m.stack_pointer(), 0);
}

#[test]
fn return_on_empty_stack_underflows() {
    let mut m = machine(&[0x00, 0xEE]);
    assert_eq!(m.step(0), Err(Fault::StackUnderflow));
    assert_eq!(m.program_counter(), 0x200);
    assert_eq!(m.stack_pointer(), 0);
}

#[test]
fn seventeenth_nested_call_overflows() {
    let mut m = machine(&[0x22, 0x00]);
    steps(&mut m, 16);
    assert_eq!(m.stack_pointer(), 16);
    assert_eq!(m.step(0), Err(Fault::StackOverflow));
    assert_eq!(m.stack_pointer(), 16);
    assert_eq!(m.program_counter(), 0x200);
}

#[test]
fn draw_twice_reports_collision() {
    // I = 0x208, draw 8x1 at (V0, V1) twice; sprite byte 0xFF at 0x208
    let mut m = machine(&[0xA2, 0x08, 0xD0, 0x11, 0xD0, 0x11, 0x12, 0x06, 0xFF]);
    steps(&mut m, 2);
    assert_eq!(m.pixels()[0], 1);
    assert!(m.pixels()[..8].iter().all(|&p| p == 1));
    assert_eq!(m.pixels()[8], 0);
    assert_eq!(m.register(0xF), 0);
    steps(&mut m, 1);
    assert_eq!(m.pixels()[0], 0);
    assert!(m.pixels().iter().all(|&p| p == 0));
    assert_eq!(m.register(0xF), 1);
}

#[test]
fn draw_wraps_around_both_edges() {
    // V0 = 63, V1 = 31, I = 0x20C, draw 2 rows of 0xC0
    let mut m = machine(&[
        0x60, 0x3F, 0x61, 0x1F, 0xA2, 0x0C, 0xD0, 0x12, 0x12, 0x08, 0x00, 0x00, 0xC0, 0xC0,
    ]);
    steps(&mut m, 4);
    let px = m.pixels();
    assert_eq!(px[63 + 31 * 64], 1);
    assert_eq!(px[31 * 64], 1);
    assert_eq!(px[63], 1);
    assert_eq!(px[0], 1);
    assert_eq!(px.iter().filter(|&&p| p == 1).count(), 4);
    assert_eq!(m.register(0xF), 0);
}

#[test]
fn draw_reads_each_row_from_its_own_address() {
    // I = 0x208; rows 0x80 and 0x40
    let mut m = machine(&[0xA2, 0x08, 0xD0, 0x02, 0x12, 0x04, 0x00, 0x00, 0x80, 0x40]);
    steps(&mut m, 2);
    assert_eq!(m.pixels()[0], 1);
    assert_eq!(m.pixels()[1], 0);
    assert_eq!(m.pixels()[64], 0);
    assert_eq!(m.pixels()[65], 1);
}

#[test]
fn draw_past_end_of_memory_faults() {
    // I = 0xFFE, draw 3 rows
    let mut m = machine(&[0xAF, 0xFE, 0xD0, 0x03]);
    steps(&mut m, 1);
    assert_eq!(m.step(0), Err(Fault::MemoryOutOfBounds));
    assert_eq!(m.program_counter(), 0x202);
}

#[test]
fn tick_at_zero_stays_zero() {
    let mut m = Chip8::new();
    m.tick();
    assert_eq!(m.delay_timer(), 0);
    assert_eq!(m.sound_timer(), 0);
    assert!(!m.sound_timer_active());
}

#[test]
fn tick_counts_timers_down() {
    let mut m = machine(&[0x60, 0x03, 0xF0, 0x15, 0x61, 0x01, 0xF1, 0x18]);
    steps(&mut m, 4);
    assert_eq!(m.delay_timer(), 3);
    assert_eq!(m.sound_timer(), 1);
    assert!(m.sound_timer_active());
    m.tick();
    assert_eq!(m.delay_timer(), 2);
    assert_eq!(m.sound_timer(), 0);
    assert!(!m.sound_timer_active());
    m.tick();
    m.tick();
    m.tick();
    assert_eq!(m.delay_timer(), 0);
}

#[test]
fn delay_timer_read_into_register() {
    let mut m = machine(&[0x60, 0x09, 0xF0, 0x15, 0xF5, 0x07]);
    steps(&mut m, 3);
    assert_eq!(m.register(5), 9);
}

#[test]
fn key_wait_blocks_until_a_key_is_pressed() {
    let mut m = machine(&[0xF3, 0x0A]);
    for _ in 0..5 {
        m.step(0).unwrap();
        assert_eq!(m.program_counter(), 0x200);
        assert_eq!(m.mode(), Mode::AwaitingKey(3));
    }
    m.set_key(7, true);
    m.step(0).unwrap();
    assert_eq!(m.program_counter(), 0x202);
    assert_eq!(m.register(3), 7);
    assert_eq!(m.mode(), Mode::Running);
}

#[test]
fn key_wait_with_key_already_down_takes_lowest() {
    let mut m = machine(&[0xF2, 0x0A]);
    m.set_key(9, true);
    m.set_key(4, true);
    m.step(0).unwrap();
    assert_eq!(m.program_counter(), 0x202);
    assert_eq!(m.register(2), 4);
}

#[test]
fn skip_if_key_pressed_and_not_pressed() {
    let mut m = machine(&[0x60, 0x05, 0xE0, 0x9E, 0x00, 0x00, 0xE0, 0xA1]);
    m.set_key(5, true);
    steps(&mut m, 2);
    assert_eq!(m.program_counter(), 0x206);
    steps(&mut m, 1);
    assert_eq!(m.program_counter(), 0x208);
}

#[test]
fn key_register_beyond_keypad_is_not_pressed() {
    let mut m = machine(&[0x60, 0x20, 0xE0, 0xA1]);
    steps(&mut m, 2);
    assert_eq!(m.program_counter(), 0x206);
}

#[test]
fn skips_on_immediate_comparisons() {
    let mut m = machine(&[0x60, 0x07, 0x30, 0x07, 0x00, 0x00, 0x40, 0x07, 0x30, 0x08]);
    steps(&mut m, 2);
    assert_eq!(m.program_counter(), 0x206);
    steps(&mut m, 1);
    assert_eq!(m.program_counter(), 0x208);
    steps(&mut m, 1);
    assert_eq!(m.program_counter(), 0x20A);
}

#[test]
fn skips_on_register_comparisons() {
    let mut m = machine(&[0x60, 0x01, 0x61, 0x01, 0x50, 0x10, 0x00, 0x00, 0x90, 0x10, 0x61, 0x02, 0x90, 0x10]);
    steps(&mut m, 3);
    assert_eq!(m.program_counter(), 0x208);
    steps(&mut m, 1);
    assert_eq!(m.program_counter(), 0x20A);
    steps(&mut m, 2);
    assert_eq!(m.program_counter(), 0x210);
}

#[test]
fn register_skip_with_nonzero_low_nibble_is_no_op() {
    let mut m = machine(&[0x50, 0x11]);
    steps(&mut m, 1);
    assert_eq!(m.program_counter(), 0x202);
}

#[test]
fn jump_and_jump_with_offset() {
    let mut m = machine(&[0x13, 0x00]);
    steps(&mut m, 1);
    assert_eq!(m.program_counter(), 0x300);

    let mut m = machine(&[0x60, 0x10, 0xB3, 0x00]);
    steps(&mut m, 2);
    assert_eq!(m.program_counter(), 0x310);
}

#[test]
fn fetch_past_end_of_memory_faults() {
    let mut m = machine(&[0x1F, 0xFF]);
    steps(&mut m, 1);
    assert_eq!(m.program_counter(), 0xFFF);
    assert_eq!(m.step(0), Err(Fault::MemoryOutOfBounds));
}

#[test]
fn register_copy_and_bitwise() {
    let mut m = machine(&[
        0x60, 0b1100, 0x61, 0b1010, 0x82, 0x00, 0x82, 0x11, 0x83, 0x00, 0x83, 0x12, 0x84, 0x00,
        0x84, 0x13,
    ]);
    steps(&mut m, 8);
    assert_eq!(m.register(2), 0b1110);
    assert_eq!(m.register(3), 0b1000);
    assert_eq!(m.register(4), 0b0110);
}

#[test]
fn add_registers_sets_carry() {
    let mut m = machine(&[0x60, 0xF0, 0x61, 0x20, 0x80, 0x14]);
    steps(&mut m, 3);
    assert_eq!(m.register(0), 0x10);
    assert_eq!(m.register(0xF), 1);

    let mut m = machine(&[0x60, 0x10, 0x61, 0x20, 0x80, 0x14]);
    steps(&mut m, 3);
    assert_eq!(m.register(0), 0x30);
    assert_eq!(m.register(0xF), 0);
}

#[test]
fn subtract_sets_not_borrow() {
    let mut m = machine(&[0x60, 0x05, 0x61, 0x07, 0x80, 0x15]);
    steps(&mut m, 3);
    assert_eq!(m.register(0), 0xFE);
    assert_eq!(m.register(0xF), 0);

    let mut m = machine(&[0x60, 0x07, 0x61, 0x05, 0x80, 0x15]);
    steps(&mut m, 3);
    assert_eq!(m.register(0), 0x02);
    assert_eq!(m.register(0xF), 1);

    let mut m = machine(&[0x60, 0x05, 0x61, 0x05, 0x80, 0x15]);
    steps(&mut m, 3);
    assert_eq!(m.register(0), 0);
    assert_eq!(m.register(0xF), 0);
}

#[test]
fn reverse_subtract() {
    let mut m = machine(&[0x60, 0x05, 0x61, 0x07, 0x80, 0x17]);
    steps(&mut m, 3);
    assert_eq!(m.register(0), 0x02);
    assert_eq!(m.register(0xF), 1);

    let mut m = machine(&[0x60, 0x07, 0x61, 0x05, 0x80, 0x17]);
    steps(&mut m, 3);
    assert_eq!(m.register(0), 0xFE);
    assert_eq!(m.register(0xF), 0);
}

#[test]
fn shifts_report_the_bit_shifted_out() {
    let mut m = machine(&[0x60, 0x81, 0x80, 0x06]);
    steps(&mut m, 2);
    assert_eq!(m.register(0), 0x40);
    assert_eq!(m.register(0xF), 1);

    let mut m = machine(&[0x60, 0x81, 0x80, 0x0E]);
    steps(&mut m, 2);
    assert_eq!(m.register(0), 0x02);
    assert_eq!(m.register(0xF), 1);

    let mut m = machine(&[0x60, 0x40, 0x80, 0x0E]);
    steps(&mut m, 2);
    assert_eq!(m.register(0), 0x80);
    assert_eq!(m.register(0xF), 0);
}

#[test]
fn flag_register_as_operand_keeps_result() {
    let mut m = machine(&[0x6F, 0x07, 0x61, 0x05, 0x8F, 0x15]);
    steps(&mut m, 3);
    assert_eq!(m.register(0xF), 0x02);
}

#[test]
fn random_byte_is_masked() {
    let mut m = machine(&[0xC0, 0xF0]);
    m.step(0xAB).unwrap();
    assert_eq!(m.register(0), 0xA0);
    assert_eq!(m.program_counter(), 0x202);

    let mut m = machine(&[0xC0, 0x00]);
    m.run().unwrap();
    assert_eq!(m.register(0), 0);
    assert_eq!(m.program_counter(), 0x202);
}

#[test]
fn run_executes_one_instruction() {
    let mut m = machine(&[0x65, 0x11, 0x66, 0x22]);
    m.run().unwrap();
    m.run().unwrap();
    assert_eq!(m.register(5), 0x11);
    assert_eq!(m.register(6), 0x22);
    assert_eq!(m.program_counter(), 0x204);
}

#[test]
fn index_set_add_and_font_address() {
    let mut m = machine(&[0xA1, 0x23, 0x60, 0x05, 0xF0, 0x1E, 0x61, 0x0F, 0xF1, 0x29]);
    steps(&mut m, 3);
    assert_eq!(m.index(), 0x128);
    steps(&mut m, 2);
    assert_eq!(m.index(), 75);

    let mut m = machine(&[0x60, 0x00, 0xF0, 0x29]);
    steps(&mut m, 2);
    assert_eq!(m.index(), 0);
}

#[test]
fn index_add_past_end_of_memory_faults() {
    let mut m = machine(&[0xAF, 0xFF, 0x60, 0x01, 0xF0, 0x1E]);
    steps(&mut m, 2);
    assert_eq!(m.step(0), Err(Fault::MemoryOutOfBounds));
    assert_eq!(m.index(), 0xFFF);
}

#[test]
fn decimal_digits_stored_at_index() {
    let mut m = machine(&[0xA3, 0x00, 0x60, 234, 0xF0, 0x33]);
    steps(&mut m, 3);
    assert_eq!(m.memory_at(0x300), 2);
    assert_eq!(m.memory_at(0x301), 3);
    assert_eq!(m.memory_at(0x302), 4);

    let mut m = machine(&[0xAF, 0xFE, 0xF0, 0x33]);
    steps(&mut m, 1);
    assert_eq!(m.step(0), Err(Fault::MemoryOutOfBounds));
}

#[test]
fn store_and_load_include_register_x() {
    let mut m = machine(&[
        0x60, 0x0A, 0x61, 0x0B, 0x62, 0x0C, 0x63, 0x0D, 0xA3, 0x00, 0xF2, 0x55,
    ]);
    steps(&mut m, 6);
    assert_eq!(m.memory_at(0x300), 0x0A);
    assert_eq!(m.memory_at(0x301), 0x0B);
    assert_eq!(m.memory_at(0x302), 0x0C);
    assert_eq!(m.memory_at(0x303), 0);
    assert_eq!(m.index(), 0x300);

    let mut m = machine(&[0xA2, 0x08, 0xF1, 0x65, 0x12, 0x04, 0x00, 0x00, 0x77, 0x88, 0x99]);
    steps(&mut m, 2);
    assert_eq!(m.register(0), 0x77);
    assert_eq!(m.register(1), 0x88);
    assert_eq!(m.register(2), 0);
}

#[test]
fn store_past_end_of_memory_faults() {
    let mut m = machine(&[0xAF, 0xFE, 0xF2, 0x55]);
    steps(&mut m, 1);
    assert_eq!(m.step(0), Err(Fault::MemoryOutOfBounds));
    assert_eq!(m.memory_at(0xFFE), 0);

    let mut m = machine(&[0xAF, 0xFE, 0xF2, 0x65]);
    steps(&mut m, 1);
    assert_eq!(m.step(0), Err(Fault::MemoryOutOfBounds));
}

#[test]
fn unknown_opcodes_advance() {
    let mut m = machine(&[0x01, 0x23, 0x80, 0x19, 0xE0, 0x00, 0xF0, 0xFF]);
    steps(&mut m, 4);
    assert_eq!(m.program_counter(), 0x208);
    assert_eq!(m.register(0), 0);
}
