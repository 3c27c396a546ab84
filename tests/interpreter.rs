use chip8_oxidized::machine::{CHIP8_FONT, MAX_PROGRAM_SIZE, SCHIP8_FONT};
use chip8_oxidized::{decode, ChipError, Instruction, SChip8, StepResult};

fn machine(program: &[u8]) -> SChip8 {
    SChip8::new(program.to_vec())
}

fn steps(m: &mut SChip8, n: usize) {
    for _ in 0..n {
        assert_eq!(m.step_with(None, 0), Ok(StepResult::Continue));
    }
}

fn lit(m: &SChip8) -> usize {
    let (w, h, cells) = m.framebuffer();
    cells[..w * h].iter().filter(|c| **c == 1).count()
}

#[test]
fn new_places_fonts_and_program() {
    let m = machine(&[0xAB, 0xCD]);
    for (i, b) in CHIP8_FONT.iter().enumerate() {
        assert_eq!(m.memory_at(i), *b);
    }
    for (i, b) in SCHIP8_FONT.iter().enumerate() {
        assert_eq!(m.memory_at(80 + i), *b);
    }
    assert_eq!(m.memory_at(180), 0);
    assert_eq!(m.memory_at(0x200), 0xAB);
    assert_eq!(m.memory_at(0x201), 0xCD);
    assert_eq!(m.memory_at(0x202), 0);
    assert_eq!(m.program_counter(), 0x200);
    assert_eq!(m.stack_pointer(), 0);
    assert_eq!((m.screen_width, m.screen_height), (64, 32));
    assert!(!m.extended_screen);
}

#[test]
fn load_accepts_largest_program() {
    let m = SChip8::load(vec![0x12; MAX_PROGRAM_SIZE]).unwrap();
    assert_eq!(m.memory_at(0xFFF), 0x12);
}

#[test]
fn load_accepts_empty_and_small_programs() {
    let m = SChip8::load(Vec::new()).unwrap();
    assert_eq!(m.program_counter(), 0x200);
    assert_eq!(m.memory_at(0x200), 0);
    let m = SChip8::load(vec![0x00, 0xE0]).unwrap();
    assert_eq!(m.memory_at(0x201), 0xE0);
}

#[test]
fn load_rejects_oversized_program() {
    assert_eq!(SChip8::load(vec![0; 3585]).err(), Some(ChipError::ProgramTooLarge));
}

#[test]
fn set_registers_then_add() {
    let mut m = machine(&[0x60, 0x05, 0x61, 0x05, 0x80, 0x14, 0x00]);
    steps(&mut m, 1);
    assert_eq!(m.register(0), 5);
    steps(&mut m, 1);
    assert_eq!(m.register(0), 5);
    assert_eq!(m.register(1), 5);
    steps(&mut m, 1);
    assert_eq!(m.register(0), 10);
    assert_eq!(m.register(0xF), 0);
    assert_eq!(m.program_counter(), 0x206);
}

#[test]
fn load_immediate_every_register() {
    for x in 0..16u8 {
        let mut m = machine(&[0x60 | x, 0x9C]);
        steps(&mut m, 1);
        assert_eq!(m.register(x as usize), 0x9C);
    }
}

#[test]
fn add_registers_with_carry() {
    let mut m = machine(&[0x60, 200, 0x61, 100, 0x80, 0x14]);
    steps(&mut m, 3);
    assert_eq!(m.register(0), 44);
    assert_eq!(m.register(0xF), 1);
}

#[test]
fn add_registers_exactly_256_carries() {
    let mut m = machine(&[0x60, 0xFF, 0x61, 0x01, 0x80, 0x14]);
    steps(&mut m, 3);
    assert_eq!(m.register(0), 0);
    assert_eq!(m.register(0xF), 1);
}

#[test]
fn add_into_flag_register_keeps_flag() {
    let mut m = machine(&[0x6F, 200, 0x61, 100, 0x8F, 0x14]);
    steps(&mut m, 3);
    assert_eq!(m.register(0xF), 1);
}

#[test]
fn add_immediate_wraps_without_flag() {
    let mut m = machine(&[0x6F, 0x07, 0x60, 0xF0, 0x70, 0x20]);
    steps(&mut m, 3);
    assert_eq!(m.register(0), 0x10);
    assert_eq!(m.register(0xF), 7);
}

#[test]
fn subtract_without_borrow() {
    let mut m = machine(&[0x60, 9, 0x61, 4, 0x80, 0x15]);
    steps(&mut m, 3);
    assert_eq!(m.register(0), 5);
    assert_eq!(m.register(0xF), 1);
}

#[test]
fn subtract_with_borrow_stores_absolute_difference() {
    let mut m = machine(&[0x60, 3, 0x61, 5, 0x80, 0x15]);
    steps(&mut m, 3);
    assert_eq!(m.register(0), 2);
    assert_eq!(m.register(0xF), 0);
}

#[test]
fn subtract_equal_values_has_no_borrow() {
    let mut m = machine(&[0x60, 7, 0x61, 7, 0x80, 0x15]);
    steps(&mut m, 3);
    assert_eq!(m.register(0), 0);
    assert_eq!(m.register(0xF), 1);
}

#[test]
fn reverse_subtract_both_ways() {
    let mut m = machine(&[0x60, 3, 0x61, 10, 0x80, 0x17]);
    steps(&mut m, 3);
    assert_eq!(m.register(0), 7);
    assert_eq!(m.register(0xF), 1);
    let mut m = machine(&[0x60, 10, 0x61, 3, 0x80, 0x17]);
    steps(&mut m, 3);
    assert_eq!(m.register(0), 7);
    assert_eq!(m.register(0xF), 0);
}

#[test]
fn shifts_report_the_bit_shifted_out() {
    let mut m = machine(&[0x60, 0x81, 0x80, 0x06]);
    steps(&mut m, 2);
    assert_eq!(m.register(0), 0x40);
    assert_eq!(m.register(0xF), 1);
    let mut m = machine(&[0x60, 0x81, 0x80, 0x0E]);
    steps(&mut m, 2);
    assert_eq!(m.register(0), 0x02);
    assert_eq!(m.register(0xF), 1);
    let mut m = machine(&[0x60, 0x42, 0x80, 0x0E]);
    steps(&mut m, 2);
    assert_eq!(m.register(0), 0x84);
    assert_eq!(m.register(0xF), 0);
}

#[test]
fn bitwise_operations() {
    let mut m = machine(&[0x60, 0x0C, 0x61, 0x0A, 0x82, 0x00, 0x82, 0x11, 0x83, 0x00, 0x83, 0x12, 0x84, 0x00, 0x84, 0x13]);
    steps(&mut m, 8);
    assert_eq!(m.register(2), 0x0E);
    assert_eq!(m.register(3), 0x08);
    assert_eq!(m.register(4), 0x06);
}

#[test]
fn skips_on_conditions() {
    // 3XNN taken, 4XNN not taken, 5XY0 taken, 9XY0 not taken.
    let mut m = machine(&[0x60, 0x05, 0x30, 0x05]);
    steps(&mut m, 2);
    assert_eq!(m.program_counter(), 0x206);
    let mut m = machine(&[0x60, 0x05, 0x40, 0x05]);
    steps(&mut m, 2);
    assert_eq!(m.program_counter(), 0x204);
    let mut m = machine(&[0x60, 0x05, 0x61, 0x05, 0x50, 0x10]);
    steps(&mut m, 3);
    assert_eq!(m.program_counter(), 0x208);
    let mut m = machine(&[0x60, 0x05, 0x61, 0x05, 0x90, 0x10]);
    steps(&mut m, 3);
    assert_eq!(m.program_counter(), 0x206);
}

#[test]
fn key_skips_follow_the_keypad() {
    let mut m = machine(&[0x60, 0x0A, 0xE0, 0x9E]);
    m.set_key(0xA, true);
    steps(&mut m, 2);
    assert_eq!(m.program_counter(), 0x206);
    let mut m = machine(&[0x60, 0x0A, 0xE0, 0xA1]);
    steps(&mut m, 2);
    assert_eq!(m.program_counter(), 0x206);
    let mut m2 = machine(&[0x60, 0x0A, 0xE0, 0xA1]);
    m2.set_key(0xA, true);
    steps(&mut m2, 2);
    assert_eq!(m2.program_counter(), 0x204);
}

#[test]
fn key_skip_with_no_such_key_is_not_pressed() {
    let mut m = machine(&[0x60, 0x20, 0xE0, 0x9E]);
    steps(&mut m, 2);
    assert_eq!(m.program_counter(), 0x204);
}

#[test]
fn wait_key_blocks_until_a_key_arrives() {
    let mut m = machine(&[0xF3, 0x0A]);
    for _ in 0..5 {
        assert_eq!(m.step_with(None, 0), Ok(StepResult::Continue));
        assert_eq!(m.program_counter(), 0x200);
    }
    assert_eq!(m.step_with(Some(16), 0), Ok(StepResult::Continue));
    assert_eq!(m.program_counter(), 0x200);
    assert_eq!(m.step_with(Some(7), 0), Ok(StepResult::Continue));
    assert_eq!(m.register(3), 7);
    assert_eq!(m.program_counter(), 0x202);
}

#[test]
fn call_then_return() {
    let mut m = machine(&[0x22, 0x04, 0x00, 0xFD, 0x00, 0xEE]);
    steps(&mut m, 1);
    assert_eq!(m.program_counter(), 0x204);
    assert_eq!(m.stack_pointer(), 1);
    steps(&mut m, 1);
    assert_eq!(m.program_counter(), 0x202);
    assert_eq!(m.stack_pointer(), 0);
    assert_eq!(m.step_with(None, 0), Ok(StepResult::Halted));
}

#[test]
fn return_on_empty_stack_underflows() {
    let mut m = machine(&[0x00, 0xEE]);
    assert_eq!(m.step_with(None, 0), Err(ChipError::StackUnderflow));
    assert_eq!(m.program_counter(), 0x200);
}

#[test]
fn deep_recursion_overflows() {
    let mut m = machine(&[0x22, 0x00]);
    steps(&mut m, 48);
    assert_eq!(m.stack_pointer(), 48);
    assert_eq!(m.step_with(None, 0), Err(ChipError::StackOverflow));
    assert_eq!(m.stack_pointer(), 48);
}

#[test]
fn unknown_instructions_are_reported() {
    let mut m = machine(&[0x01, 0x23]);
    assert_eq!(m.step_with(None, 0), Err(ChipError::UnknownInstruction(0x0123)));
    let mut m = machine(&[0x50, 0x11]);
    assert_eq!(m.step_with(None, 0), Err(ChipError::UnknownInstruction(0x5011)));
    let mut m = machine(&[0xF8, 0x75]);
    assert_eq!(m.step_with(None, 0), Err(ChipError::UnknownInstruction(0xF875)));
    assert_eq!(decode(0x8008), Instruction::Unknown(0x8008));
}

#[test]
fn exit_halts_cleanly() {
    let mut m = machine(&[0x00, 0xFD]);
    assert_eq!(m.step_with(None, 0), Ok(StepResult::Halted));
    assert_eq!(m.program_counter(), 0x200);
}

#[test]
fn jump_below_program_area_halts() {
    let mut m = machine(&[0x11, 0x00]);
    assert_eq!(m.step_with(None, 0), Ok(StepResult::Halted));
    assert_eq!(m.program_counter(), 0x100);
    assert_eq!(m.step_with(None, 0), Ok(StepResult::Halted));
}

#[test]
fn jump_with_offset_past_memory_halts() {
    let mut m = machine(&[0x60, 0xFF, 0xBF, 0xF0]);
    steps(&mut m, 1);
    assert_eq!(m.step_with(None, 0), Ok(StepResult::Halted));
    assert_eq!(m.program_counter(), 0x10EF);
}

#[test]
fn call_below_program_area_halts() {
    let mut m = machine(&[0x21, 0x00]);
    assert_eq!(m.step_with(None, 0), Ok(StepResult::Halted));
    assert_eq!(m.program_counter(), 0x100);
    assert_eq!(m.stack_pointer(), 1);
}

#[test]
fn running_off_the_end_of_memory_halts() {
    let mut prog = vec![0x1F, 0xFE];
    prog.resize(MAX_PROGRAM_SIZE, 0);
    prog[MAX_PROGRAM_SIZE - 2] = 0x6B;
    prog[MAX_PROGRAM_SIZE - 1] = 0x02;
    let mut m = SChip8::load(prog).unwrap();
    assert_eq!(m.step_with(None, 0), Ok(StepResult::Continue));
    assert_eq!(m.program_counter(), 0xFFE);
    assert_eq!(m.step_with(None, 0), Ok(StepResult::Halted));
    assert_eq!(m.register(0xB), 2);
    assert_eq!(m.program_counter(), 0x1000);
}

#[test]
fn jumps_land_on_target() {
    let mut m = machine(&[0x13, 0x00]);
    steps(&mut m, 1);
    assert_eq!(m.program_counter(), 0x300);
    let mut m = machine(&[0x60, 0x10, 0xB3, 0x00]);
    steps(&mut m, 2);
    assert_eq!(m.program_counter(), 0x310);
}

#[test]
fn random_is_masked() {
    let mut m = machine(&[0xC2, 0x0F]);
    steps(&mut m, 1);
    assert_eq!(m.register(2), 0x00);
    let mut m = machine(&[0xC2, 0x0F]);
    assert_eq!(m.step_with(None, 0xAB), Ok(StepResult::Continue));
    assert_eq!(m.register(2), 0x0B);
    let mut m = machine(&[0xC2, 0x00]);
    assert_eq!(m.step(None), Ok(StepResult::Continue));
    assert_eq!(m.register(2), 0);
}

#[test]
fn timers_are_set_read_and_ticked() {
    let mut m = machine(&[0x60, 0x03, 0xF0, 0x15, 0xF0, 0x18, 0xF1, 0x07]);
    steps(&mut m, 4);
    assert_eq!(m.timers(), (3, 3));
    assert_eq!(m.register(1), 3);
    m.tick_timers();
    assert_eq!(m.timers(), (2, 2));
    m.tick_timers();
    m.tick_timers();
    m.tick_timers();
    assert_eq!(m.timers(), (0, 0));
}

#[test]
fn address_register_arithmetic() {
    let mut m = machine(&[0xAF, 0xFE, 0x60, 0x05, 0xF0, 0x1E]);
    steps(&mut m, 3);
    assert_eq!(m.address_register(), 0x003);
    assert_eq!(m.register(0xF), 1);
    let mut m = machine(&[0xA1, 0x00, 0x60, 0x05, 0xF0, 0x1E]);
    steps(&mut m, 3);
    assert_eq!(m.address_register(), 0x105);
    assert_eq!(m.register(0xF), 0);
}

#[test]
fn font_addresses() {
    let mut m = machine(&[0x60, 0x0B, 0xF0, 0x29]);
    steps(&mut m, 2);
    assert_eq!(m.address_register(), 55);
    let mut m = machine(&[0x60, 0x07, 0xF0, 0x30]);
    steps(&mut m, 2);
    assert_eq!(m.address_register(), 150);
}

#[test]
fn decimal_digits() {
    let mut m = machine(&[0x60, 0xFF, 0xA3, 0x00, 0xF0, 0x33]);
    steps(&mut m, 3);
    assert_eq!(m.memory_at(0x300), 2);
    assert_eq!(m.memory_at(0x301), 5);
    assert_eq!(m.memory_at(0x302), 5);
    assert_eq!(m.address_register(), 0x300);
    let mut m = machine(&[0x60, 0x07, 0xA3, 0x00, 0xF0, 0x33]);
    steps(&mut m, 3);
    assert_eq!((m.memory_at(0x300), m.memory_at(0x301), m.memory_at(0x302)), (0, 0, 7));
}

#[test]
fn store_and_load_registers() {
    let mut m = machine(&[
        0x60, 0x11, 0x61, 0x22, 0x62, 0x33, 0xA4, 0x00, 0xF1, 0x55, 0x60, 0x00, 0x61, 0x00,
        0xF2, 0x65,
    ]);
    steps(&mut m, 5);
    assert_eq!(m.memory_at(0x400), 0x11);
    assert_eq!(m.memory_at(0x401), 0x22);
    assert_eq!(m.memory_at(0x402), 0x00);
    assert_eq!(m.address_register(), 0x400);
    steps(&mut m, 3);
    assert_eq!(m.register(0), 0x11);
    assert_eq!(m.register(1), 0x22);
    assert_eq!(m.register(2), 0x00);
}

#[test]
fn store_wraps_at_end_of_memory() {
    let mut m = machine(&[0x60, 0x01, 0x61, 0x02, 0xAF, 0xFF, 0xF1, 0x55]);
    steps(&mut m, 4);
    assert_eq!(m.memory_at(0xFFF), 0x01);
    assert_eq!(m.memory_at(0x000), 0x02);
}

#[test]
fn rpl_flags_round_trip() {
    let mut m = machine(&[0x60, 0x0A, 0x61, 0x0B, 0xF1, 0x75, 0x60, 0x00, 0x61, 0x00, 0xF1, 0x85]);
    steps(&mut m, 6);
    assert_eq!(m.register(0), 0x0A);
    assert_eq!(m.register(1), 0x0B);
}

#[test]
fn draw_font_glyph() {
    // Glyph 0 is F0 90 90 90 F0: 14 cells lit.
    let mut m = machine(&[0xA0, 0x00, 0xD0, 0x05]);
    steps(&mut m, 2);
    assert_eq!(lit(&m), 14);
    assert_eq!(m.screen[0], 1);
    assert_eq!(m.screen[4], 0);
    assert_eq!(m.screen[64], 1);
    assert_eq!(m.screen[65], 0);
    assert_eq!(m.register(0xF), 0);
}

#[test]
fn drawing_twice_restores_the_screen() {
    let mut m = machine(&[0x60, 0x0A, 0x61, 0x03, 0xA0, 0x00, 0xD0, 0x15, 0xD0, 0x15]);
    steps(&mut m, 3);
    let before = m.screen;
    steps(&mut m, 1);
    assert_eq!(m.register(0xF), 0);
    assert_eq!(lit(&m), 14);
    steps(&mut m, 1);
    assert_eq!(m.register(0xF), 1);
    assert!(m.screen == before);
}

#[test]
fn draw_wraps_start_and_clips_edges() {
    // X = 68 wraps to column 4, Y = 30 leaves two rows before the bottom.
    let mut m = machine(&[0x60, 68, 0x61, 30, 0xA0, 0x00, 0xD0, 0x15]);
    steps(&mut m, 4);
    assert_eq!(m.screen[30 * 64 + 4], 1);
    assert_eq!(lit(&m), 4 + 2);
    // X = 62: only two columns are visible, nothing spills onto the next row.
    let mut m = machine(&[0x60, 62, 0x61, 0, 0xA0, 0x00, 0xD0, 0x15]);
    steps(&mut m, 4);
    assert_eq!(m.screen[62], 1);
    assert_eq!(m.screen[63], 1);
    assert_eq!(m.screen[64], 0);
    assert_eq!(lit(&m), 2 + 1 + 1 + 1 + 2);
}

#[test]
fn render_sets_collision_flag() {
    let mut m = machine(&[]);
    m.render(0, 1, 5);
    assert_eq!(m.register(0xF), 0);
    m.render(0, 1, 5);
    assert_eq!(m.register(0xF), 1);
    assert_eq!(lit(&m), 0);
}

#[test]
fn wide_sprite_in_extended_mode() {
    // Sixteen rows of FF FF at 0x300: a solid 16x16 block.
    let mut prog = vec![0x00, 0xFF, 0xA3, 0x00, 0xD0, 0x00];
    prog.resize(0x100, 0);
    prog.extend(vec![0xFF; 32]);
    let mut m = machine(&prog);
    steps(&mut m, 3);
    assert_eq!(lit(&m), 256);
    assert_eq!(m.screen[15], 1);
    assert_eq!(m.screen[16], 0);
    assert_eq!(m.screen[15 * 128 + 15], 1);
}

#[test]
fn zero_rows_in_standard_mode_draws_nothing() {
    let mut m = machine(&[0xA0, 0x00, 0xD0, 0x00]);
    steps(&mut m, 2);
    assert_eq!(lit(&m), 0);
    assert_eq!(m.register(0xF), 0);
}

#[test]
fn clear_screen_in_both_modes() {
    let mut m = machine(&[0xA0, 0x00, 0xD0, 0x05, 0x00, 0xE0]);
    steps(&mut m, 3);
    assert!(m.screen.iter().all(|c| *c == 0));
    let mut m = machine(&[0x00, 0xFF, 0xA0, 0x00, 0x60, 100, 0x61, 40, 0xD0, 0x15, 0x00, 0xE0]);
    steps(&mut m, 5);
    assert!(lit(&m) > 0);
    steps(&mut m, 1);
    assert!(m.screen.iter().all(|c| *c == 0));
}

#[test]
fn extended_mode_keeps_framebuffer() {
    let mut m = machine(&[0xA0, 0x00, 0xD0, 0x05, 0x00, 0xFF]);
    steps(&mut m, 2);
    let before = m.screen;
    steps(&mut m, 1);
    assert_eq!((m.screen_width, m.screen_height), (128, 64));
    assert!(m.extended_screen);
    assert!(m.screen == before);
    assert!(m.screen[2048..].iter().all(|c| *c == 0));
}

#[test]
fn standard_mode_zeroes_hidden_cells() {
    let mut m = machine(&[0x00, 0xFF, 0x60, 0x00, 0x61, 60, 0xA0, 0x00, 0xD0, 0x15, 0xD2, 0x25, 0x00, 0xFE]);
    steps(&mut m, 6);
    let kept: Vec<u8> = m.screen[..2048].to_vec();
    assert!(m.screen[2048..].iter().any(|c| *c == 1));
    steps(&mut m, 1);
    assert_eq!((m.screen_width, m.screen_height), (64, 32));
    assert_eq!(m.screen[..2048].to_vec(), kept);
    assert!(m.screen[2048..].iter().all(|c| *c == 0));
}

#[test]
fn scroll_down_moves_rows() {
    let mut m = machine(&[0xA0, 0x00, 0xD0, 0x05, 0x00, 0xC2]);
    steps(&mut m, 3);
    assert_eq!(m.screen[0], 0);
    assert_eq!(m.screen[64], 0);
    assert_eq!(m.screen[2 * 64], 1);
    assert_eq!(m.screen[2 * 64 + 3], 1);
    assert_eq!(lit(&m), 14);
}

#[test]
fn scroll_right_and_left() {
    let mut m = machine(&[0xA0, 0x00, 0xD0, 0x05, 0x00, 0xFB]);
    steps(&mut m, 3);
    assert_eq!(m.screen[0], 0);
    assert_eq!(m.screen[4], 1);
    assert_eq!(m.screen[7], 1);
    assert_eq!(lit(&m), 14);
    let mut m = machine(&[0x60, 60, 0x61, 0, 0xA0, 0x00, 0xD0, 0x15, 0x00, 0xFC]);
    steps(&mut m, 5);
    assert_eq!(m.screen[56], 1);
    assert_eq!(m.screen[59], 1);
    assert_eq!(m.screen[60], 0);
    assert_eq!(lit(&m), 14);
    let mut m = machine(&[0xA0, 0x00, 0xD0, 0x05, 0x00, 0xFC]);
    steps(&mut m, 3);
    assert_eq!(lit(&m), 0);
}

#[test]
fn run_reports_redraw_and_halt() {
    let mut m = machine(&[0x60, 0x01, 0x00, 0xE0, 0x00, 0xFD]);
    let mut redraw = false;
    assert_eq!(m.run(0, &mut redraw), Ok(true));
    assert!(!redraw);
    assert_eq!(m.run(0, &mut redraw), Ok(true));
    assert!(redraw);
    assert_eq!(m.run(0, &mut redraw), Ok(false));
}

#[test]
fn run_feeds_wait_key() {
    let mut m = machine(&[0xF4, 0x0A]);
    let mut redraw = false;
    assert_eq!(m.run(20, &mut redraw), Ok(true));
    assert_eq!(m.program_counter(), 0x200);
    assert_eq!(m.run(9, &mut redraw), Ok(true));
    assert_eq!(m.register(4), 9);
    assert_eq!(m.program_counter(), 0x202);
}

#[test]
fn run_stops_on_fatal_error() {
    let mut m = machine(&[0x00, 0xEE]);
    let mut redraw = false;
    assert_eq!(m.run(0, &mut redraw), Err(ChipError::StackUnderflow));
    let mut m = machine(&[0x01, 0x23]);
    assert_eq!(m.run(0, &mut redraw), Err(ChipError::UnknownInstruction(0x0123)));
    let mut m = machine(&[0x11, 0x00]);
    assert_eq!(m.run(0, &mut redraw), Ok(false));
}
