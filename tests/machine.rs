use chip8::keypad::HostKey;
use chip8::machine::{Chip8, LoadError, StepError, PROGRAM_CAPACITY};

fn machine_with(program: &[u8]) -> Chip8 {
    let mut m = Chip8::new();
    m.load_program(program.to_vec()).unwrap();
    m
}

fn run(m: &mut Chip8, steps: usize) {
    for _ in 0..steps {
        m.step_with_random(0).unwrap();
    }
}

#[test]
fn new_machine_has_font_and_zeroed_state() {
    let m = Chip8::new();
    assert_eq!(m.pc(), 0x200);
    assert_eq!(m.index(), 0);
    assert_eq!(m.stack_depth(), 0);
    assert_eq!(m.memory_at(0), 0xF0);
    assert_eq!(m.memory_at(5), 0x20);
    assert_eq!(m.memory_at(79), 0x80);
    for r in 0..16 {
        assert_eq!(m.register(r), 0);
    }
    assert_eq!(m.delay_timer(), 0);
    assert_eq!(m.sound_timer(), 0);
    assert!(!m.redraw_pending());
}

#[test]
fn empty_program_leaves_memory_zero_above_font() {
    let mut m = Chip8::new();
    assert_eq!(m.load_program(vec![]), Ok(()));
    for a in 80..4096u16 {
        assert_eq!(m.memory_at(a), 0);
    }
    assert_eq!(m.pc(), 0x200);
}

#[test]
fn program_is_loaded_at_0x200() {
    let m = machine_with(&[0xAB, 0xCD, 0xEF]);
    assert_eq!(m.memory_at(0x1FF), 0);
    assert_eq!(m.memory_at(0x200), 0xAB);
    assert_eq!(m.memory_at(0x202), 0xEF);
    assert_eq!(m.memory_at(0x203), 0);
}

#[test]
fn largest_program_fits_and_one_more_byte_is_refused() {
    let mut m = Chip8::new();
    assert_eq!(m.load_program(vec![7; PROGRAM_CAPACITY]), Ok(()));
    assert_eq!(m.memory_at(0xFFF), 7);
    let mut fresh = Chip8::new();
    assert_eq!(
        fresh.load_program(vec![7; PROGRAM_CAPACITY + 1]),
        Err(LoadError::ProgramTooLarge { len: 3585 })
    );
    assert_eq!(fresh.memory_at(0x200), 0);
}

#[test]
fn load_immediate_then_read() {
    let mut m = machine_with(&[0x6A, 0x42, 0x60, 0xFF]);
    run(&mut m, 2);
    assert_eq!(m.register(0xA), 0x42);
    assert_eq!(m.register(0x0), 0xFF);
    assert_eq!(m.pc(), 0x204);
}

#[test]
fn add_immediate_wraps_without_flag() {
    let mut m = machine_with(&[0x61, 0xF0, 0x71, 0x20]);
    run(&mut m, 2);
    assert_eq!(m.register(1), 0x10);
    assert_eq!(m.register(0xF), 0);
}

#[test]
fn add_with_carry_sets_flag_on_overflow() {
    let mut m = machine_with(&[0x60, 200, 0x61, 100, 0x80, 0x14]);
    run(&mut m, 3);
    assert_eq!(m.register(0), 44);
    assert_eq!(m.register(0xF), 1);
    let mut n = machine_with(&[0x60, 20, 0x61, 100, 0x80, 0x14]);
    run(&mut n, 3);
    assert_eq!(n.register(0), 120);
    assert_eq!(n.register(0xF), 0);
}

#[test]
fn subtract_with_borrow_flags_no_borrow() {
    let mut m = machine_with(&[0x60, 50, 0x61, 20, 0x80, 0x15]);
    run(&mut m, 3);
    assert_eq!(m.register(0), 30);
    assert_eq!(m.register(0xF), 1);
    let mut n = machine_with(&[0x60, 20, 0x61, 50, 0x80, 0x15]);
    run(&mut n, 3);
    assert_eq!(n.register(0), 226);
    assert_eq!(n.register(0xF), 0);
    let mut e = machine_with(&[0x60, 9, 0x61, 9, 0x80, 0x15]);
    run(&mut e, 3);
    assert_eq!(e.register(0), 0);
    assert_eq!(e.register(0xF), 1);
}

#[test]
fn reverse_subtract_swaps_operands() {
    let mut m = machine_with(&[0x60, 20, 0x61, 50, 0x80, 0x17]);
    run(&mut m, 3);
    assert_eq!(m.register(0), 30);
    assert_eq!(m.register(0xF), 1);
    let mut n = machine_with(&[0x60, 50, 0x61, 20, 0x80, 0x17]);
    run(&mut n, 3);
    assert_eq!(n.register(0), 226);
    assert_eq!(n.register(0xF), 0);
}

#[test]
fn bitwise_and_copy_leave_flag_alone() {
    let mut m = machine_with(&[
        0x6F, 0x55, 0x60, 0b1100, 0x61, 0b1010, 0x62, 0b1100, 0x63, 0b1100, 0x80, 0x11, 0x82,
        0x12, 0x83, 0x13, 0x84, 0x10,
    ]);
    run(&mut m, 9);
    assert_eq!(m.register(0), 0b1110);
    assert_eq!(m.register(2), 0b1000);
    assert_eq!(m.register(3), 0b0110);
    assert_eq!(m.register(4), 0b1010);
    assert_eq!(m.register(0xF), 0x55);
}

#[test]
fn shifts_flag_the_bit_shifted_out_of_the_destination() {
    let mut m = machine_with(&[0x60, 0b1000_0011, 0x80, 0x06]);
    run(&mut m, 2);
    assert_eq!(m.register(0), 0b0100_0001);
    assert_eq!(m.register(0xF), 1);
    let mut n = machine_with(&[0x60, 0b1000_0011, 0x80, 0x0E]);
    run(&mut n, 2);
    assert_eq!(n.register(0), 0b0000_0110);
    assert_eq!(n.register(0xF), 1);
    let mut z = machine_with(&[0x60, 0b0100_0010, 0x80, 0x0E, 0x61, 2, 0x81, 0x06]);
    run(&mut z, 4);
    assert_eq!(z.register(0), 0b1000_0100);
    assert_eq!(z.register(1), 1);
    assert_eq!(z.register(0xF), 0);
}

#[test]
fn skip_if_equal_moves_four_or_two() {
    let mut m = machine_with(&[0x60, 0x12, 0x30, 0x12]);
    run(&mut m, 2);
    assert_eq!(m.pc(), 0x206);
    let mut n = machine_with(&[0x60, 0x12, 0x30, 0x13]);
    run(&mut n, 2);
    assert_eq!(n.pc(), 0x204);
}

#[test]
fn other_skips_follow_their_conditions() {
    let mut m = machine_with(&[0x40, 0x01]);
    run(&mut m, 1);
    assert_eq!(m.pc(), 0x204);
    let mut n = machine_with(&[0x50, 0x10]);
    run(&mut n, 1);
    assert_eq!(n.pc(), 0x204);
    let mut k = machine_with(&[0x61, 0x01, 0x90, 0x10]);
    run(&mut k, 2);
    assert_eq!(k.pc(), 0x206);
    let mut j = machine_with(&[0x90, 0x10]);
    run(&mut j, 1);
    assert_eq!(j.pc(), 0x202);
}

#[test]
fn jump_sets_the_program_counter() {
    let mut m = machine_with(&[0x13, 0x45]);
    run(&mut m, 1);
    assert_eq!(m.pc(), 0x345);
}

#[test]
fn call_then_return_resumes_after_the_call() {
    // 0x200: call 0x206; 0x202: V0 = 1; 0x206: call 0x20A; 0x208: return; 0x20A: return
    let mut m = machine_with(&[
        0x22, 0x06, 0x60, 0x01, 0x00, 0x00, 0x22, 0x0A, 0x00, 0xEE, 0x00, 0xEE,
    ]);
    run(&mut m, 1);
    assert_eq!(m.pc(), 0x206);
    assert_eq!(m.stack_depth(), 1);
    run(&mut m, 1);
    assert_eq!(m.pc(), 0x20A);
    assert_eq!(m.stack_depth(), 2);
    run(&mut m, 1);
    assert_eq!(m.pc(), 0x208);
    assert_eq!(m.stack_depth(), 1);
    run(&mut m, 1);
    assert_eq!(m.pc(), 0x202);
    assert_eq!(m.stack_depth(), 0);
    run(&mut m, 1);
    assert_eq!(m.register(0), 1);
}

#[test]
fn return_on_empty_stack_is_an_error() {
    let mut m = machine_with(&[0x00, 0xEE]);
    assert_eq!(m.step_with_random(0), Err(StepError::StackUnderflow { pc: 0x200 }));
    assert_eq!(m.pc(), 0x200);
}

#[test]
fn unknown_opcodes_are_errors() {
    for program in [[0x00u8, 0x00], [0xB1, 0x23], [0x80, 0x18], [0xE0, 0x00], [0xF0, 0x99]] {
        let mut m = machine_with(&program);
        let op = (program[0] as u16) << 8 | program[1] as u16;
        assert_eq!(
            m.step_with_random(0),
            Err(StepError::UnknownOpcode { opcode: op, pc: 0x200 })
        );
        assert_eq!(m.pc(), 0x200);
    }
}

#[test]
fn decimal_digits_of_255() {
    let mut m = machine_with(&[0x60, 0xFF, 0xA3, 0x00, 0xF0, 0x33]);
    run(&mut m, 3);
    assert_eq!(m.memory_at(0x300), 2);
    assert_eq!(m.memory_at(0x301), 5);
    assert_eq!(m.memory_at(0x302), 5);
    assert_eq!(m.index(), 0x300);
}

#[test]
fn decimal_digits_of_small_values() {
    let mut m = machine_with(&[0x60, 7, 0xA3, 0x00, 0xF0, 0x33]);
    run(&mut m, 3);
    assert_eq!(
        (m.memory_at(0x300), m.memory_at(0x301), m.memory_at(0x302)),
        (0, 0, 7)
    );
}

#[test]
fn store_and_load_registers() {
    let mut m = machine_with(&[
        0x60, 1, 0x61, 2, 0x62, 3, 0x63, 4, 0xA4, 0x00, 0xF2, 0x55, 0x60, 0, 0x61, 0, 0x62, 0,
        0xF2, 0x65,
    ]);
    run(&mut m, 6);
    assert_eq!(m.memory_at(0x400), 1);
    assert_eq!(m.memory_at(0x401), 2);
    assert_eq!(m.memory_at(0x402), 3);
    assert_eq!(m.memory_at(0x403), 0);
    assert_eq!(m.index(), 0x400);
    run(&mut m, 4);
    assert_eq!(m.register(0), 1);
    assert_eq!(m.register(1), 2);
    assert_eq!(m.register(2), 3);
    assert_eq!(m.register(3), 4);
    assert_eq!(m.index(), 0x403);
}

#[test]
fn index_arithmetic_and_font_glyphs() {
    let mut m = machine_with(&[0xAF, 0xFF, 0x60, 0x03, 0xF0, 0x1E, 0x61, 0x0B, 0xF1, 0x29]);
    run(&mut m, 3);
    assert_eq!(m.index(), 0x1002);
    assert_eq!(m.pc(), 0x206);
    run(&mut m, 2);
    assert_eq!(m.index(), 55);
}

#[test]
fn index_add_wraps_at_sixteen_bits() {
    // index 0xFFF plus 0xFF, sixteen times over, passes 0xFFFF
    let mut program = vec![0x60, 0xFF, 0xAF, 0xFF];
    for _ in 0..257 {
        program.extend_from_slice(&[0xF0, 0x1E]);
    }
    let mut m = machine_with(&program);
    run(&mut m, 2 + 257);
    assert_eq!(m.index(), ((0xFFFu32 + 257 * 0xFF) % 65536) as u16);
}

#[test]
fn timers_count_down_by_two_per_step() {
    let mut m = machine_with(&[0x60, 5, 0xF0, 0x15, 0xF0, 0x18, 0xF1, 0x07]);
    run(&mut m, 2);
    assert_eq!(m.delay_timer(), 3);
    run(&mut m, 1);
    assert_eq!(m.delay_timer(), 1);
    assert_eq!(m.sound_timer(), 3);
    run(&mut m, 1);
    assert_eq!(m.register(1), 1);
    assert_eq!(m.delay_timer(), 0);
    assert_eq!(m.sound_timer(), 1);
}

#[test]
fn draw_sprite_through_step_sets_pixels_and_flag() {
    // glyph 0 at (60, 0): five rows of F0 / 90
    let mut m = machine_with(&[0x60, 60, 0x61, 0, 0xA0, 0x00, 0xD0, 0x15, 0xD0, 0x15]);
    run(&mut m, 4);
    assert!(m.redraw_pending());
    assert_eq!(m.register(0xF), 0);
    let buf = m.get_display_buffer().to_vec();
    assert_eq!(&buf[60..64], &[1, 1, 1, 1]);
    assert_eq!(&buf[0..4], &[0, 0, 0, 0]);
    assert_eq!(&buf[64 + 60..64 + 64], &[1, 0, 0, 1]);
    m.clear_redraw();
    assert!(!m.redraw_pending());
    run(&mut m, 1);
    assert_eq!(m.register(0xF), 1);
    assert!(m.get_display_buffer().iter().all(|&p| p == 0));
}

#[test]
fn sprite_rows_wrap_vertically() {
    let mut m = machine_with(&[0x60, 0, 0x61, 31, 0xA0, 0x00, 0xD0, 0x12]);
    run(&mut m, 4);
    let buf = m.get_display_buffer();
    assert_eq!(&buf[31 * 64..31 * 64 + 4], &[1, 1, 1, 1]);
    assert_eq!(&buf[0..4], &[1, 0, 0, 1]);
}

#[test]
fn collision_in_any_row_sets_the_flag() {
    // draw one row, then a two-row sprite whose first row overlaps it
    let mut m = machine_with(&[0xA0, 0x00, 0xD0, 0x01, 0xD0, 0x02]);
    run(&mut m, 3);
    assert_eq!(m.register(0xF), 1);
}

#[test]
fn clear_screen_blanks_and_advances() {
    let mut m = machine_with(&[0xA0, 0x00, 0xD0, 0x05, 0x00, 0xE0]);
    run(&mut m, 3);
    assert!(m.get_display_buffer().iter().all(|&p| p == 0));
    assert_eq!(m.pc(), 0x206);
}

#[test]
fn random_byte_is_masked() {
    let mut m = machine_with(&[0xC3, 0x0F, 0xC4, 0x00]);
    m.step_with_random(0xAB).unwrap();
    assert_eq!(m.register(3), 0x0B);
    m.step().unwrap();
    assert_eq!(m.register(4), 0);
    assert_eq!(m.pc(), 0x204);
}

#[test]
fn step_draws_a_random_byte_within_the_mask() {
    let mut m = machine_with(&[0xC5, 0xF0]);
    m.step().unwrap();
    assert_eq!(m.register(5) & 0x0F, 0);
}

#[test]
fn key_skips_follow_the_keypad() {
    let mut m = machine_with(&[0x60, 0xC, 0xE0, 0x9E, 0x00, 0x00, 0xE0, 0xA1]);
    m.update_keys(vec![HostKey::Key4]);
    run(&mut m, 2);
    assert_eq!(m.pc(), 0x206);
    run(&mut m, 1);
    assert_eq!(m.pc(), 0x208);
    let mut n = machine_with(&[0x60, 0xC, 0xE0, 0x9E, 0xE0, 0xA1]);
    run(&mut n, 2);
    assert_eq!(n.pc(), 0x204);
    run(&mut n, 1);
    assert_eq!(n.pc(), 0x208);
}
