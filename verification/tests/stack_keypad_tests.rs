//! Call-stack discipline, program loading, and the blocking key wait.

use chip8::chip8::{get_lowest_bit_pos, get_nnn, Chip8, ChipError, MEMORY_OFFSET, MEMORY_SIZE};

fn machine_with(program: &[u8]) -> Chip8 {
    let rng = rand_pcg::Pcg32::new(0xcafef00dd15ea5e5, 0xa02bdbf7bb3c0a7);
    let mut c = Chip8::new(rng);
    c.load(&program.to_vec()).unwrap();
    c
}

#[test]
fn nested_calls_and_returns_restore_the_pc_sequence() {
    // CALL 0x204; RET (at 0x202, for the final underflow); CALL 0x208;
    // RET; RET.
    let mut c = machine_with(&[0x22, 0x04, 0x00, 0xEE, 0x22, 0x08, 0x00, 0xEE, 0x00, 0xEE]);
    c.tick(0).unwrap();
    assert_eq!((c.pc, c.sp), (0x204, 1));
    c.tick(0).unwrap();
    assert_eq!((c.pc, c.sp), (0x208, 2));
    c.tick(0).unwrap();
    assert_eq!((c.pc, c.sp), (0x206, 1), "first return resumes after the inner call");
    c.tick(0).unwrap();
    assert_eq!((c.pc, c.sp), (0x202, 0), "second return resumes after the outer call");
    // The (N+1)-th return has no matching call.
    assert_eq!(c.tick(0), Err(ChipError::EmptyStackError));
    assert_eq!((c.pc, c.sp), (0x202, 0), "the failed tick changes nothing");
}

#[test]
fn seventeenth_nested_call_overflows() {
    // Sixteen calls, each to the following instruction, then one more.
    let mut program = Vec::new();
    for k in 0..17u16 {
        let target = 0x202 + 2 * k;
        program.push(0x20 | (target >> 8) as u8);
        program.push((target & 0xFF) as u8);
    }
    let mut c = machine_with(&program);
    for _ in 0..16 {
        c.tick(0).unwrap();
    }
    assert_eq!(c.sp, 16);
    assert_eq!(c.pc, 0x220);
    assert_eq!(c.tick(0), Err(ChipError::FullStackError));
    assert_eq!(c.sp, 16);
    assert_eq!(c.pc, 0x220);
}

#[test]
fn load_is_all_or_nothing() {
    let rng = rand_pcg::Pcg32::new(1, 2);
    let mut c = Chip8::new(rng);

    // The largest image that fits loads entirely.
    let full = vec![0xAB; MEMORY_SIZE - MEMORY_OFFSET];
    c.load(&full).unwrap();
    assert_eq!(c.memory[MEMORY_OFFSET], 0xAB);
    assert_eq!(c.memory[MEMORY_SIZE - 1], 0xAB);

    // One byte more is rejected before anything is written.
    let rng = rand_pcg::Pcg32::new(1, 2);
    let mut c = Chip8::new(rng);
    let too_big = vec![0xCD; MEMORY_SIZE - MEMORY_OFFSET + 1];
    assert_eq!(c.load(&too_big), Err(ChipError::MemoryOverflowError));
    assert_eq!(c.memory[MEMORY_OFFSET], 0, "nothing was written");
    assert_eq!(c.memory[MEMORY_SIZE - 1], 0);
}

#[test]
fn new_machine_has_font_and_load_offset() {
    let c = Chip8::new(rand_pcg::Pcg32::new(7, 7));
    assert_eq!(&c.memory[0..5], &[0xF0, 0x90, 0x90, 0x90, 0xF0], "glyph '0'");
    assert_eq!(&c.memory[75..80], &[0xF0, 0x80, 0xF0, 0x80, 0x80], "glyph 'F'");
    assert_eq!(c.pc, 0x200);
    assert_eq!(c.sp, 0);
    assert!(!c.keypad_waiting);
    assert!(!c.sound_playing);
    assert!(c.frame_buffer.iter().all(|&b| b == 0));
    assert!(c.registers.iter().all(|&b| b == 0));
}

#[test]
fn key_wait_resolves_on_lowest_edge_bit() {
    // LD V5, K: the latch is set, the PC still advances.
    let mut c = machine_with(&[0xF5, 0x0A]);
    c.tick(0).unwrap();
    assert!(c.keypad_waiting);
    assert_eq!(c.pc, 0x202);

    // An all-zero edge mask leaves the latch set.
    c.keypad_press(0);
    assert!(c.keypad_waiting);

    // Bit 5 set (and no lower bit): the value 5 lands in V5.
    c.keypad_press(1 << 5);
    assert!(!c.keypad_waiting);
    assert_eq!(c.registers[5], 5);
}

#[test]
fn key_wait_tie_break_is_lowest_bit() {
    let mut c = machine_with(&[0xF3, 0x0A]);
    c.tick(0).unwrap();
    // Bits 5, 9 and 15 together: the lowest wins.
    c.keypad_press((1 << 5) | (1 << 9) | (1 << 15));
    assert_eq!(c.registers[3], 5);
}

#[test]
fn keypad_press_without_wait_is_a_no_op() {
    let mut c = machine_with(&[0x6A, 0x01]);
    c.keypad_press(1 << 2);
    assert!(c.registers.iter().all(|&b| b == 0));
    assert!(!c.keypad_waiting);
}

#[test]
fn lowest_bit_positions() {
    assert_eq!(get_lowest_bit_pos(0), None);
    assert_eq!(get_lowest_bit_pos(0b1000), Some(3));
    assert_eq!(get_lowest_bit_pos(0xFFFF), Some(0));
    assert_eq!(get_lowest_bit_pos(0x8000), Some(15));
}

#[test]
fn nnn_extraction() {
    assert_eq!(get_nnn(0x1A, 0xBC), 0xABC);
    assert_eq!(get_nnn(0xFF, 0xFF), 0xFFF);
    assert_eq!(get_nnn(0x10, 0x00), 0x000);
}
