//! The sprite-draw algorithm, the clear-screen opcode, and the frame step.

use chip8::chip8::Chip8;

fn machine_with(program: &[u8]) -> Chip8 {
    let rng = rand_pcg::Pcg32::new(0xcafef00dd15ea5e5, 0xa02bdbf7bb3c0a7);
    let mut c = Chip8::new(rng);
    c.load(&program.to_vec()).unwrap();
    c
}

fn ticks(c: &mut Chip8, n: usize) {
    for _ in 0..n {
        c.tick(0).unwrap();
    }
}

#[test]
fn draw_glyph_without_collision() {
    // LD I, 0 (glyph '0'); DRW V0, V0, 5 at the origin.
    let mut c = machine_with(&[0xA0, 0x00, 0xD0, 0x05]);
    ticks(&mut c, 2);
    // Glyph '0' is F0 90 90 90 F0, one byte per row at column 0.
    assert_eq!(c.frame_buffer[0], 0xF0);
    assert_eq!(c.frame_buffer[8], 0x90);
    assert_eq!(c.frame_buffer[16], 0x90);
    assert_eq!(c.frame_buffer[24], 0x90);
    assert_eq!(c.frame_buffer[32], 0xF0);
    assert_eq!(c.registers[0xF], 0, "nothing was set before, so no collision");
    assert!(c.display_changed);
}

#[test]
fn draw_twice_restores_and_reports_collision() {
    let mut c = machine_with(&[0xA0, 0x00, 0xD0, 0x05, 0xD0, 0x05]);
    ticks(&mut c, 2);
    let after_first = c.frame_buffer.clone();
    assert!(after_first.iter().any(|&b| b != 0));
    ticks(&mut c, 1);
    assert!(c.frame_buffer.iter().all(|&b| b == 0), "double XOR restores the buffer");
    assert_eq!(c.registers[0xF], 1, "the second draw collides on every set bit");
    assert_eq!(c.pc, 0x206);
}

#[test]
fn sprite_wraps_at_the_right_edge() {
    // VA = 60; draw the one-row sprite 0xFF at x = 60: its eight pixels are
    // columns 60, 61, 62, 63, 0, 1, 2, 3 of row 0.
    let mut c = machine_with(&[0x6A, 0x3C, 0xA2, 0x08, 0xDA, 0x01, 0x00, 0x00, 0xFF]);
    ticks(&mut c, 3);
    assert_eq!(c.frame_buffer[7], 0x0F, "columns 60..=63");
    assert_eq!(c.frame_buffer[0], 0xF0, "columns 0..=3, wrapped");
    for i in 1..7 {
        assert_eq!(c.frame_buffer[i], 0);
    }
    assert_eq!(c.registers[0xF], 0);
}

#[test]
fn sprite_wraps_at_the_bottom_edge() {
    // VB = 30; draw the 5-row glyph '0' at y = 30: rows 30, 31, 0, 1, 2.
    let mut c = machine_with(&[0x6B, 0x1E, 0xA0, 0x00, 0xD0, 0xB5]);
    ticks(&mut c, 3);
    assert_eq!(c.frame_buffer[30 * 8], 0xF0);
    assert_eq!(c.frame_buffer[31 * 8], 0x90);
    assert_eq!(c.frame_buffer[0], 0x90);
    assert_eq!(c.frame_buffer[8], 0x90);
    assert_eq!(c.frame_buffer[16], 0xF0);
}

#[test]
fn cls_clears_a_prefilled_framebuffer() {
    // A framebuffer full of 0xFF, one CLS tick: all zero, PC advanced by 2.
    let mut c = machine_with(&[0x00, 0xE0]);
    c.frame_buffer = vec![0xFF; 64 * 32 / 8];
    c.tick(0).unwrap();
    assert!(c.frame_buffer.iter().all(|&b| b == 0));
    assert_eq!(c.pc, 0x202);
}

#[test]
fn frame_clears_display_changed_and_steps_timers() {
    // DT = 2, ST = 2 via opcodes, then drive frames.
    let mut c = machine_with(&[0x6A, 0x02, 0xFA, 0x15, 0xFA, 0x18, 0xA0, 0x00, 0xD0, 0x05]);
    ticks(&mut c, 5);
    assert!(c.display_changed);

    c.frame();
    assert!(!c.display_changed, "the frame step consumes the flag");
    assert_eq!(c.dt, 1);
    assert_eq!(c.st, 1);
    assert!(c.sound_playing, "sound is active while the sound timer is nonzero");

    c.frame();
    assert_eq!(c.dt, 0);
    assert_eq!(c.st, 0);
    assert!(!c.sound_playing);

    // The timers floor at zero however often the frame step runs.
    for _ in 0..10 {
        c.frame();
    }
    assert_eq!(c.dt, 0);
    assert_eq!(c.st, 0);
    assert!(!c.sound_playing);
}

#[test]
fn cls_dispatch_ignores_the_middle_nibble() {
    // 0x01E0 executes as CLS, exactly as the disassembler renders it.
    let mut c = machine_with(&[0x01, 0xE0]);
    c.frame_buffer = vec![0xFF; 64 * 32 / 8];
    c.tick(0).unwrap();
    assert!(c.frame_buffer.iter().all(|&b| b == 0));
    assert_eq!(c.pc, 0x202);
    assert_eq!(chip8::translator::translate(0x01, 0xE0), "CLS");
}

#[test]
fn tick_does_not_clear_display_changed() {
    let mut c = machine_with(&[0xA0, 0x00, 0xD0, 0x05, 0x6A, 0x01]);
    ticks(&mut c, 2);
    assert!(c.display_changed);
    ticks(&mut c, 1);
    assert!(c.display_changed, "only the frame step consumes the flag");
}
