//! Opcode semantics driven through the public tick interface.

use chip8::chip8::{Chip8, ChipError};

fn machine_with(program: &[u8]) -> Chip8 {
    let rng = rand_pcg::Pcg32::new(0xcafef00dd15ea5e5, 0xa02bdbf7bb3c0a7);
    let mut c = Chip8::new(rng);
    c.load(&program.to_vec()).unwrap();
    c
}

fn ticks(c: &mut Chip8, n: usize) {
    for _ in 0..n {
        c.tick(0).unwrap();
    }
}

#[test]
fn load_and_add_immediate() {
    // LD VA, 0x0A; ADD VA, 0x05 -- two ticks: VA == 15, PC advanced by 4.
    let mut c = machine_with(&[0x6A, 0x0A, 0x7A, 0x05]);
    ticks(&mut c, 2);
    assert_eq!(c.registers[0xA], 15);
    assert_eq!(c.pc, 0x204);
}

#[test]
fn add_reg_sets_carry_on_true_sum_past_255() {
    // VA = 200, VB = 100, ADD VA, VB: 300 wraps to 44 and VF = 1.
    let mut c = machine_with(&[0x6A, 0xC8, 0x6B, 0x64, 0x8A, 0xB4]);
    ticks(&mut c, 3);
    assert_eq!(c.registers[0xA], 44);
    assert_eq!(c.registers[0xF], 1);
}

#[test]
fn add_reg_clears_carry_when_sum_fits() {
    let mut c = machine_with(&[0x6A, 0x14, 0x6B, 0x28, 0x8A, 0xB4]);
    ticks(&mut c, 3);
    assert_eq!(c.registers[0xA], 60);
    assert_eq!(c.registers[0xF], 0);
}

#[test]
fn sub_reg_no_borrow_sets_vf() {
    // VA = 7, VB = 5, SUB VA, VB: VA = 2, VF = 1 (no borrow).
    let mut c = machine_with(&[0x6A, 0x07, 0x6B, 0x05, 0x8A, 0xB5]);
    ticks(&mut c, 3);
    assert_eq!(c.registers[0xA], 2);
    assert_eq!(c.registers[0xF], 1);
}

#[test]
fn sub_reg_equal_operands_sets_vf() {
    let mut c = machine_with(&[0x6A, 0x09, 0x6B, 0x09, 0x8A, 0xB5]);
    ticks(&mut c, 3);
    assert_eq!(c.registers[0xA], 0);
    assert_eq!(c.registers[0xF], 1);
}

#[test]
fn sub_reg_borrow_clears_vf() {
    // VA = 5, VB = 7: 5 - 7 wraps to 254 and VF = 0.
    let mut c = machine_with(&[0x6A, 0x05, 0x6B, 0x07, 0x8A, 0xB5]);
    ticks(&mut c, 3);
    assert_eq!(c.registers[0xA], 254);
    assert_eq!(c.registers[0xF], 0);
}

#[test]
fn subn_reg_uses_swapped_operands() {
    // VA = 5, VB = 7, SUBN VA, VB: VA = VB - VA = 2, VF = 1 (VB >= VA).
    let mut c = machine_with(&[0x6A, 0x05, 0x6B, 0x07, 0x8A, 0xB7]);
    ticks(&mut c, 3);
    assert_eq!(c.registers[0xA], 2);
    assert_eq!(c.registers[0xF], 1);
}

#[test]
fn shr_flag_is_bit_shifted_out() {
    // VA = 5 (odd): SHR gives 2 with VF = 1.
    let mut c = machine_with(&[0x6A, 0x05, 0x8A, 0xB6]);
    ticks(&mut c, 2);
    assert_eq!(c.registers[0xA], 2);
    assert_eq!(c.registers[0xF], 1);

    // VA = 4 (even): SHR gives 2 with VF = 0.
    let mut c = machine_with(&[0x6A, 0x04, 0x8A, 0xB6]);
    ticks(&mut c, 2);
    assert_eq!(c.registers[0xA], 2);
    assert_eq!(c.registers[0xF], 0);
}

#[test]
fn shl_flag_is_bit_shifted_out() {
    // VA = 0x81: SHL truncates to 2 with VF = 1 (bit 7 was set).
    let mut c = machine_with(&[0x6A, 0x81, 0x8A, 0xBE]);
    ticks(&mut c, 2);
    assert_eq!(c.registers[0xA], 2);
    assert_eq!(c.registers[0xF], 1);

    // VA = 0x41: SHL gives 0x82 with VF = 0.
    let mut c = machine_with(&[0x6A, 0x41, 0x8A, 0xBE]);
    ticks(&mut c, 2);
    assert_eq!(c.registers[0xA], 0x82);
    assert_eq!(c.registers[0xF], 0);
}

#[test]
fn bitwise_ops() {
    // VA = 0x0C, VB = 0x0A: OR = 0x0E, AND = 0x08, XOR = 0x06.
    let mut c = machine_with(&[0x6A, 0x0C, 0x6B, 0x0A, 0x8A, 0xB1]);
    ticks(&mut c, 3);
    assert_eq!(c.registers[0xA], 0x0E);

    let mut c = machine_with(&[0x6A, 0x0C, 0x6B, 0x0A, 0x8A, 0xB2]);
    ticks(&mut c, 3);
    assert_eq!(c.registers[0xA], 0x08);

    let mut c = machine_with(&[0x6A, 0x0C, 0x6B, 0x0A, 0x8A, 0xB3]);
    ticks(&mut c, 3);
    assert_eq!(c.registers[0xA], 0x06);
}

#[test]
fn random_result_is_subset_of_mask() {
    // RND V0, 0x0F: whatever byte the generator gives, only mask bits stay.
    let mut c = machine_with(&[0xC0, 0x0F]);
    ticks(&mut c, 1);
    assert_eq!(c.registers[0] & !0x0F, 0);

    // A zero mask forces a zero result.
    let mut c = machine_with(&[0xC0, 0x00]);
    ticks(&mut c, 1);
    assert_eq!(c.registers[0], 0);
}

#[test]
fn random_is_reproducible_from_the_seed() {
    let a = {
        let mut c = machine_with(&[0xC0, 0xFF]);
        ticks(&mut c, 1);
        c.registers[0]
    };
    let b = {
        let mut c = machine_with(&[0xC0, 0xFF]);
        ticks(&mut c, 1);
        c.registers[0]
    };
    assert_eq!(a, b);
}

#[test]
fn bcd_decomposes_123() {
    // VA = 123, I = 0x300, BCD: memory holds [1, 2, 3] at I, I+1, I+2.
    let mut c = machine_with(&[0x6A, 0x7B, 0xA3, 0x00, 0xFA, 0x33]);
    ticks(&mut c, 3);
    assert_eq!(&c.memory[0x300..0x303], &[1, 2, 3]);
}

#[test]
fn bcd_decomposes_0() {
    let mut c = machine_with(&[0x6A, 0x00, 0xA3, 0x00, 0xFA, 0x33]);
    ticks(&mut c, 3);
    assert_eq!(&c.memory[0x300..0x303], &[0, 0, 0]);
}

#[test]
fn bcd_decomposes_255() {
    let mut c = machine_with(&[0x6A, 0xFF, 0xA3, 0x00, 0xFA, 0x33]);
    ticks(&mut c, 3);
    assert_eq!(&c.memory[0x300..0x303], &[2, 5, 5]);
}

#[test]
fn font_lookup_points_at_glyph() {
    // LD F, VA with VA = 0x0B: I = 11 * 5 = 55.
    let mut c = machine_with(&[0x6A, 0x0B, 0xFA, 0x29]);
    ticks(&mut c, 2);
    assert_eq!(c.ir, 55);

    // Only the low nibble selects the glyph: 0x1B names the same one.
    let mut c = machine_with(&[0x6A, 0x1B, 0xFA, 0x29]);
    ticks(&mut c, 2);
    assert_eq!(c.ir, 55);
}

#[test]
fn block_store_and_load_are_inclusive() {
    // V0 = 3, V1 = 7, V2 = 9; store V0..=V2 at 0x300.
    let mut c = machine_with(&[
        0x60, 0x03, 0x61, 0x07, 0x62, 0x09, 0xA3, 0x00, 0xF2, 0x55,
    ]);
    ticks(&mut c, 5);
    assert_eq!(&c.memory[0x300..0x303], &[3, 7, 9]);
    assert_eq!(c.memory[0x303], 0);
    assert_eq!(c.ir, 0x300, "index register stays put without the quirk");

    // Load them back into a cleared register file.
    let mut c = machine_with(&[0xA3, 0x00, 0xF2, 0x65]);
    c.memory[0x300] = 11;
    c.memory[0x301] = 22;
    c.memory[0x302] = 33;
    c.memory[0x303] = 44;
    ticks(&mut c, 2);
    assert_eq!(&c.registers[0..3], &[11, 22, 33]);
    assert_eq!(c.registers[3], 0, "V3 is beyond the named register");
}

#[test]
fn index_quirk_advances_index_register() {
    let mut c = machine_with(&[0x60, 0x03, 0x61, 0x07, 0xA3, 0x00, 0xF1, 0x55]);
    c.quirks_mode.ldi = true;
    ticks(&mut c, 4);
    assert_eq!(&c.memory[0x300..0x302], &[3, 7]);
    assert_eq!(c.ir, 0x302);
}

#[test]
fn shift_quirk_reads_second_register() {
    // With the quirk on, SHR VA, VB reads VB: VA = 2>>1 = 1, VF = 0.
    let mut c = machine_with(&[0x6A, 0x05, 0x6B, 0x02, 0x8A, 0xB6]);
    c.quirks_mode.shift = true;
    ticks(&mut c, 3);
    assert_eq!(c.registers[0xA], 1);
    assert_eq!(c.registers[0xF], 0);
}

#[test]
fn add_i_accumulates() {
    let mut c = machine_with(&[0x6A, 0x10, 0xA3, 0x00, 0xFA, 0x1E]);
    ticks(&mut c, 3);
    assert_eq!(c.ir, 0x310);
}

#[test]
fn delay_timer_round_trip() {
    // LD DT, VA then LD VB, DT without a frame step in between.
    let mut c = machine_with(&[0x6A, 0x2A, 0xFA, 0x15, 0xFB, 0x07]);
    ticks(&mut c, 3);
    assert_eq!(c.dt, 0x2A);
    assert_eq!(c.registers[0xB], 0x2A);
}

#[test]
fn skips_and_jumps() {
    // SE taken: V0 == 5 skips the next instruction.
    let mut c = machine_with(&[0x60, 0x05, 0x30, 0x05]);
    ticks(&mut c, 2);
    assert_eq!(c.pc, 0x206);

    // SE not taken.
    let mut c = machine_with(&[0x60, 0x05, 0x30, 0x06]);
    ticks(&mut c, 2);
    assert_eq!(c.pc, 0x204);

    // SNE taken.
    let mut c = machine_with(&[0x60, 0x05, 0x40, 0x06]);
    ticks(&mut c, 2);
    assert_eq!(c.pc, 0x206);

    // SE on two registers, taken.
    let mut c = machine_with(&[0x60, 0x05, 0x61, 0x05, 0x50, 0x10]);
    ticks(&mut c, 3);
    assert_eq!(c.pc, 0x208);

    // SNE on two registers, not taken.
    let mut c = machine_with(&[0x60, 0x05, 0x61, 0x05, 0x90, 0x10]);
    ticks(&mut c, 3);
    assert_eq!(c.pc, 0x206);

    // JP.
    let mut c = machine_with(&[0x13, 0x45]);
    ticks(&mut c, 1);
    assert_eq!(c.pc, 0x345);

    // JP V0 + addr.
    let mut c = machine_with(&[0x60, 0x04, 0xB2, 0x10]);
    ticks(&mut c, 2);
    assert_eq!(c.pc, 0x214);
}

#[test]
fn skip_if_key_pressed_reads_level_mask() {
    // V0 = 5; key 5 held: SKP skips.
    let mut c = machine_with(&[0x60, 0x05, 0xE0, 0x9E]);
    c.tick(0).unwrap();
    c.tick(1 << 5).unwrap();
    assert_eq!(c.pc, 0x206);

    // Key not held: SKP advances normally.
    let mut c = machine_with(&[0x60, 0x05, 0xE0, 0x9E]);
    c.tick(0).unwrap();
    c.tick(0).unwrap();
    assert_eq!(c.pc, 0x204);

    // SKNP is the inverse.
    let mut c = machine_with(&[0x60, 0x05, 0xE0, 0xA1]);
    c.tick(0).unwrap();
    c.tick(0).unwrap();
    assert_eq!(c.pc, 0x206);
}

#[test]
fn bad_operation_is_fatal_and_exact() {
    let mut c = machine_with(&[0x00, 0x00]);
    assert_eq!(c.tick(0), Err(ChipError::BadOperationError(0x00, 0x00)));
    assert_eq!(c.pc, 0x200, "a failed tick changes nothing");

    let mut c = machine_with(&[0xFF, 0xFF]);
    assert_eq!(c.tick(0), Err(ChipError::BadOperationError(0xFF, 0xFF)));

    let mut c = machine_with(&[0x8A, 0xB8]);
    assert_eq!(c.tick(0), Err(ChipError::BadOperationError(0x8A, 0xB8)));
}

#[test]
fn bcd_addresses_wrap_around_memory() {
    // I = 0xFFF: the three BCD cells are 0xFFF, 0x000 and 0x001.
    let mut c = machine_with(&[0x6A, 0x7B, 0xAF, 0xFF, 0xFA, 0x33]);
    ticks(&mut c, 3);
    assert_eq!(c.memory[0xFFF], 1);
    assert_eq!(c.memory[0x000], 2);
    assert_eq!(c.memory[0x001], 3);
}

#[test]
fn block_store_addresses_wrap_around_memory() {
    let mut c = machine_with(&[0x60, 0x0B, 0x61, 0x16, 0xAF, 0xFF, 0xF1, 0x55]);
    ticks(&mut c, 4);
    assert_eq!(c.memory[0xFFF], 0x0B);
    assert_eq!(c.memory[0x000], 0x16);
}

#[test]
fn draw_of_zero_rows_does_nothing() {
    let mut c = machine_with(&[0xA0, 0x00, 0xD0, 0x00]);
    ticks(&mut c, 2);
    assert!(c.frame_buffer.iter().all(|&b| b == 0));
    assert_eq!(c.registers[0xF], 0);
    assert!(c.display_changed, "the draw opcode still marks the display changed");
}

#[test]
fn program_counter_out_of_bounds() {
    let mut c = machine_with(&[]);
    c.pc = 4095;
    assert_eq!(c.tick(0), Err(ChipError::ProgramCounterError(4095)));

    // The last fetchable address still works.
    let mut c = machine_with(&[]);
    c.memory[4094] = 0x6A;
    c.memory[4095] = 0x01;
    c.pc = 4094;
    c.tick(0).unwrap();
    assert_eq!(c.registers[0xA], 1);
}
