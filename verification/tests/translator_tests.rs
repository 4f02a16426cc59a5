//! The disassembler's renderings, the error report lines, and the host-key
//! conversion.

use chip8::chip8::ChipError;
use chip8::input::{HostKey, InputDriver};
use chip8::translator::translate;

#[test]
fn translate_system_opcodes() {
    assert_eq!(translate(0x00, 0xE0), "CLS");
    assert_eq!(translate(0x00, 0xEE), "RET");
    assert_eq!(translate(0x00, 0x00), "XXXX 0000");
    // The dispatch goes by the low byte alone, exactly as execution does:
    // the middle nibble does not make the instruction undefined.
    assert_eq!(translate(0x01, 0xE0), "CLS");
    assert_eq!(translate(0x05, 0xEE), "RET");
    assert_eq!(translate(0x01, 0x00), "XXXX 0100");
}

#[test]
fn translate_jumps_and_calls() {
    assert_eq!(translate(0x1A, 0xBC), "JP   0xabc");
    assert_eq!(translate(0x23, 0x45), "CALL 0x345");
    assert_eq!(translate(0xB2, 0x10), "JP   V0,  0x210");
    assert_eq!(translate(0xA0, 0x0F), "LD   I,   0x00f");
}

#[test]
fn translate_register_arithmetic() {
    assert_eq!(translate(0x6A, 0x0A), "LD   Va,  0x0a");
    assert_eq!(translate(0x7A, 0x05), "ADD  Va,  0x05");
    assert_eq!(translate(0x8A, 0xB0), "LD   Va,  Vb");
    assert_eq!(translate(0x8A, 0xB1), "OR   Va,  Vb");
    assert_eq!(translate(0x8A, 0xB2), "AND  Va,  Vb");
    assert_eq!(translate(0x8A, 0xB3), "XOR  Va,  Vb");
    assert_eq!(translate(0x8A, 0xB4), "ADD  Va,  Vb");
    assert_eq!(translate(0x8A, 0xB5), "SUB  Va,  Vb");
    assert_eq!(translate(0x8A, 0xB6), "SHR  Va,  <Vb>");
    assert_eq!(translate(0x8A, 0xB7), "SUBN Va,  Vb");
    assert_eq!(translate(0x8A, 0xBE), "SHL  Va,  <Vb>");
    assert_eq!(translate(0x8A, 0xB9), "XXXX 8ab9");
}

#[test]
fn translate_skips_and_draw() {
    assert_eq!(translate(0x3A, 0x42), "SE   Va,  0x42");
    assert_eq!(translate(0x4A, 0x42), "SNE  Va,  0x42");
    assert_eq!(translate(0x5A, 0xB0), "SE   Va,  Vb");
    assert_eq!(translate(0x5A, 0xB1), "XXXX 5ab1");
    assert_eq!(translate(0x9A, 0xB0), "SNE  Va,  Vb");
    assert_eq!(translate(0xCA, 0x0F), "RND  Va,  0x0f");
    assert_eq!(translate(0xD1, 0x23), "DRW  V1,  V2,  0x3");
    assert_eq!(translate(0xE1, 0x9E), "SKP  V1");
    assert_eq!(translate(0xE1, 0xA1), "SKNP V1");
    assert_eq!(translate(0xE1, 0x00), "XXXX e100");
}

#[test]
fn translate_timer_and_memory_group() {
    assert_eq!(translate(0xFA, 0x07), "LD   Va,  DT");
    assert_eq!(translate(0xFA, 0x0A), "LD   Va,  K");
    assert_eq!(translate(0xFA, 0x15), "LD   DT,  Va");
    assert_eq!(translate(0xFA, 0x18), "LD   ST,  Va");
    assert_eq!(translate(0xFA, 0x1E), "ADD  I,   Va");
    assert_eq!(translate(0xFA, 0x29), "LD   F,   Va");
    assert_eq!(translate(0xFA, 0x33), "LD   B,   Va");
    assert_eq!(translate(0xFA, 0x55), "LD   [I], Va");
    assert_eq!(translate(0xFA, 0x65), "LD   Va,  [I]");
    assert_eq!(translate(0xFA, 0x66), "XXXX fa66");
}

#[test]
fn error_messages() {
    assert_eq!(
        ChipError::BadOperationError(0xAB, 0xCD).message(),
        "PROCESSOR ERROR: Bad operation with bytes 0xABCD"
    );
    assert_eq!(
        ChipError::EmptyStackError.message(),
        "PROCESSOR ERROR: Tried to pop off empty stack"
    );
    assert_eq!(
        ChipError::FullStackError.message(),
        "PROCESSOR ERROR: Tried to push onto full stack"
    );
    assert_eq!(
        ChipError::MemoryOverflowError.message(),
        "PROCESSOR ERROR: Memory overflowed"
    );
    assert_eq!(
        ChipError::ProgramCounterError(0x1000).message(),
        "PROCESSOR ERROR: Program counter out of bounds: 0x1000"
    );
    assert_eq!(
        ChipError::ProgramCounterError(0x0FFF).message(),
        "PROCESSOR ERROR: Program counter out of bounds: 0xFFF"
    );
    assert_eq!(
        ChipError::ProgramCounterError(0x05).message(),
        "PROCESSOR ERROR: Program counter out of bounds: 0x05"
    );
}

#[test]
fn convert_keys_folds_the_layout() {
    assert_eq!(InputDriver::convert_keys(&vec![]), 0);
    assert_eq!(InputDriver::convert_keys(&vec![HostKey::X]), 1 << 0x0);
    assert_eq!(
        InputDriver::convert_keys(&vec![HostKey::Num1, HostKey::V]),
        (1 << 0x1) | (1 << 0xF)
    );
    assert_eq!(InputDriver::convert_keys(&vec![HostKey::Other]), 0);
    assert_eq!(
        InputDriver::convert_keys(&vec![
            HostKey::Num4,
            HostKey::R,
            HostKey::F,
            HostKey::V,
        ]),
        (1 << 0xC) | (1 << 0xD) | (1 << 0xE) | (1 << 0xF)
    );
}

#[test]
fn input_driver_starts_with_no_key_held() {
    let driver = InputDriver::new();
    assert_eq!(*driver.keys.lock().unwrap(), 0);
}
