//! A CHIP-8 virtual machine: a fetch/decode/execute core over an isolated
//! machine state (memory, registers, stack, timers, framebuffer), together
//! with the timer/frame step, the keypad protocol and a disassembler.

pub mod beep;
pub mod chip8;
pub mod debugger;
pub mod hexes;
pub mod hexfmt;
pub mod input;
pub mod translator;
