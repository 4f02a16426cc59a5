//! The machine model and the instruction-execution engine.
//!
//! The state is one owned object: memory, the register file, the stack,
//! the timers, the framebuffer and the keypad-wait latch.  `tick` runs one
//! fetch/decode/execute cycle, `frame` steps the timers, and `keypad_press`
//! resolves a pending key wait.  Every contract below is stated over the
//! views of the state's fields, so that the exact effect of each opcode is
//! pinned down.

use vstd::prelude::*;
use vstd::string::StringExecFns;
use rand::RngCore;
use crate::hexes::hexes_flat;
use crate::hexes::font_seq;
use crate::hexfmt::hex2_upper_seq;
use crate::hexfmt::hex_u16_min2_upper_seq;
use crate::hexfmt::push_hex2_upper;
use crate::hexfmt::push_hex_u16_min2_upper;

verus! {

/// Bytes of addressable memory.
pub const MEMORY_SIZE: usize = 4096;
/// Number of general-purpose registers (`V0`..`VF`).
pub const REGISTER_COUNT: usize = 16;
/// Capacity of the call stack, in return addresses.
pub const STACK_SIZE: usize = 16;

/// Width of the display in pixels.
pub const SCREEN_WIDTH: usize = 64;
/// Height of the display in pixels.
pub const SCREEN_HEIGHT: usize = 32;

/// Register index of `V0`.
pub const REG_V0: usize = 0x00;
/// Register index of `VF`, the implicit flag register.
pub const REG_VF: usize = 0x0F;

/// First address of the program-load region.
pub const MEMORY_OFFSET: usize = 0x0200;

/// Bytes per instruction.
pub const INSTRUCTION_SIZE: u16 = 2;

/// The pseudo-random generator injected at construction, so that a run is
/// reproducible from its seed.  The generator's state is opaque here: the
/// engine assumes nothing about the values it produces.
#[verifier::external_type_specification]
#[verifier::external_body]
pub struct ExLcg64Xsh32(rand_pcg::Lcg64Xsh32);

/// Relies on rand_pcg::Lcg64Xsh32's `RngCore::next_u32` (total and
/// panic-free): the low byte of a pseudo-random 32-bit value drawn from the
/// generator's private state.  Nothing is assumed of the value returned, so
/// every caller must be correct for every outcome.
#[verifier::external_body]
fn next_random_byte(rng: &mut rand_pcg::Lcg64Xsh32) -> (r: u8) {
    (rng.next_u32() & 0xFF) as u8
}

/// Host-set toggles for the two opcode families whose semantics differ
/// between interpreter generations.  With both toggles off the engine keeps
/// the modern behaviour: shifts read the destination register itself, and
/// block register transfers leave the index register unchanged.  Switching a
/// toggle on selects the original COSMAC behaviour: shifts read the second
/// named register, and block transfers advance the index register past the
/// bytes moved.
#[derive(Clone, Copy, Debug, PartialEq, Eq, Structural)]
pub struct QuirksMode {
    /// Block register load/store advances the index register by `x + 1`.
    pub ldi: bool,
    /// Shift opcodes read `Vy` rather than `Vx`.
    pub shift: bool,
}

impl Default for QuirksMode {
    /// Both quirks off: the engine's reference behaviour.
    fn default() -> (r: Self)
        ensures
            r == (QuirksMode { ldi: false, shift: false }),
    {
        QuirksMode { ldi: false, shift: false }
    }
}

/// A fatal engine error.  Every variant ends the current run: the engine
/// never retries, skips or self-recovers, and the host must reset or reload
/// the whole state before ticking again.
#[derive(Clone, Copy, Debug, PartialEq, Eq, Structural)]
pub enum ChipError {
    /// The instruction's bytes match no defined opcode.
    BadOperationError(u8, u8),
    /// Return was executed with no matching call on the stack.
    EmptyStackError,
    /// Call nesting exceeds the stack's capacity.
    FullStackError,
    /// A fetch would read past the end of memory.
    ProgramCounterError(u16),
    /// A program image would be written past the end of memory.
    MemoryOverflowError,
}

/// The report line for an engine error, as the host prints it.
pub open spec fn spec_message(e: ChipError) -> Seq<char> {
    match e {
        ChipError::BadOperationError(a, b) => "PROCESSOR ERROR: Bad operation with bytes 0x"@
            + hex2_upper_seq(a) + hex2_upper_seq(b),
        ChipError::EmptyStackError => "PROCESSOR ERROR: Tried to pop off empty stack"@,
        ChipError::FullStackError => "PROCESSOR ERROR: Tried to push onto full stack"@,
        ChipError::ProgramCounterError(pc) => "PROCESSOR ERROR: Program counter out of bounds: 0x"@
            + hex_u16_min2_upper_seq(pc),
        ChipError::MemoryOverflowError => "PROCESSOR ERROR: Memory overflowed"@,
    }
}

impl ChipError {
    /// The report line for this error, for the host to print.
    pub fn message(&self) -> (r: String)
        ensures
            r@ == spec_message(*self),
    {
        match self {
            ChipError::BadOperationError(a, b) => {
                let mut s = "PROCESSOR ERROR: Bad operation with bytes 0x".to_owned();
                push_hex2_upper(&mut s, *a);
                push_hex2_upper(&mut s, *b);
                s
            },
            ChipError::EmptyStackError => "PROCESSOR ERROR: Tried to pop off empty stack"
                .to_owned(),
            ChipError::FullStackError => "PROCESSOR ERROR: Tried to push onto full stack"
                .to_owned(),
            ChipError::ProgramCounterError(pc) => {
                let mut s = "PROCESSOR ERROR: Program counter out of bounds: 0x".to_owned();
                push_hex_u16_min2_upper(&mut s, *pc);
                s
            },
            ChipError::MemoryOverflowError => "PROCESSOR ERROR: Memory overflowed".to_owned(),
        }
    }
}

/// What an executed opcode asks the tick cycle to do with the program
/// counter: advance past the instruction, skip the following one, or jump.
#[derive(Clone, Copy, Debug, PartialEq, Eq, Structural)]
pub enum ProgramCounterControl {
    Next,
    Skip,
    Jump(u16),
}

/// The whole machine state.  The fields are public so that a host can read
/// them for display and debugging; all mutation goes through `load`, `tick`,
/// `frame` and `keypad_press` (plus the host-owned `quirks_mode` toggles).
#[derive(Debug)]
pub struct Chip8 {
    pub memory: Vec<u8>,
    pub registers: Vec<u8>,
    pub stack: Vec<u16>,
    pub frame_buffer: Vec<u8>,
    /// Stack pointer: the number of return addresses currently on the stack.
    pub sp: u8,
    /// Index register.
    pub ir: u16,
    /// Delay timer.
    pub dt: u8,
    /// Sound timer.
    pub st: u8,
    /// Program counter.
    pub pc: u16,
    pub rng: rand_pcg::Lcg64Xsh32,
    pub keypad_waiting: bool,
    pub keypad_reg: u8,
    pub display_changed: bool,
    pub sound_playing: bool,
    pub quirks_mode: QuirksMode,
}

impl Chip8 {
    /// The sizes every operation preserves: each array-backed field has its
    /// fixed length, the stack pointer never passes the stack's capacity,
    /// and the latched key-wait target names a real register.
    pub open spec fn wf(self) -> bool {
        &&& self.memory@.len() == MEMORY_SIZE
        &&& self.registers@.len() == REGISTER_COUNT
        &&& self.stack@.len() == STACK_SIZE
        &&& self.frame_buffer@.len() == SCREEN_WIDTH * SCREEN_HEIGHT / 8
        &&& self.sp <= STACK_SIZE
        &&& self.keypad_reg < REGISTER_COUNT
    }

    /// A fresh machine: zeroed registers, stack, timers and framebuffer, the
    /// font table at the base of memory, and the program counter at the
    /// program-load offset.
    pub fn new(rng: rand_pcg::Lcg64Xsh32) -> (r: Chip8)
        ensures
            r.wf(),
            r.memory@ == font_seq() + Seq::<u8>::new((MEMORY_SIZE - 80) as nat, |i: int| 0u8),
            r.registers@ == Seq::<u8>::new(REGISTER_COUNT as nat, |i: int| 0u8),
            r.stack@ == Seq::<u16>::new(STACK_SIZE as nat, |i: int| 0u16),
            r.frame_buffer@ == Seq::<u8>::new((SCREEN_WIDTH * SCREEN_HEIGHT / 8) as nat, |i: int| 0u8),
            r.sp == 0,
            r.ir == 0,
            r.dt == 0,
            r.st == 0,
            r.pc == MEMORY_OFFSET as u16,
            r.rng == rng,
            !r.keypad_waiting,
            r.keypad_reg == 0,
            !r.display_changed,
            !r.sound_playing,
            r.quirks_mode == (QuirksMode { ldi: false, shift: false }),
    {
        let mut memory = hexes_flat();
        while memory.len() < MEMORY_SIZE
            invariant
                80 <= memory@.len() <= MEMORY_SIZE,
                memory@ == font_seq() + Seq::<u8>::new((memory@.len() - 80) as nat, |i: int| 0u8),
            decreases MEMORY_SIZE - memory@.len(),
        {
            memory.push(0);
            proof {
                assert(memory@ =~= font_seq()
                    + Seq::<u8>::new((memory@.len() - 80) as nat, |i: int| 0u8));
            }
        }

        Chip8 {
            memory,
            registers: filled_bytes(0, REGISTER_COUNT),
            stack: filled_words(0, STACK_SIZE),
            frame_buffer: filled_bytes(0, SCREEN_WIDTH * SCREEN_HEIGHT / 8),
            sp: 0,
            ir: 0,
            dt: 0,
            st: 0,
            pc: MEMORY_OFFSET as u16,
            rng,
            keypad_waiting: false,
            keypad_reg: 0,
            display_changed: false,
            sound_playing: false,
            quirks_mode: QuirksMode { ldi: false, shift: false },
        }
    }

    /// Writes a program image into memory starting at the load offset.  The
    /// load is all-or-nothing: an image that would run past the end of
    /// memory is rejected before any byte is written.
    pub fn load(&mut self, bytes: &Vec<u8>) -> (r: Result<(), ChipError>)
        requires
            old(self).wf(),
        ensures
            final(self).wf(),
            *final(self) == (Chip8 { memory: final(self).memory, ..*old(self) }),
            match r {
                Ok(()) => {
                    &&& bytes@.len() <= MEMORY_SIZE - MEMORY_OFFSET
                    &&& forall|k: int|
                        #![trigger final(self).memory@[k]]
                        0 <= k < MEMORY_SIZE ==> final(self).memory@[k] == (
                        if MEMORY_OFFSET <= k < MEMORY_OFFSET + bytes@.len() {
                            bytes@[k - MEMORY_OFFSET]
                        } else {
                            old(self).memory@[k]
                        })
                },
                Err(e) => {
                    &&& e == ChipError::MemoryOverflowError
                    &&& bytes@.len() > MEMORY_SIZE - MEMORY_OFFSET
                    &&& *final(self) == *old(self)
                },
            },
    {
        if bytes.len() > MEMORY_SIZE - MEMORY_OFFSET {
            return Err(ChipError::MemoryOverflowError);
        }
        let mut i: usize = 0;
        while i < bytes.len()
            invariant
                self.wf(),
                i <= bytes@.len(),
                bytes@.len() <= MEMORY_SIZE - MEMORY_OFFSET,
                *self == (Chip8 { memory: self.memory, ..*old(self) }),
                forall|k: int|
                    #![trigger self.memory@[k]]
                    0 <= k < MEMORY_SIZE ==> self.memory@[k] == (
                    if MEMORY_OFFSET <= k < MEMORY_OFFSET + i {
                        bytes@[k - MEMORY_OFFSET]
                    } else {
                        old(self).memory@[k]
                    }),
            decreases bytes@.len() - i,
        {
            self.memory[MEMORY_OFFSET + i] = bytes[i];
            i = i + 1;
        }
        Ok(())
    }

    /// Clears the display: every framebuffer byte becomes zero.
    fn op_cls(&mut self) -> (r: ProgramCounterControl)
        requires
            old(self).wf(),
        ensures
            final(self).wf(),
            r == ProgramCounterControl::Next,
            *final(self) == (Chip8 { frame_buffer: final(self).frame_buffer, ..*old(self) }),
            final(self).frame_buffer@ == zero_fb(),
    {
        let mut i: usize = 0;
        while i < self.frame_buffer.len()
            invariant
                self.wf(),
                i <= self.frame_buffer@.len(),
                *self == (Chip8 { frame_buffer: self.frame_buffer, ..*old(self) }),
                forall|k: int| 0 <= k < i ==> self.frame_buffer@[k] == 0u8,
            decreases self.frame_buffer@.len() - i,
        {
            self.frame_buffer[i] = 0;
            i = i + 1;
        }
        proof {
            assert(self.frame_buffer@ =~= zero_fb());
        }
        ProgramCounterControl::Next
    }

    /// Return from subroutine: jump to the popped address.
    fn op_ret(&mut self) -> (r: Result<ProgramCounterControl, ChipError>)
        requires
            old(self).wf(),
        ensures
            final(self).wf(),
            match r {
                Ok(c) => {
                    &&& old(self).sp > 0
                    &&& c == ProgramCounterControl::Jump(old(self).stack@[old(self).sp - 1])
                    &&& final(self).sp == old(self).sp - 1
                    &&& *final(self) == (Chip8 { sp: final(self).sp, ..*old(self) })
                },
                Err(e) => {
                    &&& e == ChipError::EmptyStackError
                    &&& old(self).sp == 0
                    &&& *final(self) == *old(self)
                },
            },
    {
        let new_addr = self.stack_pop()?;
        Ok(ProgramCounterControl::Jump(new_addr))
    }

    /// Jump to an address.
    fn op_jp(&mut self, addr: u16) -> (r: ProgramCounterControl)
        ensures
            *final(self) == *old(self),
            r == ProgramCounterControl::Jump(addr),
    {
        ProgramCounterControl::Jump(addr)
    }

    /// Call subroutine: push the return address, then jump.
    fn op_call(&mut self, addr: u16) -> (r: Result<ProgramCounterControl, ChipError>)
        requires
            old(self).wf(),
            old(self).pc + INSTRUCTION_SIZE <= u16::MAX,
        ensures
            final(self).wf(),
            match r {
                Ok(c) => {
                    &&& old(self).sp < STACK_SIZE
                    &&& c == ProgramCounterControl::Jump(addr)
                    &&& final(self).sp == old(self).sp + 1
                    &&& final(self).stack@ == old(self).stack@.update(
                        old(self).sp as int,
                        (old(self).pc + INSTRUCTION_SIZE) as u16,
                    )
                    &&& *final(self) == (Chip8 {
                        sp: final(self).sp,
                        stack: final(self).stack,
                        ..*old(self)
                    })
                },
                Err(e) => {
                    &&& e == ChipError::FullStackError
                    &&& old(self).sp == STACK_SIZE
                    &&& *final(self) == *old(self)
                },
            },
    {
        self.stack_push(self.pc + INSTRUCTION_SIZE)?;
        Ok(ProgramCounterControl::Jump(addr))
    }

    /// Skip the next instruction if `Vx` equals the immediate.
    fn op_se(&mut self, reg: u8, val: u8) -> (r: ProgramCounterControl)
        requires
            old(self).wf(),
            reg < 16,
        ensures
            *final(self) == *old(self),
            r == (if old(self).registers@[reg as int] == val {
                ProgramCounterControl::Skip
            } else {
                ProgramCounterControl::Next
            }),
    {
        if self.registers[reg as usize] == val {
            ProgramCounterControl::Skip
        } else {
            ProgramCounterControl::Next
        }
    }

    /// Skip the next instruction if `Vx` differs from the immediate.
    fn op_sne(&mut self, reg: u8, val: u8) -> (r: ProgramCounterControl)
        requires
            old(self).wf(),
            reg < 16,
        ensures
            *final(self) == *old(self),
            r == (if old(self).registers@[reg as int] != val {
                ProgramCounterControl::Skip
            } else {
                ProgramCounterControl::Next
            }),
    {
        if self.registers[reg as usize] != val {
            ProgramCounterControl::Skip
        } else {
            ProgramCounterControl::Next
        }
    }

    /// Skip the next instruction if `Vx` equals `Vy`.
    fn op_se_reg(&mut self, reg1: u8, reg2: u8) -> (r: ProgramCounterControl)
        requires
            old(self).wf(),
            reg1 < 16,
            reg2 < 16,
        ensures
            *final(self) == *old(self),
            r == (if old(self).registers@[reg1 as int] == old(self).registers@[reg2 as int] {
                ProgramCounterControl::Skip
            } else {
                ProgramCounterControl::Next
            }),
    {
        if self.registers[reg1 as usize] == self.registers[reg2 as usize] {
            ProgramCounterControl::Skip
        } else {
            ProgramCounterControl::Next
        }
    }

    /// Load the immediate into `Vx`.
    fn op_ld(&mut self, reg: u8, val: u8) -> (r: ProgramCounterControl)
        requires
            old(self).wf(),
            reg < 16,
        ensures
            final(self).wf(),
            r == ProgramCounterControl::Next,
            *final(self) == (Chip8 { registers: final(self).registers, ..*old(self) }),
            final(self).registers@ == old(self).registers@.update(reg as int, val),
    {
        self.registers[reg as usize] = val;
        ProgramCounterControl::Next
    }

    /// Add the immediate into `Vx`, wrapping modulo 256; no flag is set.
    fn op_add(&mut self, reg: u8, val: u8) -> (r: ProgramCounterControl)
        requires
            old(self).wf(),
            reg < 16,
        ensures
            final(self).wf(),
            r == ProgramCounterControl::Next,
            *final(self) == (Chip8 { registers: final(self).registers, ..*old(self) }),
            final(self).registers@ == old(self).registers@.update(
                reg as int,
                ((old(self).registers@[reg as int] + val) % 256) as u8,
            ),
    {
        let cur = self.registers[reg as usize];
        self.registers[reg as usize] = cur.wrapping_add(val);
        ProgramCounterControl::Next
    }

    /// Copy `Vy` into `Vx`.
    fn op_ld_reg(&mut self, reg1: u8, reg2: u8) -> (r: ProgramCounterControl)
        requires
            old(self).wf(),
            reg1 < 16,
            reg2 < 16,
        ensures
            final(self).wf(),
            r == ProgramCounterControl::Next,
            *final(self) == (Chip8 { registers: final(self).registers, ..*old(self) }),
            final(self).registers@ == old(self).registers@.update(
                reg1 as int,
                old(self).registers@[reg2 as int],
            ),
    {
        self.registers[reg1 as usize] = self.registers[reg2 as usize];
        ProgramCounterControl::Next
    }

    /// Bitwise-or `Vy` into `Vx`.
    fn op_or(&mut self, reg1: u8, reg2: u8) -> (r: ProgramCounterControl)
        requires
            old(self).wf(),
            reg1 < 16,
            reg2 < 16,
        ensures
            final(self).wf(),
            r == ProgramCounterControl::Next,
            *final(self) == (Chip8 { registers: final(self).registers, ..*old(self) }),
            final(self).registers@ == old(self).registers@.update(
                reg1 as int,
                old(self).registers@[reg1 as int] | old(self).registers@[reg2 as int],
            ),
    {
        let v = self.registers[reg1 as usize] | self.registers[reg2 as usize];
        self.registers[reg1 as usize] = v;
        ProgramCounterControl::Next
    }

    /// Bitwise-and `Vy` into `Vx`.
    fn op_and(&mut self, reg1: u8, reg2: u8) -> (r: ProgramCounterControl)
        requires
            old(self).wf(),
            reg1 < 16,
            reg2 < 16,
        ensures
            final(self).wf(),
            r == ProgramCounterControl::Next,
            *final(self) == (Chip8 { registers: final(self).registers, ..*old(self) }),
            final(self).registers@ == old(self).registers@.update(
                reg1 as int,
                old(self).registers@[reg1 as int] & old(self).registers@[reg2 as int],
            ),
    {
        let v = self.registers[reg1 as usize] & self.registers[reg2 as usize];
        self.registers[reg1 as usize] = v;
        ProgramCounterControl::Next
    }

    /// Bitwise-xor `Vy` into `Vx`.
    fn op_xor(&mut self, reg1: u8, reg2: u8) -> (r: ProgramCounterControl)
        requires
            old(self).wf(),
            reg1 < 16,
            reg2 < 16,
        ensures
            final(self).wf(),
            r == ProgramCounterControl::Next,
            *final(self) == (Chip8 { registers: final(self).registers, ..*old(self) }),
            final(self).registers@ == old(self).registers@.update(
                reg1 as int,
                old(self).registers@[reg1 as int] ^ old(self).registers@[reg2 as int],
            ),
    {
        let v = self.registers[reg1 as usize] ^ self.registers[reg2 as usize];
        self.registers[reg1 as usize] = v;
        ProgramCounterControl::Next
    }

    /// Add `Vy` into `Vx`, wrapping modulo 256.  `VF` becomes 1 exactly when
    /// the true mathematical sum is at least 256, else 0.
    fn op_add_reg(&mut self, reg1: u8, reg2: u8) -> (r: ProgramCounterControl)
        requires
            old(self).wf(),
            reg1 < 16,
            reg2 < 16,
        ensures
            final(self).wf(),
            r == ProgramCounterControl::Next,
            *final(self) == (Chip8 { registers: final(self).registers, ..*old(self) }),
            final(self).registers@ == old(self).registers@.update(
                reg1 as int,
                ((old(self).registers@[reg1 as int] + old(self).registers@[reg2 as int])
                    % 256) as u8,
            ).update(
                REG_VF as int,
                if old(self).registers@[reg1 as int] + old(self).registers@[reg2 as int]
                    >= 256 {
                    1u8
                } else {
                    0u8
                },
            ),
    {
        let val1 = self.registers[reg1 as usize];
        let val2 = self.registers[reg2 as usize];
        let sum = val1 as u16 + val2 as u16;
        self.registers[reg1 as usize] = (sum % 256) as u8;
        self.registers[REG_VF] = if sum >= 256 {
            1
        } else {
            0
        };
        ProgramCounterControl::Next
    }

    /// Subtract `Vy` from `Vx`, wrapping modulo 256.  `VF` becomes 1 exactly
    /// when no borrow occurred, that is when `Vx >= Vy` before the subtract.
    fn op_sub_reg(&mut self, reg1: u8, reg2: u8) -> (r: ProgramCounterControl)
        requires
            old(self).wf(),
            reg1 < 16,
            reg2 < 16,
        ensures
            final(self).wf(),
            r == ProgramCounterControl::Next,
            *final(self) == (Chip8 { registers: final(self).registers, ..*old(self) }),
            final(self).registers@ == old(self).registers@.update(
                reg1 as int,
                sub_wrapped(
                    old(self).registers@[reg1 as int],
                    old(self).registers@[reg2 as int],
                ),
            ).update(
                REG_VF as int,
                if old(self).registers@[reg1 as int] >= old(self).registers@[reg2 as int] {
                    1u8
                } else {
                    0u8
                },
            ),
    {
        let val1 = self.registers[reg1 as usize];
        let val2 = self.registers[reg2 as usize];
        self.registers[reg1 as usize] = val1.wrapping_sub(val2);
        self.registers[REG_VF] = if val1 >= val2 {
            1
        } else {
            0
        };
        ProgramCounterControl::Next
    }

    /// Shift right by one.  The source is `Vx`, or `Vy` under the shift
    /// quirk; the result lands in `Vx` and `VF` becomes the bit shifted out.
    fn op_shr(&mut self, reg1: u8, reg2: u8) -> (r: ProgramCounterControl)
        requires
            old(self).wf(),
            reg1 < 16,
            reg2 < 16,
        ensures
            final(self).wf(),
            r == ProgramCounterControl::Next,
            *final(self) == (Chip8 { registers: final(self).registers, ..*old(self) }),
            final(self).registers@ == old(self).registers@.update(
                reg1 as int,
                shift_source(*old(self), reg1, reg2) >> 1u8,
            ).update(REG_VF as int, shift_source(*old(self), reg1, reg2) & 1),
    {
        let val = if self.quirks_mode.shift {
            self.registers[reg2 as usize]
        } else {
            self.registers[reg1 as usize]
        };
        self.registers[reg1 as usize] = val >> 1u8;
        self.registers[REG_VF] = val & 1;
        ProgramCounterControl::Next
    }

    /// Store `Vy - Vx` into `Vx`, wrapping modulo 256.  `VF` becomes 1
    /// exactly when no borrow occurred, that is when `Vy >= Vx`.
    fn op_subn_reg(&mut self, reg1: u8, reg2: u8) -> (r: ProgramCounterControl)
        requires
            old(self).wf(),
            reg1 < 16,
            reg2 < 16,
        ensures
            final(self).wf(),
            r == ProgramCounterControl::Next,
            *final(self) == (Chip8 { registers: final(self).registers, ..*old(self) }),
            final(self).registers@ == old(self).registers@.update(
                reg1 as int,
                sub_wrapped(
                    old(self).registers@[reg2 as int],
                    old(self).registers@[reg1 as int],
                ),
            ).update(
                REG_VF as int,
                if old(self).registers@[reg2 as int] >= old(self).registers@[reg1 as int] {
                    1u8
                } else {
                    0u8
                },
            ),
    {
        let val1 = self.registers[reg1 as usize];
        let val2 = self.registers[reg2 as usize];
        self.registers[reg1 as usize] = val2.wrapping_sub(val1);
        self.registers[REG_VF] = if val2 >= val1 {
            1
        } else {
            0
        };
        ProgramCounterControl::Next
    }

    /// Shift left by one, truncating to 8 bits.  The source is `Vx`, or `Vy`
    /// under the shift quirk; the result lands in `Vx` and `VF` becomes the
    /// bit shifted out (bit 7 of the source).
    fn op_shl(&mut self, reg1: u8, reg2: u8) -> (r: ProgramCounterControl)
        requires
            old(self).wf(),
            reg1 < 16,
            reg2 < 16,
        ensures
            final(self).wf(),
            r == ProgramCounterControl::Next,
            *final(self) == (Chip8 { registers: final(self).registers, ..*old(self) }),
            final(self).registers@ == old(self).registers@.update(
                reg1 as int,
                ((shift_source(*old(self), reg1, reg2) * 2) % 256) as u8,
            ).update(REG_VF as int, (shift_source(*old(self), reg1, reg2) >> 7u8) & 1),
    {
        let val = if self.quirks_mode.shift {
            self.registers[reg2 as usize]
        } else {
            self.registers[reg1 as usize]
        };
        self.registers[reg1 as usize] = val.wrapping_mul(2);
        proof {
            assert(val.wrapping_mul(2) == ((val * 2) % 256) as u8) by (bit_vector);
        }
        self.registers[REG_VF] = (val >> 7u8) & 1;
        ProgramCounterControl::Next
    }

    /// Skip the next instruction if `Vx` differs from `Vy`.
    fn op_sne_reg(&mut self, reg1: u8, reg2: u8) -> (r: ProgramCounterControl)
        requires
            old(self).wf(),
            reg1 < 16,
            reg2 < 16,
        ensures
            *final(self) == *old(self),
            r == (if old(self).registers@[reg1 as int] != old(self).registers@[reg2 as int] {
                ProgramCounterControl::Skip
            } else {
                ProgramCounterControl::Next
            }),
    {
        if self.registers[reg1 as usize] != self.registers[reg2 as usize] {
            ProgramCounterControl::Skip
        } else {
            ProgramCounterControl::Next
        }
    }

    /// Load an address into the index register.
    fn op_ld_i(&mut self, val: u16) -> (r: ProgramCounterControl)
        ensures
            r == ProgramCounterControl::Next,
            *final(self) == (Chip8 { ir: val, ..*old(self) }),
    {
        self.ir = val;
        ProgramCounterControl::Next
    }

    /// Jump to `V0 + addr`.
    fn op_jp_v0(&mut self, addr: u16) -> (r: ProgramCounterControl)
        requires
            old(self).wf(),
            addr < 0x1000,
        ensures
            *final(self) == *old(self),
            r == ProgramCounterControl::Jump(
                (old(self).registers@[REG_V0 as int] + addr) as u16,
            ),
    {
        ProgramCounterControl::Jump(self.registers[REG_V0] as u16 + addr)
    }

    /// Store a random byte masked by the immediate into `Vx`.  Every bit of
    /// the result outside the mask is clear; nothing else is promised of the
    /// value, which comes from the injected generator.
    fn op_rnd(&mut self, reg: u8, val: u8) -> (r: ProgramCounterControl)
        requires
            old(self).wf(),
            reg < 16,
        ensures
            final(self).wf(),
            r == ProgramCounterControl::Next,
            *final(self) == (Chip8 {
                registers: final(self).registers,
                rng: final(self).rng,
                ..*old(self)
            }),
            final(self).registers@ == old(self).registers@.update(
                reg as int,
                final(self).registers@[reg as int],
            ),
            final(self).registers@[reg as int] & !val == 0,
    {
        let b = next_random_byte(&mut self.rng);
        let masked = b & val;
        proof {
            assert((b & val) & !val == 0) by (bit_vector);
        }
        self.registers[reg as usize] = masked;
        ProgramCounterControl::Next
    }

    /// Skip the next instruction if the key named by `Vx` is held down in
    /// the supplied bitmask.  A register value outside `0..=0xF` names no
    /// key and never counts as held.
    fn op_skp(&mut self, reg: u8, key_input: u16) -> (r: ProgramCounterControl)
        requires
            old(self).wf(),
            reg < 16,
        ensures
            *final(self) == *old(self),
            r == (if key_down(key_input, old(self).registers@[reg as int]) {
                ProgramCounterControl::Skip
            } else {
                ProgramCounterControl::Next
            }),
    {
        let val = self.registers[reg as usize];
        let held = val < 16 && (key_input & (1u16 << (val as u16))) > 0;
        proof {
            assert(val < 16 ==> ((key_input & (1u16 << (val as u16))) > 0
                <==> (key_input >> (val as u16)) & 1 == 1)) by (bit_vector);
        }
        if held {
            ProgramCounterControl::Skip
        } else {
            ProgramCounterControl::Next
        }
    }

    /// Skip the next instruction if the key named by `Vx` is not held down.
    fn op_sknp(&mut self, reg: u8, key_input: u16) -> (r: ProgramCounterControl)
        requires
            old(self).wf(),
            reg < 16,
        ensures
            *final(self) == *old(self),
            r == (if !key_down(key_input, old(self).registers@[reg as int]) {
                ProgramCounterControl::Skip
            } else {
                ProgramCounterControl::Next
            }),
    {
        let val = self.registers[reg as usize];
        let held = val < 16 && (key_input & (1u16 << (val as u16))) > 0;
        proof {
            assert(val < 16 ==> ((key_input & (1u16 << (val as u16))) > 0
                <==> (key_input >> (val as u16)) & 1 == 1)) by (bit_vector);
        }
        if !held {
            ProgramCounterControl::Skip
        } else {
            ProgramCounterControl::Next
        }
    }

    /// Copy the delay timer into `Vx`.
    fn op_ld_vx_dt(&mut self, reg: u8) -> (r: ProgramCounterControl)
        requires
            old(self).wf(),
            reg < 16,
        ensures
            final(self).wf(),
            r == ProgramCounterControl::Next,
            *final(self) == (Chip8 { registers: final(self).registers, ..*old(self) }),
            final(self).registers@ == old(self).registers@.update(
                reg as int,
                old(self).dt,
            ),
    {
        self.registers[reg as usize] = self.dt;
        ProgramCounterControl::Next
    }

    /// Latch a blocking key wait targeting `Vx`.  The program counter still
    /// advances each tick; the wait is resolved by `keypad_press`.
    fn op_key_wait(&mut self, reg: u8) -> (r: ProgramCounterControl)
        requires
            old(self).wf(),
            reg < 16,
        ensures
            final(self).wf(),
            r == ProgramCounterControl::Next,
            *final(self) == (Chip8 {
                keypad_waiting: true,
                keypad_reg: reg,
                ..*old(self)
            }),
    {
        self.keypad_waiting = true;
        self.keypad_reg = reg;
        ProgramCounterControl::Next
    }

    /// Copy `Vx` into the delay timer.
    fn op_ld_dt_vx(&mut self, reg: u8) -> (r: ProgramCounterControl)
        requires
            old(self).wf(),
            reg < 16,
        ensures
            final(self).wf(),
            r == ProgramCounterControl::Next,
            *final(self) == (Chip8 {
                dt: old(self).registers@[reg as int],
                ..*old(self)
            }),
    {
        self.dt = self.registers[reg as usize];
        ProgramCounterControl::Next
    }

    /// Copy `Vx` into the sound timer.
    fn op_ld_st_vx(&mut self, reg: u8) -> (r: ProgramCounterControl)
        requires
            old(self).wf(),
            reg < 16,
        ensures
            final(self).wf(),
            r == ProgramCounterControl::Next,
            *final(self) == (Chip8 {
                st: old(self).registers@[reg as int],
                ..*old(self)
            }),
    {
        self.st = self.registers[reg as usize];
        ProgramCounterControl::Next
    }

    /// Add `Vx` into the index register, wrapping modulo 2^16.
    fn op_add_i_vx(&mut self, reg: u8) -> (r: ProgramCounterControl)
        requires
            old(self).wf(),
            reg < 16,
        ensures
            final(self).wf(),
            r == ProgramCounterControl::Next,
            *final(self) == (Chip8 {
                ir: ((old(self).ir + old(self).registers@[reg as int]) % 0x10000) as u16,
                ..*old(self)
            }),
    {
        self.ir = self.ir.wrapping_add(self.registers[reg as usize] as u16);
        ProgramCounterControl::Next
    }

    /// Point the index register at the font glyph for the low nibble of
    /// `Vx`: 5 bytes per glyph from the base of memory.
    fn op_ld_f_vx(&mut self, reg: u8) -> (r: ProgramCounterControl)
        requires
            old(self).wf(),
            reg < 16,
        ensures
            final(self).wf(),
            r == ProgramCounterControl::Next,
            *final(self) == (Chip8 {
                ir: ((old(self).registers@[reg as int] & 0xF) * 5) as u16,
                ..*old(self)
            }),
    {
        let digit = self.registers[reg as usize];
        let low = digit & 0xF;
        proof {
            assert(digit & 0xF < 16) by (bit_vector);
        }
        self.ir = (low * 5) as u16;
        ProgramCounterControl::Next
    }

    /// Store the decimal digits of `Vx` (hundreds, tens, ones) into the
    /// three memory cells starting at the index register; addresses taken
    /// through the index register wrap around the end of memory.
    fn op_ld_b_vx(&mut self, reg: u8) -> (r: ProgramCounterControl)
        requires
            old(self).wf(),
            reg < 16,
        ensures
            final(self).wf(),
            r == ProgramCounterControl::Next,
            *final(self) == (Chip8 { memory: final(self).memory, ..*old(self) }),
            final(self).memory@ == old(self).memory@
                .update(
                    old(self).ir as int % MEMORY_SIZE as int,
                    ((old(self).registers@[reg as int] / 100) % 10) as u8,
                )
                .update(
                    (old(self).ir + 1) as int % MEMORY_SIZE as int,
                    ((old(self).registers@[reg as int] / 10) % 10) as u8,
                )
                .update(
                    (old(self).ir + 2) as int % MEMORY_SIZE as int,
                    (old(self).registers@[reg as int] % 10) as u8,
                ),
    {
        let val = self.registers[reg as usize];
        let base = self.ir as usize;
        self.memory[base % MEMORY_SIZE] = (val / 100) % 10;
        self.memory[(base + 1) % MEMORY_SIZE] = (val / 10) % 10;
        self.memory[(base + 2) % MEMORY_SIZE] = val % 10;
        ProgramCounterControl::Next
    }

    /// Store registers `V0..=Vx` into memory starting at the index
    /// register; addresses wrap around the end of memory.  Under the index
    /// quirk the index register then advances past the bytes written.
    fn op_ld_i_vx(&mut self, reg: u8) -> (r: ProgramCounterControl)
        requires
            old(self).wf(),
            reg < 16,
        ensures
            final(self).wf(),
            r == ProgramCounterControl::Next,
            *final(self) == (Chip8 {
                memory: final(self).memory,
                ir: final(self).ir,
                ..*old(self)
            }),
            final(self).ir == block_final_ir(*old(self), reg),
            final(self).memory@.len() == MEMORY_SIZE,
            forall|k: int|
                #![trigger final(self).memory@[k]]
                0 <= k < MEMORY_SIZE ==> final(self).memory@[k] == (
                if (k - old(self).ir) % (MEMORY_SIZE as int) <= reg {
                    old(self).registers@[(k - old(self).ir) % (MEMORY_SIZE as int)]
                } else {
                    old(self).memory@[k]
                }),
    {
        let mut ind: usize = 0;
        while ind <= reg as usize
            invariant
                self.wf(),
                reg < 16,
                ind <= reg + 1,
                *self == (Chip8 { memory: self.memory, ..*old(self) }),
                forall|k: int|
                    #![trigger self.memory@[k]]
                    0 <= k < MEMORY_SIZE ==> self.memory@[k] == (
                    if (k - old(self).ir) % (MEMORY_SIZE as int) < ind {
                        old(self).registers@[(k - old(self).ir) % (MEMORY_SIZE as int)]
                    } else {
                        old(self).memory@[k]
                    }),
            decreases reg as int + 1 - ind,
        {
            let addr = (self.ir as usize + ind) % MEMORY_SIZE;
            self.memory[addr] = self.registers[ind];
            proof {
                assert forall|k: int| 0 <= k < MEMORY_SIZE implies #[trigger] self.memory@[k] == (
                    if (k - old(self).ir) % (MEMORY_SIZE as int) < ind + 1 {
                        old(self).registers@[(k - old(self).ir) % (MEMORY_SIZE as int)]
                    } else {
                        old(self).memory@[k]
                    }) by {
                    vstd::arithmetic::div_mod::lemma_mod_bound(
                        k - old(self).ir,
                        MEMORY_SIZE as int,
                    );
                    lemma_wrap_offset(old(self).ir as int, k, ind as int, MEMORY_SIZE as int);
                }
            }
            ind = ind + 1;
        }
        if self.quirks_mode.ldi {
            self.ir = self.ir.wrapping_add(reg as u16 + 1);
        }
        ProgramCounterControl::Next
    }

    /// Load registers `V0..=Vx` from memory starting at the index register;
    /// addresses wrap around the end of memory.  Under the index quirk the
    /// index register then advances past the bytes read.
    fn op_ld_vx_i(&mut self, reg: u8) -> (r: ProgramCounterControl)
        requires
            old(self).wf(),
            reg < 16,
        ensures
            final(self).wf(),
            r == ProgramCounterControl::Next,
            *final(self) == (Chip8 {
                registers: final(self).registers,
                ir: final(self).ir,
                ..*old(self)
            }),
            final(self).ir == block_final_ir(*old(self), reg),
            final(self).registers@.len() == REGISTER_COUNT,
            forall|j: int|
                #![trigger final(self).registers@[j]]
                0 <= j < REGISTER_COUNT ==> final(self).registers@[j] == (
                if j <= reg {
                    old(self).memory@[(old(self).ir + j) % (MEMORY_SIZE as int)]
                } else {
                    old(self).registers@[j]
                }),
    {
        let mut ind: usize = 0;
        while ind <= reg as usize
            invariant
                self.wf(),
                reg < 16,
                ind <= reg + 1,
                *self == (Chip8 { registers: self.registers, ..*old(self) }),
                forall|j: int|
                    #![trigger self.registers@[j]]
                    0 <= j < REGISTER_COUNT ==> self.registers@[j] == (
                    if j < ind {
                        old(self).memory@[(old(self).ir + j) % (MEMORY_SIZE as int)]
                    } else {
                        old(self).registers@[j]
                    }),
            decreases reg as int + 1 - ind,
        {
            let addr = (self.ir as usize + ind) % MEMORY_SIZE;
            self.registers[ind] = self.memory[addr];
            ind = ind + 1;
        }
        if self.quirks_mode.ldi {
            self.ir = self.ir.wrapping_add(reg as u16 + 1);
        }
        ProgramCounterControl::Next
    }

    /// Draw an `n`-row sprite read from memory at the index register to the
    /// wrapped position named by `Vx`,`Vy`: each set sprite bit XORs its
    /// pixel, coordinates wrapping toroidally.  `VF` reports whether any
    /// pixel was turned off (collision) and the display is marked changed.
    fn op_drw(&mut self, regx: u8, regy: u8, byte_count: u8) -> (r: ProgramCounterControl)
        requires
            old(self).wf(),
            regx < 16,
            regy < 16,
            byte_count < 16,
        ensures
            final(self).wf(),
            r == ProgramCounterControl::Next,
            *final(self) == (Chip8 {
                frame_buffer: final(self).frame_buffer,
                registers: final(self).registers,
                display_changed: true,
                ..*old(self)
            }),
            draw_rel(
                old(self).frame_buffer@,
                final(self).frame_buffer@,
                old(self).memory@,
                old(self).ir,
                byte_count,
                old(self).registers@[regx as int],
                old(self).registers@[regy as int],
            ),
            final(self).registers@ == old(self).registers@.update(
                REG_VF as int,
                if draw_collision(
                    old(self).frame_buffer@,
                    old(self).memory@,
                    old(self).ir,
                    byte_count,
                    old(self).registers@[regx as int],
                    old(self).registers@[regy as int],
                ) {
                    1u8
                } else {
                    0u8
                },
            ),
    {
        let xpos = self.registers[regx as usize];
        let ypos = self.registers[regy as usize];
        let ghost fb0 = self.frame_buffer@;
        let ghost mem0 = self.memory@;
        let ghost ir0 = self.ir;
        let mut overlap = false;

        let mut byte: usize = 0;
        while byte < byte_count as usize
            invariant
                self.wf(),
                byte <= byte_count,
                byte_count < 16,
                regx < 16,
                regy < 16,
                xpos == old(self).registers@[regx as int],
                ypos == old(self).registers@[regy as int],
                fb0 == old(self).frame_buffer@,
                mem0 == old(self).memory@,
                ir0 == old(self).ir,
                *self == (Chip8 { frame_buffer: self.frame_buffer, ..*old(self) }),
                self.frame_buffer@.len() == SCREEN_WIDTH * SCREEN_HEIGHT / 8,
                forall|px: int, py: int|
                    0 <= px < SCREEN_WIDTH && 0 <= py < SCREEN_HEIGHT ==> #[trigger] pixel(
                        self.frame_buffer@,
                        px,
                        py,
                    ) == (pixel(fb0, px, py) != covers_upto(
                        mem0,
                        ir0,
                        xpos,
                        ypos,
                        byte as int,
                        0,
                        px,
                        py,
                    )),
                overlap == exists|px: int, py: int|
                    0 <= px < SCREEN_WIDTH && 0 <= py < SCREEN_HEIGHT && #[trigger] covers_upto(
                        mem0,
                        ir0,
                        xpos,
                        ypos,
                        byte as int,
                        0,
                        px,
                        py,
                    ) && pixel(fb0, px, py),
            decreases byte_count as int - byte,
        {
            let memory_byte = self.memory[(self.ir as usize + byte) % MEMORY_SIZE];
            let cur_y = (ypos as usize + byte) % SCREEN_HEIGHT;

            let mut bit: usize = 0;
            while bit < 8
                invariant
                    self.wf(),
                    bit <= 8,
                    byte < byte_count,
                    byte_count < 16,
                    regx < 16,
                    regy < 16,
                    xpos == old(self).registers@[regx as int],
                    ypos == old(self).registers@[regy as int],
                    fb0 == old(self).frame_buffer@,
                    mem0 == old(self).memory@,
                    ir0 == old(self).ir,
                    cur_y == (ypos + byte) % (SCREEN_HEIGHT as int),
                    0 <= cur_y < SCREEN_HEIGHT,
                    memory_byte == mem0[(ir0 + byte) % (MEMORY_SIZE as int)],
                    *self == (Chip8 { frame_buffer: self.frame_buffer, ..*old(self) }),
                    self.frame_buffer@.len() == SCREEN_WIDTH * SCREEN_HEIGHT / 8,
                    forall|px: int, py: int|
                        0 <= px < SCREEN_WIDTH && 0 <= py < SCREEN_HEIGHT ==> #[trigger] pixel(
                            self.frame_buffer@,
                            px,
                            py,
                        ) == (pixel(fb0, px, py) != covers_upto(
                            mem0,
                            ir0,
                            xpos,
                            ypos,
                            byte as int,
                            bit as int,
                            px,
                            py,
                        )),
                    overlap == exists|px: int, py: int|
                        0 <= px < SCREEN_WIDTH && 0 <= py < SCREEN_HEIGHT
                            && #[trigger] covers_upto(
                            mem0,
                            ir0,
                            xpos,
                            ypos,
                            byte as int,
                            bit as int,
                            px,
                            py,
                        ) && pixel(fb0, px, py),
                decreases 8 - bit,
            {
                let sh: u8 = (7 - bit) as u8;
                let ghost p_x = (xpos as int + bit) % (SCREEN_WIDTH as int);
                let ghost p_y = cur_y as int;
                proof {
                    lemma_and_bit(memory_byte, sh);
                    vstd::arithmetic::div_mod::lemma_mod_bound(
                        xpos as int + bit,
                        SCREEN_WIDTH as int,
                    );
                    lemma_wrap_offset(xpos as int, p_x, bit as int, SCREEN_WIDTH as int);
                    lemma_wrap_offset(ypos as int, p_y, byte as int, SCREEN_HEIGHT as int);
                }
                if (memory_byte & (1u8 << sh)) > 0 {
                    let cur_x = (xpos as usize + bit) % SCREEN_WIDTH;
                    let display_byte_index = (cur_y * SCREEN_WIDTH + cur_x) / 8;
                    proof {
                        lemma_fb_index(cur_x as int, cur_y as int);
                    }
                    let display_byte = self.frame_buffer[display_byte_index];
                    let display_bit_index = 7 - (cur_x % 8);
                    let display_mask: u8 = 1u8 << (display_bit_index as u8);
                    let ghost fbc = self.frame_buffer@;
                    if (display_byte & display_mask) > 0 {
                        overlap = true;
                    }
                    self.frame_buffer[display_byte_index] = display_byte ^ display_mask;
                    proof {
                        lemma_and_bit(display_byte, (7 - cur_x % 8) as u8);
                        // The checked framebuffer bit is this sprite bit's pixel,
                        // untouched so far in this draw.
                        assert(pixel(fbc, p_x, p_y) == ((display_byte >> ((7 - p_x % 8) as u8))
                            & 1 == 1));
                        assert(!covers_upto(mem0, ir0, xpos, ypos, byte as int, bit as int, p_x,
                            p_y));
                        assert(pixel(fbc, p_x, p_y) == pixel(fb0, p_x, p_y));
                        assert(covers_upto(mem0, ir0, xpos, ypos, byte as int, bit as int + 1, p_x,
                            p_y));
                        let fbn = self.frame_buffer@;
                        assert forall|qx: int, qy: int|
                            0 <= qx < SCREEN_WIDTH && 0 <= qy < SCREEN_HEIGHT implies #[trigger]
                            pixel(fbn, qx, qy) == (pixel(fb0, qx, qy) != covers_upto(
                            mem0,
                            ir0,
                            xpos,
                            ypos,
                            byte as int,
                            bit as int + 1,
                            qx,
                            qy,
                        )) by {
                            lemma_fb_index(qx, qy);
                            vstd::arithmetic::div_mod::lemma_mod_bound(
                                qx - xpos,
                                SCREEN_WIDTH as int,
                            );
                            vstd::arithmetic::div_mod::lemma_mod_bound(
                                qy - ypos,
                                SCREEN_HEIGHT as int,
                            );
                            lemma_wrap_offset(xpos as int, qx, bit as int, SCREEN_WIDTH as int);
                            lemma_wrap_offset(ypos as int, qy, byte as int, SCREEN_HEIGHT as int);
                            assert(pixel(fbc, qx, qy) == (pixel(fb0, qx, qy) != covers_upto(
                                mem0,
                                ir0,
                                xpos,
                                ypos,
                                byte as int,
                                bit as int,
                                qx,
                                qy,
                            )));
                            if qy * 8 + qx / 8 == display_byte_index {
                                lemma_xor_bit(
                                    display_byte,
                                    (7 - cur_x % 8) as u8,
                                    (7 - qx % 8) as u8,
                                );
                                if qx % 8 == cur_x % 8 {
                                    lemma_fb_index_unique(p_x, p_y, qx, qy);
                                }
                            }
                        }
                        // The collision flag gains exactly this pixel's old state.
                        if overlap {
                            if pixel(fbc, p_x, p_y) {
                                assert(covers_upto(mem0, ir0, xpos, ypos, byte as int,
                                    bit as int + 1, p_x, p_y) && pixel(fb0, p_x, p_y));
                            } else {
                                let (wx, wy) = choose|px: int, py: int|
                                    0 <= px < SCREEN_WIDTH && 0 <= py < SCREEN_HEIGHT
                                        && #[trigger] covers_upto(
                                        mem0,
                                        ir0,
                                        xpos,
                                        ypos,
                                        byte as int,
                                        bit as int,
                                        px,
                                        py,
                                    ) && pixel(fb0, px, py);
                                assert(covers_upto(mem0, ir0, xpos, ypos, byte as int,
                                    bit as int + 1, wx, wy) && pixel(fb0, wx, wy));
                            }
                        } else {
                            assert forall|qx: int, qy: int|
                                0 <= qx < SCREEN_WIDTH && 0 <= qy < SCREEN_HEIGHT implies !(
                            #[trigger] covers_upto(
                                mem0,
                                ir0,
                                xpos,
                                ypos,
                                byte as int,
                                bit as int + 1,
                                qx,
                                qy,
                            ) && pixel(fb0, qx, qy)) by {
                                vstd::arithmetic::div_mod::lemma_mod_bound(
                                    qx - xpos,
                                    SCREEN_WIDTH as int,
                                );
                                vstd::arithmetic::div_mod::lemma_mod_bound(
                                    qy - ypos,
                                    SCREEN_HEIGHT as int,
                                );
                                lemma_wrap_offset(xpos as int, qx, bit as int, SCREEN_WIDTH as int);
                                lemma_wrap_offset(
                                    ypos as int,
                                    qy,
                                    byte as int,
                                    SCREEN_HEIGHT as int,
                                );
                                assert(!(covers_upto(
                                    mem0,
                                    ir0,
                                    xpos,
                                    ypos,
                                    byte as int,
                                    bit as int,
                                    qx,
                                    qy,
                                ) && pixel(fb0, qx, qy)));
                            }
                        }
                    }
                } else {
                    proof {
                        assert forall|qx: int, qy: int|
                            0 <= qx < SCREEN_WIDTH && 0 <= qy < SCREEN_HEIGHT implies #[trigger]
                            covers_upto(
                            mem0,
                            ir0,
                            xpos,
                            ypos,
                            byte as int,
                            bit as int + 1,
                            qx,
                            qy,
                        ) == covers_upto(
                            mem0,
                            ir0,
                            xpos,
                            ypos,
                            byte as int,
                            bit as int,
                            qx,
                            qy,
                        ) by {
                            vstd::arithmetic::div_mod::lemma_mod_bound(
                                qx - xpos,
                                SCREEN_WIDTH as int,
                            );
                            vstd::arithmetic::div_mod::lemma_mod_bound(
                                qy - ypos,
                                SCREEN_HEIGHT as int,
                            );
                            lemma_wrap_offset(xpos as int, qx, bit as int, SCREEN_WIDTH as int);
                            lemma_wrap_offset(ypos as int, qy, byte as int, SCREEN_HEIGHT as int);
                        }
                        if overlap {
                            let (wx, wy) = choose|px: int, py: int|
                                0 <= px < SCREEN_WIDTH && 0 <= py < SCREEN_HEIGHT
                                    && #[trigger] covers_upto(
                                    mem0,
                                    ir0,
                                    xpos,
                                    ypos,
                                    byte as int,
                                    bit as int,
                                    px,
                                    py,
                                ) && pixel(fb0, px, py);
                            assert(covers_upto(mem0, ir0, xpos, ypos, byte as int, bit as int + 1,
                                wx, wy) && pixel(fb0, wx, wy));
                        }
                    }
                }
                bit = bit + 1;
            }
            proof {
                assert forall|qx: int, qy: int|
                    0 <= qx < SCREEN_WIDTH && 0 <= qy < SCREEN_HEIGHT implies #[trigger]
                    covers_upto(mem0, ir0, xpos, ypos, byte as int + 1, 0, qx, qy) == covers_upto(
                    mem0,
                    ir0,
                    xpos,
                    ypos,
                    byte as int,
                    8,
                    qx,
                    qy,
                ) by {
                    vstd::arithmetic::div_mod::lemma_mod_bound(qx - xpos, SCREEN_WIDTH as int);
                    vstd::arithmetic::div_mod::lemma_mod_bound(qy - ypos, SCREEN_HEIGHT as int);
                }
                if overlap {
                    let (wx, wy) = choose|px: int, py: int|
                        0 <= px < SCREEN_WIDTH && 0 <= py < SCREEN_HEIGHT && #[trigger] covers_upto(
                            mem0,
                            ir0,
                            xpos,
                            ypos,
                            byte as int,
                            8,
                            px,
                            py,
                        ) && pixel(fb0, px, py);
                    assert(covers_upto(mem0, ir0, xpos, ypos, byte as int + 1, 0, wx, wy) && pixel(
                        fb0,
                        wx,
                        wy,
                    ));
                }
            }
            byte = byte + 1;
        }
        self.registers[REG_VF] = if overlap {
            1
        } else {
            0
        };
        self.display_changed = true;
        proof {
            assert(byte_count as int == byte as int);
            let ghost n = byte_count;
            if overlap {
                let (wx, wy) = choose|px: int, py: int|
                    0 <= px < SCREEN_WIDTH && 0 <= py < SCREEN_HEIGHT && #[trigger] covers_upto(
                        mem0,
                        ir0,
                        xpos,
                        ypos,
                        n as int,
                        0,
                        px,
                        py,
                    ) && pixel(fb0, px, py);
                assert(sprite_covers(mem0, ir0, n, xpos, ypos, wx, wy) && pixel(fb0, wx, wy));
                assert(draw_collision(fb0, mem0, ir0, n, xpos, ypos));
            } else {
                assert forall|qx: int, qy: int|
                    0 <= qx < SCREEN_WIDTH && 0 <= qy < SCREEN_HEIGHT implies !(
                #[trigger] sprite_covers(mem0, ir0, n, xpos, ypos, qx, qy) && pixel(
                    fb0,
                    qx,
                    qy,
                )) by {
                    assert(!(covers_upto(mem0, ir0, xpos, ypos, n as int, 0, qx, qy) && pixel(
                        fb0,
                        qx,
                        qy,
                    )));
                }
                assert(!draw_collision(fb0, mem0, ir0, n, xpos, ypos));
            }
        }
        ProgramCounterControl::Next
    }

    /// Pops the newest return address.  Fails with `EmptyStackError`, and
    /// changes nothing, exactly when the stack holds no entry.
    fn stack_pop(&mut self) -> (r: Result<u16, ChipError>)
        requires
            old(self).wf(),
        ensures
            final(self).wf(),
            match r {
                Ok(v) => {
                    &&& old(self).sp > 0
                    &&& v == old(self).stack@[old(self).sp - 1]
                    &&& final(self).sp == old(self).sp - 1
                    &&& *final(self) == (Chip8 { sp: final(self).sp, ..*old(self) })
                },
                Err(e) => {
                    &&& e == ChipError::EmptyStackError
                    &&& old(self).sp == 0
                    &&& *final(self) == *old(self)
                },
            },
    {
        if self.sp == 0 {
            Err(ChipError::EmptyStackError)
        } else {
            let val = self.stack[(self.sp - 1) as usize];
            self.sp = self.sp - 1;
            Ok(val)
        }
    }

    /// Pushes a return address.  Fails with `FullStackError`, and changes
    /// nothing, exactly when the stack already holds its full capacity.
    fn stack_push(&mut self, val: u16) -> (r: Result<(), ChipError>)
        requires
            old(self).wf(),
        ensures
            final(self).wf(),
            match r {
                Ok(()) => {
                    &&& old(self).sp < STACK_SIZE
                    &&& final(self).sp == old(self).sp + 1
                    &&& final(self).stack@ == old(self).stack@.update(old(self).sp as int, val)
                    &&& *final(self) == (Chip8 {
                        sp: final(self).sp,
                        stack: final(self).stack,
                        ..*old(self)
                    })
                },
                Err(e) => {
                    &&& e == ChipError::FullStackError
                    &&& old(self).sp == STACK_SIZE
                    &&& *final(self) == *old(self)
                },
            },
    {
        if self.sp as usize == STACK_SIZE {
            Err(ChipError::FullStackError)
        } else {
            self.stack[self.sp as usize] = val;
            self.sp = self.sp + 1;
            Ok(())
        }
    }

    /// Decode and execute one instruction: dispatch on the high nibble,
    /// then on the low byte or low nibble for the ambiguous groups.  An
    /// instruction matching no defined opcode fails with
    /// `BadOperationError`.  The program counter is never written here; the
    /// caller applies the returned directive.
    fn run(&mut self, b1: u8, b2: u8, key_input: u16) -> (r: Result<
        ProgramCounterControl,
        ChipError,
    >)
        requires
            old(self).wf(),
            old(self).pc + INSTRUCTION_SIZE <= u16::MAX,
        ensures
            final(self).wf(),
            final(self).pc == old(self).pc,
            match r {
                Ok(c) => {
                    &&& exec_err(*old(self), b1, b2) is None
                    &&& c == control_of(*old(self), b1, b2, key_input)
                    &&& exec_rel(*old(self), *final(self), b1, b2, key_input)
                },
                Err(e) => {
                    &&& exec_err(*old(self), b1, b2) == Some(e)
                    &&& *final(self) == *old(self)
                },
            },
    {
        let top_b1 = b1 >> 4;
        let bottom_b1 = b1 & 0x0F;
        let top_b2 = b2 >> 4;
        let bottom_b2 = b2 & 0x0F;
        proof {
            assert(b1 >> 4 < 16 && b1 & 0x0F < 16 && b2 >> 4 < 16 && b2 & 0x0F < 16)
                by (bit_vector);
        }
        match top_b1 {
            0x0 => match b2 {
                0xE0 => Ok(self.op_cls()),
                0xEE => self.op_ret(),
                _ => Err(ChipError::BadOperationError(b1, b2)),
            },
            0x1 => Ok(self.op_jp(get_nnn(b1, b2))),
            0x2 => self.op_call(get_nnn(b1, b2)),
            0x3 => Ok(self.op_se(bottom_b1, b2)),
            0x4 => Ok(self.op_sne(bottom_b1, b2)),
            0x5 => match bottom_b2 {
                0x0 => Ok(self.op_se_reg(bottom_b1, top_b2)),
                _ => Err(ChipError::BadOperationError(b1, b2)),
            },
            0x6 => Ok(self.op_ld(bottom_b1, b2)),
            0x7 => Ok(self.op_add(bottom_b1, b2)),
            0x8 => match bottom_b2 {
                0x0 => Ok(self.op_ld_reg(bottom_b1, top_b2)),
                0x1 => Ok(self.op_or(bottom_b1, top_b2)),
                0x2 => Ok(self.op_and(bottom_b1, top_b2)),
                0x3 => Ok(self.op_xor(bottom_b1, top_b2)),
                0x4 => Ok(self.op_add_reg(bottom_b1, top_b2)),
                0x5 => Ok(self.op_sub_reg(bottom_b1, top_b2)),
                0x6 => Ok(self.op_shr(bottom_b1, top_b2)),
                0x7 => Ok(self.op_subn_reg(bottom_b1, top_b2)),
                0xE => Ok(self.op_shl(bottom_b1, top_b2)),
                _ => Err(ChipError::BadOperationError(b1, b2)),
            },
            0x9 => match bottom_b2 {
                0x0 => Ok(self.op_sne_reg(bottom_b1, top_b2)),
                _ => Err(ChipError::BadOperationError(b1, b2)),
            },
            0xA => Ok(self.op_ld_i(get_nnn(b1, b2))),
            0xB => Ok(self.op_jp_v0(get_nnn(b1, b2))),
            0xC => Ok(self.op_rnd(bottom_b1, b2)),
            0xD => Ok(self.op_drw(bottom_b1, top_b2, bottom_b2)),
            0xE => match b2 {
                0x9E => Ok(self.op_skp(bottom_b1, key_input)),
                0xA1 => Ok(self.op_sknp(bottom_b1, key_input)),
                _ => Err(ChipError::BadOperationError(b1, b2)),
            },
            0xF => match b2 {
                0x07 => Ok(self.op_ld_vx_dt(bottom_b1)),
                0x0A => Ok(self.op_key_wait(bottom_b1)),
                0x15 => Ok(self.op_ld_dt_vx(bottom_b1)),
                0x18 => Ok(self.op_ld_st_vx(bottom_b1)),
                0x1E => Ok(self.op_add_i_vx(bottom_b1)),
                0x29 => Ok(self.op_ld_f_vx(bottom_b1)),
                0x33 => Ok(self.op_ld_b_vx(bottom_b1)),
                0x55 => Ok(self.op_ld_i_vx(bottom_b1)),
                0x65 => Ok(self.op_ld_vx_i(bottom_b1)),
                _ => Err(ChipError::BadOperationError(b1, b2)),
            },
            _ => Err(ChipError::BadOperationError(b1, b2)),
        }
    }

    /// One fetch-decode-execute cycle: validate the program counter, fetch
    /// the two instruction bytes, execute them against the key-level
    /// bitmask, and apply the returned program-counter directive.  Every
    /// failure leaves the state exactly as it was and is propagated
    /// unchanged.
    pub fn tick(&mut self, key_input: u16) -> (r: Result<(), ChipError>)
        requires
            old(self).wf(),
        ensures
            final(self).wf(),
            tick_rel(*old(self), *final(self), key_input, r),
    {
        if self.pc as usize > MEMORY_SIZE - INSTRUCTION_SIZE as usize {
            return Err(ChipError::ProgramCounterError(self.pc));
        }
        let b1 = self.memory[self.pc as usize];
        let b2 = self.memory[self.pc as usize + 1];

        let res = match self.run(b1, b2, key_input) {
            Ok(c) => c,
            Err(e) => {
                return Err(e);
            },
        };
        let ghost mid = *self;
        match res {
            ProgramCounterControl::Next => {
                self.pc = self.pc + INSTRUCTION_SIZE;
            },
            ProgramCounterControl::Skip => {
                self.pc = self.pc + 2 * INSTRUCTION_SIZE;
            },
            ProgramCounterControl::Jump(addr) => {
                self.pc = addr;
            },
        }
        proof {
            assert(*self == (Chip8 { pc: self.pc, ..mid }));
            assert((Chip8 { pc: old(self).pc, ..*self }) == mid);
        }
        Ok(())
    }

    /// One frame step, driven by the host at its own cadence: consume the
    /// display-changed flag, step each timer down one (stopping at zero),
    /// and recompute whether sound is active.  No instruction runs here.
    pub fn frame(&mut self)
        requires
            old(self).wf(),
        ensures
            final(self).wf(),
            *final(self) == (Chip8 {
                display_changed: false,
                dt: final(self).dt,
                st: final(self).st,
                sound_playing: final(self).sound_playing,
                ..*old(self)
            }),
            final(self).dt == (if old(self).dt > 0 {
                (old(self).dt - 1) as u8
            } else {
                0u8
            }),
            final(self).st == (if old(self).st > 0 {
                (old(self).st - 1) as u8
            } else {
                0u8
            }),
            final(self).sound_playing == (final(self).st > 0),
    {
        self.display_changed = false;
        if self.dt > 0 {
            self.dt = self.dt - 1;
        }
        if self.st > 0 {
            self.st = self.st - 1;
        }
        self.sound_playing = self.st > 0;
    }

    /// Resolve a pending key wait from a bitmask of keys newly pressed
    /// (edges, computed by the host).  If the wait latch is set and some
    /// bit is set, the lowest set bit's index lands in the latched target
    /// register and the latch clears; otherwise nothing changes.
    pub fn keypad_press(&mut self, key_press: u16)
        requires
            old(self).wf(),
        ensures
            final(self).wf(),
            old(self).keypad_waiting && key_press != 0 ==> {
                &&& *final(self) == (Chip8 {
                    keypad_waiting: false,
                    registers: final(self).registers,
                    ..*old(self)
                })
                &&& final(self).registers@ == old(self).registers@.update(
                    old(self).keypad_reg as int,
                    final(self).registers@[old(self).keypad_reg as int],
                )
                &&& is_lowest_set_bit(
                    key_press,
                    final(self).registers@[old(self).keypad_reg as int],
                )
            },
            !(old(self).keypad_waiting && key_press != 0) ==> *final(self) == *old(self),
    {
        if self.keypad_waiting {
            if let Some(bit) = get_lowest_bit_pos(key_press) {
                proof {
                    let b = bit;
                    assert(key_press != 0) by (bit_vector)
                        requires (key_press >> (b as u16)) & 1 == 1;
                }
                self.keypad_waiting = false;
                self.registers[self.keypad_reg as usize] = bit;
            }
        }
    }
}

/// Extracts the 12-bit address operand from a big-endian instruction pair.
pub fn get_nnn(b1: u8, b2: u8) -> (r: u16)
    ensures
        r == spec_nnn(b1, b2),
        r < 0x1000,
{
    let x1 = b1 as u16;
    let x2 = b2 as u16;
    let r = (x1 * 0x0100 + x2) & 0x0FFF;
    assert(r == ((((b1 & 0x0F) as u16) * 0x100 + b2 as u16) as u16) && r < 0x1000) by (bit_vector)
        requires
            r == ((((b1 as u16) * 0x0100 + (b2 as u16)) as u16) & 0x0FFF),
    ;
    r
}

/// The address operand `nnn`: the bottom three nibbles of the instruction.
pub open spec fn spec_nnn(b1: u8, b2: u8) -> u16 {
    ((((b1 & 0x0F) as u16) * 0x100 + b2 as u16) as u16)
}

/// `a - b` wrapped modulo 256.
pub open spec fn sub_wrapped(a: u8, b: u8) -> u8 {
    if a >= b {
        (a - b) as u8
    } else {
        (a + 256 - b) as u8
    }
}

/// The register a shift opcode reads: `Vx`, or `Vy` under the shift quirk.
pub open spec fn shift_source(pre: Chip8, reg1: u8, reg2: u8) -> u8 {
    if pre.quirks_mode.shift {
        pre.registers@[reg2 as int]
    } else {
        pre.registers@[reg1 as int]
    }
}

/// Whether the key named by register value `v` is held down in the 16-bit
/// level bitmask.  Values outside `0..=0xF` name no key.
pub open spec fn key_down(keys: u16, v: u8) -> bool {
    v < 16 && (keys >> (v as u16)) & 1 == 1
}

/// An all-clear framebuffer.
pub open spec fn zero_fb() -> Seq<u8> {
    Seq::<u8>::new((SCREEN_WIDTH * SCREEN_HEIGHT / 8) as nat, |i: int| 0u8)
}

/// Whether `i` is the index of the lowest set bit of `n`.
pub open spec fn is_lowest_set_bit(n: u16, i: u8) -> bool {
    &&& i < 16
    &&& (n >> (i as u16)) & 1 == 1
    &&& forall|j: u16| j < i ==> #[trigger] (n >> j) & 1 == 0
}

/// The index register a block transfer leaves behind: unchanged, or, under
/// the index quirk, advanced past the `reg + 1` bytes moved (modulo 2^16).
pub open spec fn block_final_ir(pre: Chip8, reg: u8) -> u16 {
    if pre.quirks_mode.ldi {
        ((pre.ir + reg + 1) % 0x10000) as u16
    } else {
        pre.ir
    }
}

/// The framebuffer bit for pixel `(px, py)`: the display is row-major,
/// 8 pixels per byte, most significant bit leftmost.
pub open spec fn pixel(fb: Seq<u8>, px: int, py: int) -> bool {
    (fb[py * 8 + px / 8] >> ((7 - px % 8) as u8)) & 1 == 1
}

/// Whether the sprite bits processed before row `row`, column `col` cover
/// pixel `(px, py)`.  A sprite bit at row `r`, column `c` covers the pixel
/// at `((xpos + c) % 64, (ypos + r) % 32)` when it is set; sprite data is
/// read one byte per row from memory at the index register, wrapped around
/// the end of memory.
pub open spec fn covers_upto(
    mem: Seq<u8>,
    ir: u16,
    xpos: u8,
    ypos: u8,
    row: int,
    col: int,
    px: int,
    py: int,
) -> bool {
    let c = (px - xpos) % 64;
    let r = (py - ypos) % 32;
    &&& c < 8
    &&& r < row || (r == row && c < col)
    &&& (mem[(ir + r) % (MEMORY_SIZE as int)] >> ((7 - c) as u8)) & 1 == 1
}

/// Whether an `n`-row sprite drawn at `(xpos, ypos)` covers pixel
/// `(px, py)`: the pixel lies in the sprite's wrapped 8-by-`n` window and
/// the corresponding sprite bit is set.
pub open spec fn sprite_covers(
    mem: Seq<u8>,
    ir: u16,
    n: u8,
    xpos: u8,
    ypos: u8,
    px: int,
    py: int,
) -> bool {
    covers_upto(mem, ir, xpos, ypos, n as int, 0, px, py)
}

/// Relates a framebuffer before a sprite draw to the framebuffer after it:
/// every covered pixel is flipped and every other pixel is kept.
pub open spec fn draw_rel(
    fb0: Seq<u8>,
    fb1: Seq<u8>,
    mem: Seq<u8>,
    ir: u16,
    n: u8,
    xpos: u8,
    ypos: u8,
) -> bool {
    &&& fb0.len() == SCREEN_WIDTH * SCREEN_HEIGHT / 8
    &&& fb1.len() == SCREEN_WIDTH * SCREEN_HEIGHT / 8
    &&& forall|px: int, py: int|
        0 <= px < SCREEN_WIDTH && 0 <= py < SCREEN_HEIGHT ==> #[trigger] pixel(fb1, px, py)
            == (pixel(fb0, px, py) != sprite_covers(mem, ir, n, xpos, ypos, px, py))
}

/// Whether a sprite draw collides: some covered pixel was already set, so
/// the XOR turned it off.
pub open spec fn draw_collision(
    fb0: Seq<u8>,
    mem: Seq<u8>,
    ir: u16,
    n: u8,
    xpos: u8,
    ypos: u8,
) -> bool {
    exists|px: int, py: int|
        0 <= px < SCREEN_WIDTH && 0 <= py < SCREEN_HEIGHT
            && #[trigger] sprite_covers(mem, ir, n, xpos, ypos, px, py) && pixel(fb0, px, py)
}

/// The error, if any, that executing the instruction `b1 b2` in state `pre`
/// must raise: an undefined opcode, a return on an empty stack, or a call on
/// a full one.  `None` means the instruction executes.
pub open spec fn exec_err(pre: Chip8, b1: u8, b2: u8) -> Option<ChipError> {
    let top = b1 >> 4;
    let sub = b2 & 0x0F;
    if top == 0x0 {
        if b2 == 0xE0 {
            None
        } else if b2 == 0xEE {
            if pre.sp == 0 {
                Some(ChipError::EmptyStackError)
            } else {
                None
            }
        } else {
            Some(ChipError::BadOperationError(b1, b2))
        }
    } else if top == 0x1 {
        None
    } else if top == 0x2 {
        if pre.sp == STACK_SIZE {
            Some(ChipError::FullStackError)
        } else {
            None
        }
    } else if top == 0x3 || top == 0x4 {
        None
    } else if top == 0x5 || top == 0x9 {
        if sub == 0x0 {
            None
        } else {
            Some(ChipError::BadOperationError(b1, b2))
        }
    } else if top == 0x6 || top == 0x7 {
        None
    } else if top == 0x8 {
        if sub <= 0x7 || sub == 0xE {
            None
        } else {
            Some(ChipError::BadOperationError(b1, b2))
        }
    } else if top == 0xA || top == 0xB || top == 0xC || top == 0xD {
        None
    } else if top == 0xE {
        if b2 == 0x9E || b2 == 0xA1 {
            None
        } else {
            Some(ChipError::BadOperationError(b1, b2))
        }
    } else if top == 0xF {
        if b2 == 0x07 || b2 == 0x0A || b2 == 0x15 || b2 == 0x18 || b2 == 0x1E || b2 == 0x29
            || b2 == 0x33 || b2 == 0x55 || b2 == 0x65 {
            None
        } else {
            Some(ChipError::BadOperationError(b1, b2))
        }
    } else {
        Some(ChipError::BadOperationError(b1, b2))
    }
}

/// The program-counter directive the instruction `b1 b2` yields in state
/// `pre` under the key-level bitmask `keys`, when it executes without error.
pub open spec fn control_of(pre: Chip8, b1: u8, b2: u8, keys: u16) -> ProgramCounterControl {
    let top = b1 >> 4;
    let x = (b1 & 0x0F) as int;
    let y = (b2 >> 4) as int;
    if top == 0x0 {
        if b2 == 0xEE {
            ProgramCounterControl::Jump(pre.stack@[pre.sp - 1])
        } else {
            ProgramCounterControl::Next
        }
    } else if top == 0x1 || top == 0x2 {
        ProgramCounterControl::Jump(spec_nnn(b1, b2))
    } else if top == 0x3 {
        if pre.registers@[x] == b2 {
            ProgramCounterControl::Skip
        } else {
            ProgramCounterControl::Next
        }
    } else if top == 0x4 {
        if pre.registers@[x] != b2 {
            ProgramCounterControl::Skip
        } else {
            ProgramCounterControl::Next
        }
    } else if top == 0x5 {
        if pre.registers@[x] == pre.registers@[y] {
            ProgramCounterControl::Skip
        } else {
            ProgramCounterControl::Next
        }
    } else if top == 0x9 {
        if pre.registers@[x] != pre.registers@[y] {
            ProgramCounterControl::Skip
        } else {
            ProgramCounterControl::Next
        }
    } else if top == 0xB {
        ProgramCounterControl::Jump((pre.registers@[REG_V0 as int] + spec_nnn(b1, b2)) as u16)
    } else if top == 0xE {
        if b2 == 0x9E {
            if key_down(keys, pre.registers@[x]) {
                ProgramCounterControl::Skip
            } else {
                ProgramCounterControl::Next
            }
        } else {
            if !key_down(keys, pre.registers@[x]) {
                ProgramCounterControl::Skip
            } else {
                ProgramCounterControl::Next
            }
        }
    } else {
        ProgramCounterControl::Next
    }
}

/// The state change of one successfully executed instruction, program
/// counter aside: what each defined opcode does to the machine, for the
/// instruction bytes `b1 b2` and the key-level bitmask `keys`.  The random
/// opcode is the one nondeterministic case: the drawn byte is pinned only
/// to the mask.
pub open spec fn exec_rel(pre: Chip8, post: Chip8, b1: u8, b2: u8, keys: u16) -> bool {
    let top = b1 >> 4;
    let xr = b1 & 0x0F;
    let yr = b2 >> 4;
    let sub = b2 & 0x0F;
    let x = xr as int;
    let y = yr as int;
    let regs = pre.registers@;
    if top == 0x0 {
        if b2 == 0xE0 {
            &&& post == (Chip8 { frame_buffer: post.frame_buffer, ..pre })
            &&& post.frame_buffer@ == zero_fb()
        } else if b2 == 0xEE {
            &&& pre.sp > 0
            &&& post == (Chip8 { sp: (pre.sp - 1) as u8, ..pre })
        } else {
            false
        }
    } else if top == 0x1 {
        post == pre
    } else if top == 0x2 {
        &&& pre.sp < STACK_SIZE
        &&& post == (Chip8 { sp: (pre.sp + 1) as u8, stack: post.stack, ..pre })
        &&& post.stack@ == pre.stack@.update(
            pre.sp as int,
            (pre.pc + INSTRUCTION_SIZE) as u16,
        )
    } else if top == 0x3 || top == 0x4 {
        post == pre
    } else if top == 0x5 || top == 0x9 {
        sub == 0x0 && post == pre
    } else if top == 0x6 {
        &&& post == (Chip8 { registers: post.registers, ..pre })
        &&& post.registers@ == regs.update(x, b2)
    } else if top == 0x7 {
        &&& post == (Chip8 { registers: post.registers, ..pre })
        &&& post.registers@ == regs.update(x, ((regs[x] + b2) % 256) as u8)
    } else if top == 0x8 {
        &&& post == (Chip8 { registers: post.registers, ..pre })
        &&& if sub == 0x0 {
            post.registers@ == regs.update(x, regs[y])
        } else if sub == 0x1 {
            post.registers@ == regs.update(x, regs[x] | regs[y])
        } else if sub == 0x2 {
            post.registers@ == regs.update(x, regs[x] & regs[y])
        } else if sub == 0x3 {
            post.registers@ == regs.update(x, regs[x] ^ regs[y])
        } else if sub == 0x4 {
            post.registers@ == regs.update(x, ((regs[x] + regs[y]) % 256) as u8).update(
                REG_VF as int,
                if regs[x] + regs[y] >= 256 {
                    1u8
                } else {
                    0u8
                },
            )
        } else if sub == 0x5 {
            post.registers@ == regs.update(x, sub_wrapped(regs[x], regs[y])).update(
                REG_VF as int,
                if regs[x] >= regs[y] {
                    1u8
                } else {
                    0u8
                },
            )
        } else if sub == 0x6 {
            post.registers@ == regs.update(x, shift_source(pre, xr, yr) >> 1u8).update(
                REG_VF as int,
                shift_source(pre, xr, yr) & 1,
            )
        } else if sub == 0x7 {
            post.registers@ == regs.update(x, sub_wrapped(regs[y], regs[x])).update(
                REG_VF as int,
                if regs[y] >= regs[x] {
                    1u8
                } else {
                    0u8
                },
            )
        } else if sub == 0xE {
            post.registers@ == regs.update(
                x,
                ((shift_source(pre, xr, yr) * 2) % 256) as u8,
            ).update(REG_VF as int, (shift_source(pre, xr, yr) >> 7u8) & 1)
        } else {
            false
        }
    } else if top == 0xA {
        post == (Chip8 { ir: spec_nnn(b1, b2), ..pre })
    } else if top == 0xB {
        post == pre
    } else if top == 0xC {
        &&& post == (Chip8 { registers: post.registers, rng: post.rng, ..pre })
        &&& post.registers@ == regs.update(x, post.registers@[x])
        &&& post.registers@[x] & !b2 == 0
    } else if top == 0xD {
        &&& post == (Chip8 {
            frame_buffer: post.frame_buffer,
            registers: post.registers,
            display_changed: true,
            ..pre
        })
        &&& draw_rel(
            pre.frame_buffer@,
            post.frame_buffer@,
            pre.memory@,
            pre.ir,
            sub,
            regs[x],
            regs[y],
        )
        &&& post.registers@ == regs.update(
            REG_VF as int,
            if draw_collision(pre.frame_buffer@, pre.memory@, pre.ir, sub, regs[x], regs[y]) {
                1u8
            } else {
                0u8
            },
        )
    } else if top == 0xE {
        (b2 == 0x9E || b2 == 0xA1) && post == pre
    } else if top == 0xF {
        if b2 == 0x07 {
            &&& post == (Chip8 { registers: post.registers, ..pre })
            &&& post.registers@ == regs.update(x, pre.dt)
        } else if b2 == 0x0A {
            post == (Chip8 { keypad_waiting: true, keypad_reg: xr, ..pre })
        } else if b2 == 0x15 {
            post == (Chip8 { dt: regs[x], ..pre })
        } else if b2 == 0x18 {
            post == (Chip8 { st: regs[x], ..pre })
        } else if b2 == 0x1E {
            post == (Chip8 { ir: ((pre.ir + regs[x]) % 0x10000) as u16, ..pre })
        } else if b2 == 0x29 {
            post == (Chip8 { ir: ((regs[x] & 0xF) * 5) as u16, ..pre })
        } else if b2 == 0x33 {
            &&& post == (Chip8 { memory: post.memory, ..pre })
            &&& post.memory@ == pre.memory@.update(
                pre.ir as int % MEMORY_SIZE as int,
                ((regs[x] / 100) % 10) as u8,
            ).update(
                (pre.ir + 1) as int % MEMORY_SIZE as int,
                ((regs[x] / 10) % 10) as u8,
            ).update((pre.ir + 2) as int % MEMORY_SIZE as int, (regs[x] % 10) as u8)
        } else if b2 == 0x55 {
            &&& post == (Chip8 { memory: post.memory, ir: post.ir, ..pre })
            &&& post.ir == block_final_ir(pre, xr)
            &&& post.memory@.len() == MEMORY_SIZE
            &&& forall|k: int|
                #![trigger post.memory@[k]]
                0 <= k < MEMORY_SIZE ==> post.memory@[k] == (
                if (k - pre.ir) % (MEMORY_SIZE as int) <= xr {
                    regs[(k - pre.ir) % (MEMORY_SIZE as int)]
                } else {
                    pre.memory@[k]
                })
        } else if b2 == 0x65 {
            &&& post == (Chip8 { registers: post.registers, ir: post.ir, ..pre })
            &&& post.ir == block_final_ir(pre, xr)
            &&& post.registers@.len() == REGISTER_COUNT
            &&& forall|j: int|
                #![trigger post.registers@[j]]
                0 <= j < REGISTER_COUNT ==> post.registers@[j] == (
                if j <= xr {
                    pre.memory@[(pre.ir + j) % (MEMORY_SIZE as int)]
                } else {
                    regs[j]
                })
        } else {
            false
        }
    } else {
        false
    }
}

/// The program counter after applying a control directive.
pub open spec fn next_pc(pc: u16, c: ProgramCounterControl) -> u16 {
    match c {
        ProgramCounterControl::Next => (pc + INSTRUCTION_SIZE) as u16,
        ProgramCounterControl::Skip => (pc + 2 * INSTRUCTION_SIZE) as u16,
        ProgramCounterControl::Jump(addr) => addr,
    }
}

/// One whole tick: the fetch-bound check, the executed instruction's state
/// change, and the program-counter update, or the error that stopped the
/// cycle (which leaves the state exactly as it was).
pub open spec fn tick_rel(pre: Chip8, post: Chip8, keys: u16, r: Result<(), ChipError>) -> bool {
    if pre.pc > (MEMORY_SIZE - INSTRUCTION_SIZE as usize) as u16 {
        &&& r == Err::<(), ChipError>(ChipError::ProgramCounterError(pre.pc))
        &&& post == pre
    } else {
        let b1 = pre.memory@[pre.pc as int];
        let b2 = pre.memory@[pre.pc as int + 1];
        match r {
            Ok(()) => {
                &&& exec_err(pre, b1, b2) is None
                &&& exec_rel(pre, Chip8 { pc: pre.pc, ..post }, b1, b2, keys)
                &&& post.pc == next_pc(pre.pc, control_of(pre, b1, b2, keys))
            },
            Err(e) => {
                &&& exec_err(pre, b1, b2) == Some(e)
                &&& post == pre
            },
        }
    }
}

/// Wrapped addressing is invertible: for `k` and `ind` below the modulus,
/// `k` is the wrapped address `(base + ind) % m` exactly when the wrapped
/// offset of `k` from `base` is `ind`.
proof fn lemma_wrap_offset(base: int, k: int, ind: int, m: int)
    requires
        0 < m,
        0 <= k < m,
        0 <= ind < m,
        0 <= base,
    ensures
        ((k - base) % m == ind) <==> (k == (base + ind) % m),
{
    vstd::arithmetic::div_mod::lemma_mod_bound(base + ind, m);
    vstd::arithmetic::div_mod::lemma_small_mod(k as nat, m as nat);
    vstd::arithmetic::div_mod::lemma_small_mod(ind as nat, m as nat);
    vstd::arithmetic::div_mod::lemma_sub_mod_noop(base + ind, base, m);
    vstd::arithmetic::div_mod::lemma_sub_mod_noop(k, base, m);
    vstd::arithmetic::div_mod::lemma_add_mod_noop_right(base, k - base, m);
}

/// The framebuffer byte of pixel `(px, py)`, computed the way the draw
/// routine does, equals the byte the pixel model reads, and is in range.
proof fn lemma_fb_index(px: int, py: int)
    requires
        0 <= px < 64,
        0 <= py < 32,
    ensures
        (py * 64 + px) / 8 == py * 8 + px / 8,
        0 <= px / 8 < 8,
        0 <= px % 8 < 8,
        0 <= py * 8 + px / 8 < 256,
{
    assert((py * 64 + px) / 8 == py * 8 + px / 8 && 0 <= px / 8 < 8 && 0 <= px % 8 < 8)
        by (nonlinear_arith)
        requires 0 <= px < 64 && 0 <= py < 32;
}

/// Two pixels with the same framebuffer byte and the same bit within it
/// are the same pixel.
proof fn lemma_fb_index_unique(px: int, py: int, qx: int, qy: int)
    requires
        0 <= px < 64,
        0 <= py < 32,
        0 <= qx < 64,
        0 <= qy < 32,
        py * 8 + px / 8 == qy * 8 + qx / 8,
        px % 8 == qx % 8,
    ensures
        px == qx,
        py == qy,
{
    assert(px == qx && py == qy) by (nonlinear_arith)
        requires
            0 <= px < 64 && 0 <= py < 32 && 0 <= qx < 64 && 0 <= qy < 32
                && py * 8 + px / 8 == qy * 8 + qx / 8 && px % 8 == qx % 8;
}

/// Flipping one bit of a byte with XOR flips exactly that bit.
proof fn lemma_xor_bit(b: u8, s: u8, j: u8)
    requires
        s < 8,
        j < 8,
    ensures
        j == s ==> ((b ^ (1u8 << s)) >> j) & 1 == (if (b >> j) & 1 == 1 { 0u8 } else { 1u8 }),
        j != s ==> ((b ^ (1u8 << s)) >> j) & 1 == (b >> j) & 1,
{
    assert((j == s ==> ((b ^ (1u8 << s)) >> j) & 1 == (if (b >> j) & 1 == 1 {
        0u8
    } else {
        1u8
    })) && (j != s ==> ((b ^ (1u8 << s)) >> j) & 1 == (b >> j) & 1)) by (bit_vector)
        requires s < 8 && j < 8;
}

/// Testing a byte against a one-bit mask reads exactly that bit.
proof fn lemma_and_bit(b: u8, s: u8)
    requires
        s < 8,
    ensures
        ((b & (1u8 << s)) > 0) <==> ((b >> s) & 1 == 1),
{
    assert(((b & (1u8 << s)) > 0) <==> ((b >> s) & 1 == 1)) by (bit_vector)
        requires s < 8;
}

/// The index of the lowest set bit of `num`, or `None` when no bit is set.
pub fn get_lowest_bit_pos(num: u16) -> (r: Option<u8>)
    ensures
        match r {
            Some(i) => is_lowest_set_bit(num, i),
            None => num == 0,
        },
{
    let mut i: u8 = 0;
    while i < 16
        invariant
            i <= 16,
            forall|j: u16| j < i ==> #[trigger] (num >> j) & 1 == 0,
        decreases 16 - i,
    {
        if (num & (1u16 << (i as u16))) > 0 {
            proof {
                let b = i;
                assert((num >> (b as u16)) & 1 == 1) by (bit_vector)
                    requires num & (1u16 << (b as u16)) > 0 && b < 16;
            }
            return Some(i);
        }
        proof {
            let b = i;
            assert((num >> (b as u16)) & 1 == 0) by (bit_vector)
                requires !(num & (1u16 << (b as u16)) > 0) && b < 16;
        }
        i = i + 1;
    }
    proof {
        assert((num >> 0u16) & 1 == 0);
        assert((num >> 1u16) & 1 == 0);
        assert((num >> 2u16) & 1 == 0);
        assert((num >> 3u16) & 1 == 0);
        assert((num >> 4u16) & 1 == 0);
        assert((num >> 5u16) & 1 == 0);
        assert((num >> 6u16) & 1 == 0);
        assert((num >> 7u16) & 1 == 0);
        assert((num >> 8u16) & 1 == 0);
        assert((num >> 9u16) & 1 == 0);
        assert((num >> 10u16) & 1 == 0);
        assert((num >> 11u16) & 1 == 0);
        assert((num >> 12u16) & 1 == 0);
        assert((num >> 13u16) & 1 == 0);
        assert((num >> 14u16) & 1 == 0);
        assert((num >> 15u16) & 1 == 0);
        assert(num == 0) by (bit_vector)
            requires
                (num >> 0u16) & 1 == 0 && (num >> 1u16) & 1 == 0 && (num >> 2u16) & 1 == 0
                    && (num >> 3u16) & 1 == 0 && (num >> 4u16) & 1 == 0 && (num >> 5u16) & 1
                    == 0 && (num >> 6u16) & 1 == 0 && (num >> 7u16) & 1 == 0 && (num >> 8u16)
                    & 1 == 0 && (num >> 9u16) & 1 == 0 && (num >> 10u16) & 1 == 0 && (num
                    >> 11u16) & 1 == 0 && (num >> 12u16) & 1 == 0 && (num >> 13u16) & 1 == 0
                    && (num >> 14u16) & 1 == 0 && (num >> 15u16) & 1 == 0,
        ;
    }
    None
}

/// Every bit of a byte is 0 or 1 after masking.
proof fn lemma_bit01(x: u8, s: u8)
    ensures
        (x >> s) & 1 == 0 || (x >> s) & 1 == 1,
{
    assert((x >> s) & 1 == 0 || (x >> s) & 1 == 1) by (bit_vector);
}

/// Two bytes that agree on each of their eight bits are equal.
proof fn lemma_u8_eq_by_bits(a: u8, b: u8)
    requires
        forall|s: u8| s < 8 ==> #[trigger] ((a >> s) & 1) == ((b >> s) & 1),
    ensures
        a == b,
{
    assert((a >> 0u8) & 1 == (b >> 0u8) & 1);
    assert((a >> 1u8) & 1 == (b >> 1u8) & 1);
    assert((a >> 2u8) & 1 == (b >> 2u8) & 1);
    assert((a >> 3u8) & 1 == (b >> 3u8) & 1);
    assert((a >> 4u8) & 1 == (b >> 4u8) & 1);
    assert((a >> 5u8) & 1 == (b >> 5u8) & 1);
    assert((a >> 6u8) & 1 == (b >> 6u8) & 1);
    assert((a >> 7u8) & 1 == (b >> 7u8) & 1);
    assert(a == b) by (bit_vector)
        requires
            (a >> 0u8) & 1 == (b >> 0u8) & 1 && (a >> 1u8) & 1 == (b >> 1u8) & 1 && (a >> 2u8)
                & 1 == (b >> 2u8) & 1 && (a >> 3u8) & 1 == (b >> 3u8) & 1 && (a >> 4u8) & 1 == (
            b >> 4u8) & 1 && (a >> 5u8) & 1 == (b >> 5u8) & 1 && (a >> 6u8) & 1 == (b >> 6u8)
                & 1 && (a >> 7u8) & 1 == (b >> 7u8) & 1,
    ;
}

/// Law: drawing a sprite is an involution on the framebuffer.  Drawing the
/// identical sprite twice at the same position restores the framebuffer
/// exactly; the collision flag of the second draw is, by the draw
/// contract, set exactly where the sprite's set bits overlap pixels that
/// were set after the first draw.
pub proof fn lemma_draw_twice(
    fb0: Seq<u8>,
    fb1: Seq<u8>,
    fb2: Seq<u8>,
    mem: Seq<u8>,
    ir: u16,
    n: u8,
    xpos: u8,
    ypos: u8,
)
    requires
        draw_rel(fb0, fb1, mem, ir, n, xpos, ypos),
        draw_rel(fb1, fb2, mem, ir, n, xpos, ypos),
    ensures
        fb2 == fb0,
        draw_collision(fb1, mem, ir, n, xpos, ypos) == exists|px: int, py: int|
            0 <= px < SCREEN_WIDTH && 0 <= py < SCREEN_HEIGHT && #[trigger] sprite_covers(
                mem,
                ir,
                n,
                xpos,
                ypos,
                px,
                py,
            ) && !pixel(fb0, px, py),
{
    if draw_collision(fb1, mem, ir, n, xpos, ypos) {
        let (wx, wy) = choose|px: int, py: int|
            0 <= px < SCREEN_WIDTH && 0 <= py < SCREEN_HEIGHT && #[trigger] sprite_covers(
                mem,
                ir,
                n,
                xpos,
                ypos,
                px,
                py,
            ) && pixel(fb1, px, py);
        assert(pixel(fb1, wx, wy) == (pixel(fb0, wx, wy) != sprite_covers(
            mem,
            ir,
            n,
            xpos,
            ypos,
            wx,
            wy,
        )));
        assert(sprite_covers(mem, ir, n, xpos, ypos, wx, wy) && !pixel(fb0, wx, wy));
    }
    if exists|px: int, py: int|
        0 <= px < SCREEN_WIDTH && 0 <= py < SCREEN_HEIGHT && #[trigger] sprite_covers(
            mem,
            ir,
            n,
            xpos,
            ypos,
            px,
            py,
        ) && !pixel(fb0, px, py) {
        let (wx, wy) = choose|px: int, py: int|
            0 <= px < SCREEN_WIDTH && 0 <= py < SCREEN_HEIGHT && #[trigger] sprite_covers(
                mem,
                ir,
                n,
                xpos,
                ypos,
                px,
                py,
            ) && !pixel(fb0, px, py);
        assert(pixel(fb1, wx, wy) == (pixel(fb0, wx, wy) != sprite_covers(
            mem,
            ir,
            n,
            xpos,
            ypos,
            wx,
            wy,
        )));
        assert(sprite_covers(mem, ir, n, xpos, ypos, wx, wy) && pixel(fb1, wx, wy));
    }
    assert forall|i: int| 0 <= i < 256 implies fb2[i] == fb0[i] by {
        let py = i / 8;
        let c = i % 8;
        vstd::arithmetic::div_mod::lemma_fundamental_div_mod(i, 8);
        assert forall|s: u8| s < 8 implies #[trigger] ((fb2[i] >> s) & 1) == ((fb0[i] >> s)
            & 1) by {
            let px = c * 8 + (7 - s);
            vstd::arithmetic::div_mod::lemma_fundamental_div_mod_converse(
                px,
                8,
                c,
                7 - s as int,
            );
            assert(pixel(fb1, px, py) == (pixel(fb0, px, py) != sprite_covers(
                mem,
                ir,
                n,
                xpos,
                ypos,
                px,
                py,
            )));
            assert(pixel(fb2, px, py) == (pixel(fb1, px, py) != sprite_covers(
                mem,
                ir,
                n,
                xpos,
                ypos,
                px,
                py,
            )));
            lemma_bit01(fb2[i], s);
            lemma_bit01(fb0[i], s);
        }
        lemma_u8_eq_by_bits(fb2[i], fb0[i]);
    }
    assert(fb2 =~= fb0);
}

/// Law: a sprite draw touches nothing outside its wrapped window.  A pixel
/// can change only if its wrapped column offset from the sprite's position
/// is below the sprite's width of 8 and its wrapped row offset is below the
/// sprite's row count, so a sprite drawn at column 60 spans exactly the
/// wrapped columns 60..=63 and 0..=3, with no access out of bounds.
pub proof fn lemma_draw_touches_window(
    fb0: Seq<u8>,
    fb1: Seq<u8>,
    mem: Seq<u8>,
    ir: u16,
    n: u8,
    xpos: u8,
    ypos: u8,
)
    requires
        draw_rel(fb0, fb1, mem, ir, n, xpos, ypos),
    ensures
        forall|px: int, py: int|
            0 <= px < SCREEN_WIDTH && 0 <= py < SCREEN_HEIGHT && #[trigger] pixel(fb1, px, py)
                != pixel(fb0, px, py) ==> (px - xpos) % (SCREEN_WIDTH as int) < 8 && (py - ypos)
                % (SCREEN_HEIGHT as int) < n,
{
    assert forall|px: int, py: int|
        0 <= px < SCREEN_WIDTH && 0 <= py < SCREEN_HEIGHT && #[trigger] pixel(fb1, px, py)
            != pixel(fb0, px, py) implies (px - xpos) % (SCREEN_WIDTH as int) < 8 && (py - ypos)
        % (SCREEN_HEIGHT as int) < n by {
        assert(pixel(fb1, px, py) == (pixel(fb0, px, py) != sprite_covers(
            mem,
            ir,
            n,
            xpos,
            ypos,
            px,
            py,
        )));
    }
}

/// Law: a successful return jumps to the most recently pushed return
/// address, pops exactly that one entry, and changes nothing else.
pub proof fn lemma_ret_pops_newest(pre: Chip8, post: Chip8, keys: u16)
    requires
        pre.wf(),
        pre.pc + INSTRUCTION_SIZE <= MEMORY_SIZE,
        pre.memory@[pre.pc as int] == 0x00,
        pre.memory@[pre.pc as int + 1] == 0xEE,
        tick_rel(pre, post, keys, Ok(())),
    ensures
        pre.sp >= 1,
        post.pc == pre.stack@[pre.sp - 1],
        post.sp == pre.sp - 1,
        post.stack@ == pre.stack@,
        post.memory@ == pre.memory@,
        post.registers@ == pre.registers@,
        post.frame_buffer@ == pre.frame_buffer@,
{
    assert((0x00u8 >> 4) == 0x00u8 && (0xEEu8 & 0x0F) == 0x0Eu8) by (bit_vector);
    let m = Chip8 { pc: pre.pc, ..post };
    assert(exec_rel(pre, m, 0x00, 0xEE, keys));
}

/// Law: a successful call followed by a successful return resumes at the
/// instruction after the call, with the stack pointer and the live stack
/// entries restored.
pub proof fn lemma_call_ret_round_trip(
    pre: Chip8,
    mid: Chip8,
    post: Chip8,
    keys1: u16,
    keys2: u16,
)
    requires
        pre.wf(),
        pre.pc + INSTRUCTION_SIZE <= MEMORY_SIZE,
        pre.memory@[pre.pc as int] >> 4 == 0x2,
        tick_rel(pre, mid, keys1, Ok(())),
        mid.pc + INSTRUCTION_SIZE <= MEMORY_SIZE,
        mid.memory@[mid.pc as int] == 0x00,
        mid.memory@[mid.pc as int + 1] == 0xEE,
        tick_rel(mid, post, keys2, Ok(())),
    ensures
        post.pc == pre.pc + INSTRUCTION_SIZE,
        post.sp == pre.sp,
        post.memory@ == pre.memory@,
        post.registers@ == pre.registers@,
        post.frame_buffer@ == pre.frame_buffer@,
        forall|j: int| 0 <= j < pre.sp ==> post.stack@[j] == pre.stack@[j],
{
    assert((0x00u8 >> 4) == 0x00u8 && (0xEEu8 & 0x0F) == 0x0Eu8) by (bit_vector);
    let b1 = pre.memory@[pre.pc as int];
    let b2 = pre.memory@[pre.pc as int + 1];
    let m = Chip8 { pc: pre.pc, ..mid };
    assert(exec_rel(pre, m, b1, b2, keys1));
    let p = Chip8 { pc: mid.pc, ..post };
    assert(exec_rel(mid, p, 0x00, 0xEE, keys2));
    assert(mid.stack@[mid.sp - 1] == (pre.pc + INSTRUCTION_SIZE) as u16);
}

/// Law: across any successful tick the stack pointer moves by at most one,
/// and every entry below both the old and the new stack pointer is kept.
/// With the call/return round trip this gives stack discipline for any
/// nesting depth: no opcode but call and return ever disturbs the live
/// stack.
pub proof fn lemma_stack_frame(pre: Chip8, post: Chip8, keys: u16)
    requires
        pre.wf(),
        tick_rel(pre, post, keys, Ok(())),
    ensures
        post.sp == pre.sp || post.sp == pre.sp + 1 || post.sp == pre.sp - 1,
        forall|j: int| 0 <= j < pre.sp && j < post.sp ==> post.stack@[j] == pre.stack@[j],
{
    let b1 = pre.memory@[pre.pc as int];
    let b2 = pre.memory@[pre.pc as int + 1];
    let m = Chip8 { pc: pre.pc, ..post };
    assert(exec_rel(pre, m, b1, b2, keys));
}

/// Law: a return executed with no matching call on the stack fails with
/// `EmptyStackError` and changes nothing.
pub proof fn lemma_ret_on_empty_stack(
    pre: Chip8,
    post: Chip8,
    keys: u16,
    r: Result<(), ChipError>,
)
    requires
        pre.wf(),
        pre.sp == 0,
        pre.pc + INSTRUCTION_SIZE <= MEMORY_SIZE,
        pre.memory@[pre.pc as int] == 0x00,
        pre.memory@[pre.pc as int + 1] == 0xEE,
        tick_rel(pre, post, keys, r),
    ensures
        r == Err::<(), ChipError>(ChipError::EmptyStackError),
        post == pre,
{
    assert((0x00u8 >> 4) == 0x00u8 && (0xEEu8 & 0x0F) == 0x0Eu8) by (bit_vector);
}

/// Law: a call executed with the stack already at its full nesting depth
/// fails with `FullStackError` and changes nothing.
pub proof fn lemma_call_on_full_stack(
    pre: Chip8,
    post: Chip8,
    keys: u16,
    r: Result<(), ChipError>,
)
    requires
        pre.wf(),
        pre.sp == STACK_SIZE,
        pre.pc + INSTRUCTION_SIZE <= MEMORY_SIZE,
        pre.memory@[pre.pc as int] >> 4 == 0x2,
        tick_rel(pre, post, keys, r),
    ensures
        r == Err::<(), ChipError>(ChipError::FullStackError),
        post == pre,
{
}

/// Law: the add-registers opcode wraps modulo 256 and sets `VF` to 1
/// exactly when the true mathematical sum is at least 256.  The flag is
/// written after the sum, so with `VF` as destination the flag wins; no
/// other register, and nothing outside the register file, changes.
pub proof fn lemma_add_wraps_and_carry(pre: Chip8, post: Chip8, b1: u8, b2: u8, keys: u16)
    requires
        pre.wf(),
        b1 >> 4 == 0x8,
        b2 & 0x0F == 0x4,
        exec_rel(pre, post, b1, b2, keys),
    ensures
        post.registers@[REG_VF as int] == (if pre.registers@[(b1 & 0x0F) as int]
            + pre.registers@[(b2 >> 4) as int] >= 256 {
            1u8
        } else {
            0u8
        }),
        (b1 & 0x0F) != REG_VF ==> post.registers@[(b1 & 0x0F) as int] == (pre.registers@[(b1
            & 0x0F) as int] + pre.registers@[(b2 >> 4) as int]) % 256,
        post.registers@.len() == REGISTER_COUNT,
        forall|j: int|
            0 <= j < REGISTER_COUNT && j != (b1 & 0x0F) as int && j != REG_VF
                ==> post.registers@[j] == #[trigger] pre.registers@[j],
        post == (Chip8 { registers: post.registers, ..pre }),
        control_of(pre, b1, b2, keys) == ProgramCounterControl::Next,
{
    assert(b1 & 0x0F < 16 && b2 >> 4 < 16) by (bit_vector);
}

/// Law: both subtract opcodes wrap modulo 256 and set `VF` to 1 exactly
/// when the minuend is at least the subtrahend (no borrow), equal operands
/// included; the reverse subtract uses the swapped operands.  The flag is
/// written after the difference, so with `VF` as destination the flag
/// wins; no other register, and nothing outside the register file,
/// changes.
pub proof fn lemma_sub_flag_polarity(pre: Chip8, post: Chip8, b1: u8, b2: u8, keys: u16)
    requires
        pre.wf(),
        b1 >> 4 == 0x8,
        b2 & 0x0F == 0x5 || b2 & 0x0F == 0x7,
        exec_rel(pre, post, b1, b2, keys),
    ensures
        b2 & 0x0F == 0x5 ==> post.registers@[REG_VF as int] == (if pre.registers@[(b1
            & 0x0F) as int] >= pre.registers@[(b2 >> 4) as int] {
            1u8
        } else {
            0u8
        }),
        b2 & 0x0F == 0x5 && (b1 & 0x0F) != REG_VF ==> post.registers@[(b1 & 0x0F) as int]
            == sub_wrapped(
            pre.registers@[(b1 & 0x0F) as int],
            pre.registers@[(b2 >> 4) as int],
        ),
        b2 & 0x0F == 0x7 ==> post.registers@[REG_VF as int] == (if pre.registers@[(b2
            >> 4) as int] >= pre.registers@[(b1 & 0x0F) as int] {
            1u8
        } else {
            0u8
        }),
        b2 & 0x0F == 0x7 && (b1 & 0x0F) != REG_VF ==> post.registers@[(b1 & 0x0F) as int]
            == sub_wrapped(
            pre.registers@[(b2 >> 4) as int],
            pre.registers@[(b1 & 0x0F) as int],
        ),
        post.registers@.len() == REGISTER_COUNT,
        forall|j: int|
            0 <= j < REGISTER_COUNT && j != (b1 & 0x0F) as int && j != REG_VF
                ==> post.registers@[j] == #[trigger] pre.registers@[j],
        post == (Chip8 { registers: post.registers, ..pre }),
        control_of(pre, b1, b2, keys) == ProgramCounterControl::Next,
{
    assert(b1 & 0x0F < 16 && b2 >> 4 < 16) by (bit_vector);
}

/// Law: each shift opcode's flag is exactly the bit it shifted out of the
/// source register (the lowest bit for shift-right, the highest for
/// shift-left), for every 8-bit input; the shifted value lands in the
/// destination unless the flag overwrites it.  With the quirk off the
/// source is the destination register itself.  No other register, and
/// nothing outside the register file, changes.
pub proof fn lemma_shift_flag(pre: Chip8, post: Chip8, b1: u8, b2: u8, keys: u16)
    requires
        pre.wf(),
        b1 >> 4 == 0x8,
        b2 & 0x0F == 0x6 || b2 & 0x0F == 0xE,
        exec_rel(pre, post, b1, b2, keys),
    ensures
        b2 & 0x0F == 0x6 ==> post.registers@[REG_VF as int] == shift_source(
            pre,
            b1 & 0x0F,
            b2 >> 4,
        ) & 1,
        b2 & 0x0F == 0x6 && (b1 & 0x0F) != REG_VF ==> post.registers@[(b1 & 0x0F) as int]
            == shift_source(pre, b1 & 0x0F, b2 >> 4) >> 1u8,
        b2 & 0x0F == 0xE ==> post.registers@[REG_VF as int] == (shift_source(
            pre,
            b1 & 0x0F,
            b2 >> 4,
        ) >> 7u8) & 1,
        b2 & 0x0F == 0xE && (b1 & 0x0F) != REG_VF ==> post.registers@[(b1 & 0x0F) as int] == ((
        shift_source(pre, b1 & 0x0F, b2 >> 4) * 2) % 256) as u8,
        !pre.quirks_mode.shift ==> shift_source(pre, b1 & 0x0F, b2 >> 4) == pre.registers@[(b1
            & 0x0F) as int],
        post.registers@.len() == REGISTER_COUNT,
        forall|j: int|
            0 <= j < REGISTER_COUNT && j != (b1 & 0x0F) as int && j != REG_VF
                ==> post.registers@[j] == #[trigger] pre.registers@[j],
        post == (Chip8 { registers: post.registers, ..pre }),
        control_of(pre, b1, b2, keys) == ProgramCounterControl::Next,
{
    assert(b1 & 0x0F < 16 && b2 >> 4 < 16) by (bit_vector);
}

/// Law: the random opcode's result is always a subset of the mask's bits,
/// whatever byte the generator produced; no other register changes, and
/// nothing but the register file and the generator state changes.
pub proof fn lemma_random_masked(pre: Chip8, post: Chip8, b1: u8, b2: u8, keys: u16)
    requires
        pre.wf(),
        b1 >> 4 == 0xC,
        exec_rel(pre, post, b1, b2, keys),
    ensures
        post.registers@[(b1 & 0x0F) as int] & !b2 == 0,
        post.registers@.len() == REGISTER_COUNT,
        forall|j: int|
            0 <= j < REGISTER_COUNT && j != (b1 & 0x0F) as int ==> post.registers@[j]
                == #[trigger] pre.registers@[j],
        post == (Chip8 { registers: post.registers, rng: post.rng, ..pre }),
        control_of(pre, b1, b2, keys) == ProgramCounterControl::Next,
{
    assert(b1 & 0x0F < 16) by (bit_vector);
}

/// A vector of `n` copies of `val`.
fn filled_bytes(val: u8, n: usize) -> (v: Vec<u8>)
    ensures
        v@ == Seq::<u8>::new(n as nat, |i: int| val),
{
    let mut v: Vec<u8> = Vec::new();
    let mut i: usize = 0;
    while i < n
        invariant
            i <= n,
            v@ == Seq::<u8>::new(i as nat, |j: int| val),
        decreases n - i,
    {
        v.push(val);
        i = i + 1;
        proof {
            assert(v@ =~= Seq::<u8>::new(i as nat, |j: int| val));
        }
    }
    v
}

/// A vector of `n` copies of `val`.
fn filled_words(val: u16, n: usize) -> (v: Vec<u16>)
    ensures
        v@ == Seq::<u16>::new(n as nat, |i: int| val),
{
    let mut v: Vec<u16> = Vec::new();
    let mut i: usize = 0;
    while i < n
        invariant
            i <= n,
            v@ == Seq::<u16>::new(i as nat, |j: int| val),
        decreases n - i,
    {
        v.push(val);
        i = i + 1;
        proof {
            assert(v@ =~= Seq::<u16>::new(i as nat, |j: int| val));
        }
    }
    v
}

} // verus!
