//! Keyboard input: the shared key-level cell the host threads exchange,
//! and the mapping from host keyboard keys to the 16-key keypad bitmask.

use vstd::prelude::*;
use std::sync::Arc;
use std::sync::Mutex;

verus! {

/// The cell a host's input thread writes and its simulation thread reads:
/// the current 16-bit key-level bitmask behind a mutex.  Its contents are
/// opaque here; the engine only ever receives the bitmask as an argument.
#[verifier::external_type_specification]
#[verifier::external_body]
#[verifier::reject_recursive_types(T)]
pub struct ExMutex<T: ?Sized>(Mutex<T>);

/// Relies on std::sync::Mutex::new: a new mutex holding the given value.
#[verifier::external_body]
fn new_key_mutex(v: u16) -> (r: Mutex<u16>) {
    Mutex::new(v)
}

/// A host keyboard key of the 4-by-4 layout mapped onto the keypad, or any
/// other key.
#[derive(Clone, Copy, Debug, PartialEq, Eq, Structural)]
pub enum HostKey {
    Num1,
    Num2,
    Num3,
    Num4,
    Q,
    W,
    E,
    R,
    A,
    S,
    D,
    F,
    Z,
    X,
    C,
    V,
    Other,
}

/// The keypad bit a host key holds down; keys outside the layout hold none.
pub open spec fn key_mask(k: HostKey) -> u16 {
    match k {
        HostKey::Num1 => 1u16 << 0x1,
        HostKey::Num2 => 1u16 << 0x2,
        HostKey::Num3 => 1u16 << 0x3,
        HostKey::Num4 => 1u16 << 0xC,
        HostKey::Q => 1u16 << 0x4,
        HostKey::W => 1u16 << 0x5,
        HostKey::E => 1u16 << 0x6,
        HostKey::R => 1u16 << 0xD,
        HostKey::A => 1u16 << 0x7,
        HostKey::S => 1u16 << 0x8,
        HostKey::D => 1u16 << 0x9,
        HostKey::F => 1u16 << 0xE,
        HostKey::Z => 1u16 << 0xA,
        HostKey::X => 1u16 << 0x0,
        HostKey::C => 1u16 << 0xB,
        HostKey::V => 1u16 << 0xF,
        HostKey::Other => 0u16,
    }
}

/// The keypad bitmask of a set of held keys: the union of their bits.
pub open spec fn keys_mask(s: Seq<HostKey>) -> u16
    decreases s.len(),
{
    if s.len() == 0 {
        0u16
    } else {
        keys_mask(s.drop_last()) | key_mask(s.last())
    }
}

/// The shared key-level cell between the GUI thread (writer) and the
/// simulation thread (reader).
pub struct InputDriver {
    pub keys: Arc<Mutex<u16>>,
}

impl InputDriver {
    /// A fresh driver with no key held.
    pub fn new() -> InputDriver {
        InputDriver { keys: Arc::new(new_key_mutex(0u16)) }
    }

    /// Folds the keys currently held down into the 16-bit keypad bitmask
    /// the engine consumes: the union of each held key's bit.
    pub fn convert_keys(hs: &Vec<HostKey>) -> (out: u16)
        ensures
            out == keys_mask(hs@),
    {
        let mut out: u16 = 0;
        let mut i: usize = 0;
        while i < hs.len()
            invariant
                i <= hs@.len(),
                out == keys_mask(hs@.take(i as int)),
            decreases hs@.len() - i,
        {
            let bit = match hs[i] {
                HostKey::Num1 => 1u16 << 0x1u16,
                HostKey::Num2 => 1u16 << 0x2u16,
                HostKey::Num3 => 1u16 << 0x3u16,
                HostKey::Num4 => 1u16 << 0xCu16,
                HostKey::Q => 1u16 << 0x4u16,
                HostKey::W => 1u16 << 0x5u16,
                HostKey::E => 1u16 << 0x6u16,
                HostKey::R => 1u16 << 0xDu16,
                HostKey::A => 1u16 << 0x7u16,
                HostKey::S => 1u16 << 0x8u16,
                HostKey::D => 1u16 << 0x9u16,
                HostKey::F => 1u16 << 0xEu16,
                HostKey::Z => 1u16 << 0xAu16,
                HostKey::X => 1u16 << 0x0u16,
                HostKey::C => 1u16 << 0xBu16,
                HostKey::V => 1u16 << 0xFu16,
                HostKey::Other => 0u16,
            };
            out = out | bit;
            i = i + 1;
            proof {
                assert(hs@.take(i as int).drop_last() =~= hs@.take(i as int - 1));
                assert(hs@.take(i as int).last() == hs@[i as int - 1]);
            }
        }
        proof {
            assert(hs@.take(hs@.len() as int) =~= hs@);
        }
        out
    }
}

} // verus!
