//! The commands the sound-state consumer understands.  The tone generator
//! itself is host I/O and lives outside the library; it receives these
//! commands over a channel as the host observes the engine's sound flag.

use vstd::prelude::*;

verus! {

/// One command to the tone generator: start the tone, stop it, or shut the
/// generator down.
pub enum BeepInstructions {
    Play,
    Pause,
    Stop,
}

} // verus!
