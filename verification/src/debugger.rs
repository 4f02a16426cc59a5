//! The commands a debugger front-end sends to the simulation thread.

use vstd::prelude::*;

verus! {

/// One debugger command: single-step one tick, run one frame step, reset
/// the machine, or reset and load the program at the given path.
pub enum DebugInstructions {
    Step,
    Frame,
    Reset,
    Reload(String),
}

} // verus!
