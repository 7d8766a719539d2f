//! Command-line arguments of the frontend.

use vstd::prelude::*;

verus! {

/// What the user asked for on the command line.
pub struct Args {
    /// Path to a .nes ROM file.
    pub rom: String,
    /// Run `frames` frames headless and print a hash of the final frame buffer.
    pub headless: bool,
    /// Number of frames to step in headless mode. Ignored without `headless`.
    pub frames: u32,
}

} // verus!
