//! Terminal renderers for NES frames.
//!
//! The [`Renderer`] trait is the abstraction that the frontend talks to;
//! [`crate::halfblock::HalfblockRenderer`] is the halfblock implementation.

use vstd::prelude::*;
use crate::frame::Frame;

verus! {

pub trait Renderer {
    /// Enter alternate screen / raw mode / hide cursor.
    /// Implementations not attached to a terminal (e.g. test sinks) may no-op.
    fn enter(&mut self) -> Result<(), std::io::Error>;

    /// Draw a single frame.
    fn draw(&mut self, frame: &Frame) -> Result<(), std::io::Error>;

    /// Restore terminal state. Must be safe to call multiple times.
    fn leave(&mut self) -> Result<(), std::io::Error>;
}


/// Whether a renderer has put the terminal into its drawing state (raw mode,
/// alternate screen, hidden cursor) and still has to restore it. Only a
/// renderer attached to the real terminal claims it; restoring happens at
/// most once.
pub struct TerminalClaim {
    owned: bool,
}

impl TerminalClaim {
    /// Whether the terminal state is still to be restored.
    pub closed spec fn is_owned(&self) -> bool {
        self.owned
    }

    /// The claim of a renderer that manages the terminal.
    pub fn managing() -> (c: Self)
        ensures
            c.is_owned(),
    {
        TerminalClaim { owned: true }
    }

    /// The claim of a renderer writing to a plain sink: it never touches
    /// terminal state.
    pub fn unmanaged() -> (c: Self)
        ensures
            !c.is_owned(),
    {
        TerminalClaim { owned: false }
    }

    /// Whether entering should set up the terminal.
    pub fn owns(&self) -> (b: bool)
        ensures
            b == self.is_owned(),
    {
        self.owned
    }

    /// Gives the claim up: returns whether the terminal has to be restored
    /// now. Only the first call after a managing start answers `true`; every
    /// later call answers `false`, so leaving twice never toggles twice.
    pub fn release(&mut self) -> (restore: bool)
        ensures
            restore == old(self).is_owned(),
            !final(self).is_owned(),
    {
        let restore = self.owned;
        self.owned = false;
        restore
    }
}

} // verus!
