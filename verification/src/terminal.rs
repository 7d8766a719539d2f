//! Interactive-mode decisions: whether the terminal is large enough for the
//! halfblock canvas, what each frame of the run loop does, and how long it
//! waits.

use vstd::prelude::*;
use crate::input::PollOutcome;
use crate::text::{append_decimal, dec_chars};

verus! {

/// Minimum terminal columns: the 256-cell-wide halfblock canvas.
pub const MIN_COLS: u16 = 256;
/// Minimum terminal rows: 120 halfblock rows plus one status row.
pub const MIN_ROWS: u16 = 121;

/// The terminal's size in cells, when it cannot hold the canvas.
#[derive(Clone, Copy, Debug, PartialEq, Eq, Structural)]
pub struct TerminalTooSmall {
    pub cols: u16,
    pub rows: u16,
}

/// The message for a terminal of `cols` x `rows` cells.
pub open spec fn too_small_text(cols: u16, rows: u16) -> Seq<char> {
    "terminal too small: "@ + dec_chars(cols as nat) + "×"@ + dec_chars(rows as nat)
        + " cells, need at least "@ + dec_chars(MIN_COLS as nat) + "×"@ + dec_chars(
        MIN_ROWS as nat,
    ) + too_small_advice()
}

/// What the message advises after stating the sizes.
pub open spec fn too_small_advice() -> Seq<char> {
    ".\nResize your terminal (or shrink the font), or use --headless --frames=N for non-interactive testing.\n(Adaptive smaller-terminal modes — braille / ASCII — land in Stage 1.E.)"@
}

impl TerminalTooSmall {
    /// The message shown to the user: the actual and the required size, and
    /// what to do about it.
    pub fn message(&self) -> (s: String)
        ensures
            s@ == too_small_text(self.cols, self.rows),
    {
        let mut s = String::from_str("terminal too small: ");
        append_decimal(&mut s, self.cols as u64);
        s.append("×");
        append_decimal(&mut s, self.rows as u64);
        s.append(" cells, need at least ");
        append_decimal(&mut s, MIN_COLS as u64);
        s.append("×");
        append_decimal(&mut s, MIN_ROWS as u64);
        s.append(
            ".\nResize your terminal (or shrink the font), or use --headless --frames=N for non-interactive testing.\n(Adaptive smaller-terminal modes — braille / ASCII — land in Stage 1.E.)",
        );
        s
    }
}

/// Whether a terminal of `cols` x `rows` cells holds the canvas and the
/// status row.
pub open spec fn fits_canvas(cols: u16, rows: u16) -> bool {
    cols >= MIN_COLS && rows >= MIN_ROWS
}

/// Returns `Err` if the given cell dimensions can't fit the halfblock canvas
/// and status row.
pub fn check_terminal_size(cols: u16, rows: u16) -> (r: Result<(), TerminalTooSmall>)
    ensures
        r is Ok <==> fits_canvas(cols, rows),
        r is Err ==> r == Err::<(), TerminalTooSmall>(TerminalTooSmall { cols, rows }),
{
    if cols < MIN_COLS || rows < MIN_ROWS {
        return Err(TerminalTooSmall { cols, rows });
    }
    Ok(())
}

/// A terminal at least as large as one that fits also fits.
pub proof fn lemma_fits_is_monotone(cols: u16, rows: u16, cols2: u16, rows2: u16)
    requires
        fits_canvas(cols, rows),
        cols2 >= cols,
        rows2 >= rows,
    ensures
        fits_canvas(cols2, rows2),
{
}

/// The canvas needs at least 256 columns and, independently, at least 121
/// rows (120 halfblock rows and a status row): surplus in one dimension
/// never makes up for a shortfall in the other.
pub proof fn lemma_fits_needs_both_dimensions(cols: u16, rows: u16)
    ensures
        fits_canvas(cols, rows) <==> (cols >= 256 && rows >= 121),
        rows < 121 ==> !fits_canvas(cols, rows),
        cols < 256 ==> !fits_canvas(cols, rows),
{
}

/// What one iteration of the interactive loop does after draining input.
#[derive(Clone, Copy, Debug, PartialEq, Eq, Structural)]
pub enum FrameAction {
    /// Leave the loop.
    Quit,
    /// Reset the console, then submit input, step and draw.
    ResetThenStep,
    /// Submit input, step and draw.
    Step,
}

/// The action for the outcome of this frame's input.
pub open spec fn spec_frame_action(control: Option<PollOutcome>) -> FrameAction {
    match control {
        Some(PollOutcome::Quit) => FrameAction::Quit,
        Some(PollOutcome::Reset) => FrameAction::ResetThenStep,
        None => FrameAction::Step,
    }
}

pub fn frame_action(control: Option<PollOutcome>) -> (a: FrameAction)
    ensures
        a == spec_frame_action(control),
{
    match control {
        Some(PollOutcome::Quit) => FrameAction::Quit,
        Some(PollOutcome::Reset) => FrameAction::ResetThenStep,
        None => FrameAction::Step,
    }
}


/// Quit leaves the loop, a reset request resets before stepping, and a
/// frame without a decision just steps.
pub proof fn lemma_frame_action_table()
    ensures
        spec_frame_action(Some(PollOutcome::Quit)) == FrameAction::Quit,
        spec_frame_action(Some(PollOutcome::Reset)) == FrameAction::ResetThenStep,
        spec_frame_action(None) == FrameAction::Step,
{
}

/// NTSC frame period in nanoseconds (~16.639 ms).
pub const FRAME_NANOS: u64 = 16_639_267;

/// How long to wait before the next frame, and the deadline after that one.
#[derive(Clone, Copy, Debug, PartialEq, Eq, Structural)]
pub struct Pacing {
    pub sleep_nanos: u64,
    pub next_deadline: u64,
}

/// Frame pacing on a monotonic clock in nanoseconds: sleep until the
/// deadline if it is still ahead (not at all when late), and move the
/// deadline one frame period on — from the old deadline, not from now, so
/// that a late frame does not shift the schedule.
pub fn pace_frame(deadline: u64, now: u64) -> (p: Pacing)
    requires
        deadline + FRAME_NANOS <= u64::MAX,
    ensures
        p.sleep_nanos == if deadline > now {
            deadline - now
        } else {
            0
        },
        p.next_deadline == deadline + FRAME_NANOS,
{
    let sleep_nanos = if deadline > now {
        deadline - now
    } else {
        0
    };
    Pacing { sleep_nanos, next_deadline: deadline + FRAME_NANOS }
}

} // verus!
