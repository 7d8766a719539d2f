//! Keyboard input mapping: which terminal key events press which NES
//! buttons, and which ones reset or quit.

use vstd::prelude::*;
use crate::controller::{pressed_bits, ControllerState};

verus! {

/// The keys the frontend tells apart.
#[derive(Clone, Copy, Debug, PartialEq, Eq, Structural)]
pub enum KeyCode {
    Esc,
    Char(char),
    Up,
    Down,
    Left,
    Right,
    Enter,
    Tab,
    /// Any other key.
    Other,
}

/// Whether a key went down, auto-repeated, or went up.
#[derive(Clone, Copy, Debug, PartialEq, Eq, Structural)]
pub enum KeyEventKind {
    Press,
    Repeat,
    Release,
}

/// One key event: the key, whether Ctrl was held, and its kind.
#[derive(Clone, Copy, Debug, PartialEq, Eq, Structural)]
pub struct KeyEvent {
    pub code: KeyCode,
    pub ctrl: bool,
    pub kind: KeyEventKind,
}

/// A terminal event: a key, or anything else (focus, mouse, resize, paste).
#[derive(Clone, Copy, Debug, PartialEq, Eq, Structural)]
pub enum Event {
    Key(KeyEvent),
    Other,
}

/// Outcome of polling input for a frame.
#[derive(Clone, Copy, Debug, PartialEq, Eq, Structural)]
pub enum PollOutcome {
    Reset,
    Quit,
}

/// The key event that counts, if any: presses and repeats do, releases and
/// non-key events do not.
pub open spec fn accepted_key(ev: Event) -> Option<KeyEvent> {
    match ev {
        Event::Key(k) => match k.kind {
            KeyEventKind::Press | KeyEventKind::Repeat => Some(k),
            KeyEventKind::Release => None,
        },
        Event::Other => None,
    }
}

/// Ctrl+C, Esc quit; `r` / `R` resets.
pub open spec fn event_outcome(ev: Event) -> Option<PollOutcome> {
    match accepted_key(ev) {
        None => None,
        Some(k) => if k.ctrl && (k.code == KeyCode::Char('c') || k.code == KeyCode::Char('C')) {
            Some(PollOutcome::Quit)
        } else {
            match k.code {
                KeyCode::Esc => Some(PollOutcome::Quit),
                KeyCode::Char(c) => if c == 'r' || c == 'R' {
                    Some(PollOutcome::Reset)
                } else {
                    None
                },
                _ => None,
            }
        },
    }
}

/// The NES button a key stands for (Mednafen-style layout, Tab as Select),
/// or `0` for a key that presses none.
pub open spec fn key_button(code: KeyCode) -> u8 {
    match code {
        KeyCode::Up => ControllerState::UP,
        KeyCode::Down => ControllerState::DOWN,
        KeyCode::Left => ControllerState::LEFT,
        KeyCode::Right => ControllerState::RIGHT,
        KeyCode::Char(c) => if c == 'z' || c == 'Z' {
            ControllerState::B
        } else if c == 'x' || c == 'X' {
            ControllerState::A
        } else {
            0
        },
        KeyCode::Enter => ControllerState::START,
        KeyCode::Tab => ControllerState::SELECT,
        _ => 0,
    }
}

/// The buttons an event presses: none for ignored events and for events
/// that decide a reset or quit.
pub open spec fn event_buttons(ev: Event) -> u8 {
    match accepted_key(ev) {
        None => 0,
        Some(k) => if event_outcome(ev) is Some {
            0
        } else {
            key_button(k.code)
        },
    }
}

/// State carried across frames: which buttons are currently considered "held".
pub struct Input {
    p1: ControllerState,
}

impl Input {
    /// The held-button mask.
    pub closed spec fn held(&self) -> u8 {
        self.p1.0
    }

    /// No button held.
    pub fn new() -> (i: Self)
        ensures
            i.held() == 0,
    {
        Input { p1: ControllerState::empty() }
    }

    /// Apply a single event. Returns `Some(outcome)` if the event produced a
    /// runloop-level decision (Reset / Quit); otherwise `None`, meaning
    /// "state updated, keep looping". Buttons are only ever added, never
    /// released, by an event.
    pub fn handle_event(&mut self, ev: &Event) -> (r: Option<PollOutcome>)
        ensures
            r == event_outcome(*ev),
            final(self).held() == pressed_bits(old(self).held(), event_buttons(*ev)),
    {
        proof {
            lemma_or_zero(self.p1.0);
        }
        let k = match ev {
            Event::Key(k) => k,
            Event::Other => {
                return None;
            },
        };
        match k.kind {
            KeyEventKind::Press | KeyEventKind::Repeat => {},
            KeyEventKind::Release => {
                return None;
            },
        }
        // Ctrl+C — quit regardless of the other keys' meaning.
        if k.ctrl && (k.code == KeyCode::Char('c') || k.code == KeyCode::Char('C')) {
            return Some(PollOutcome::Quit);
        }
        match k.code {
            KeyCode::Esc => {
                return Some(PollOutcome::Quit);
            },
            KeyCode::Char(c) => {
                if c == 'r' || c == 'R' {
                    return Some(PollOutcome::Reset);
                } else if c == 'z' || c == 'Z' {
                    self.p1.press(ControllerState::B);
                } else if c == 'x' || c == 'X' {
                    self.p1.press(ControllerState::A);
                }
            },
            KeyCode::Up => self.p1.press(ControllerState::UP),
            KeyCode::Down => self.p1.press(ControllerState::DOWN),
            KeyCode::Left => self.p1.press(ControllerState::LEFT),
            KeyCode::Right => self.p1.press(ControllerState::RIGHT),
            KeyCode::Enter => self.p1.press(ControllerState::START),
            // Right Shift has no key code of its own in a plain terminal, so
            // Tab stands for Select.
            KeyCode::Tab => self.p1.press(ControllerState::SELECT),
            KeyCode::Other => {},
        }
        None
    }

    /// Reset the held-button mask. Call once per frame *before* draining events.
    pub fn begin_frame(&mut self)
        ensures
            final(self).held() == 0,
    {
        self.p1 = ControllerState::empty();
    }

    /// Snapshot the current pressed-button mask for submission to the backend.
    pub fn p1(&self) -> (s: ControllerState)
        ensures
            s.0 == self.held(),
    {
        self.p1
    }
}

impl Default for Input {
    fn default() -> (i: Self)
        ensures
            i.held() == 0,
    {
        Input::new()
    }
}

/// The event for `code` with the given Ctrl state and kind.
pub open spec fn key_event(code: KeyCode, ctrl: bool, kind: KeyEventKind) -> Event {
    Event::Key(KeyEvent { code, ctrl, kind })
}

/// The key table, written with the NES button bits (A = 1, B = 2,
/// Select = 4, Start = 8, Up = 16, Down = 32, Left = 64, Right = 128). For
/// a press or a repeat, with or without Ctrl: `x`/`X` press A, `z`/`Z`
/// press B, Tab presses Select, Enter presses Start, the arrows press the
/// d-pad, and none of these decides anything; Esc quits; `r`/`R` resets;
/// `c`/`C` quits with Ctrl and does nothing without it; any other key does
/// nothing. A release, or an event that is not a key, does nothing.
pub proof fn lemma_key_table(ctrl: bool, kind: KeyEventKind, c: char, code: KeyCode)
    ensures
        kind != KeyEventKind::Release ==> {
            &&& event_buttons(key_event(KeyCode::Char('x'), ctrl, kind)) == 1
            &&& event_buttons(key_event(KeyCode::Char('X'), ctrl, kind)) == 1
            &&& event_buttons(key_event(KeyCode::Char('z'), ctrl, kind)) == 2
            &&& event_buttons(key_event(KeyCode::Char('Z'), ctrl, kind)) == 2
            &&& event_buttons(key_event(KeyCode::Tab, ctrl, kind)) == 4
            &&& event_buttons(key_event(KeyCode::Enter, ctrl, kind)) == 8
            &&& event_buttons(key_event(KeyCode::Up, ctrl, kind)) == 16
            &&& event_buttons(key_event(KeyCode::Down, ctrl, kind)) == 32
            &&& event_buttons(key_event(KeyCode::Left, ctrl, kind)) == 64
            &&& event_buttons(key_event(KeyCode::Right, ctrl, kind)) == 128
            &&& event_outcome(key_event(KeyCode::Char('x'), ctrl, kind)) is None
            &&& event_outcome(key_event(KeyCode::Char('X'), ctrl, kind)) is None
            &&& event_outcome(key_event(KeyCode::Char('z'), ctrl, kind)) is None
            &&& event_outcome(key_event(KeyCode::Char('Z'), ctrl, kind)) is None
            &&& event_outcome(key_event(KeyCode::Tab, ctrl, kind)) is None
            &&& event_outcome(key_event(KeyCode::Enter, ctrl, kind)) is None
            &&& event_outcome(key_event(KeyCode::Up, ctrl, kind)) is None
            &&& event_outcome(key_event(KeyCode::Down, ctrl, kind)) is None
            &&& event_outcome(key_event(KeyCode::Left, ctrl, kind)) is None
            &&& event_outcome(key_event(KeyCode::Right, ctrl, kind)) is None
            &&& event_outcome(key_event(KeyCode::Esc, ctrl, kind)) == Some(PollOutcome::Quit)
            &&& event_buttons(key_event(KeyCode::Esc, ctrl, kind)) == 0
            &&& event_outcome(key_event(KeyCode::Char('r'), ctrl, kind)) == Some(PollOutcome::Reset)
            &&& event_outcome(key_event(KeyCode::Char('R'), ctrl, kind)) == Some(PollOutcome::Reset)
            &&& event_buttons(key_event(KeyCode::Char('r'), ctrl, kind)) == 0
            &&& event_buttons(key_event(KeyCode::Char('R'), ctrl, kind)) == 0
            &&& event_outcome(key_event(KeyCode::Char('c'), ctrl, kind)) == if ctrl {
                Some(PollOutcome::Quit)
            } else {
                None
            }
            &&& event_outcome(key_event(KeyCode::Char('C'), ctrl, kind)) == if ctrl {
                Some(PollOutcome::Quit)
            } else {
                None
            }
            &&& event_buttons(key_event(KeyCode::Char('c'), ctrl, kind)) == 0
            &&& event_buttons(key_event(KeyCode::Char('C'), ctrl, kind)) == 0
            &&& event_outcome(key_event(KeyCode::Other, ctrl, kind)) is None
            &&& event_buttons(key_event(KeyCode::Other, ctrl, kind)) == 0
            &&& (c != 'x' && c != 'X' && c != 'z' && c != 'Z' && c != 'r' && c != 'R' && c != 'c'
                && c != 'C') ==> event_outcome(key_event(KeyCode::Char(c), ctrl, kind)) is None
                && event_buttons(key_event(KeyCode::Char(c), ctrl, kind)) == 0
        },
        event_outcome(key_event(code, ctrl, KeyEventKind::Release)) is None,
        event_buttons(key_event(code, ctrl, KeyEventKind::Release)) == 0,
        event_outcome(Event::Other) is None,
        event_buttons(Event::Other) == 0,
{
}

proof fn lemma_or_zero(x: u8)
    ensures
        x | 0u8 == x,
{
    assert(x | 0u8 == x) by (bit_vector);
}

/// An event never releases a button: every button held before is still
/// held after, and ignored events (releases, non-key events) change nothing.
pub proof fn lemma_events_only_add_buttons(held: u8, ev: Event)
    ensures
        pressed_bits(held, event_buttons(ev)) & held == held,
        accepted_key(ev) is None ==> pressed_bits(held, event_buttons(ev)) == held
            && event_outcome(ev) is None,
{
    let m = event_buttons(ev);
    assert((held | m) & held == held) by (bit_vector);
    assert(held | 0u8 == held) by (bit_vector);
}

} // verus!
