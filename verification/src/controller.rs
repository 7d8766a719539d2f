//! NES controller (Famicom standard pad) state.

use vstd::prelude::*;

verus! {

/// Bit-packed state of one controller. `1` = pressed.
///
/// Bit layout matches the order the NES strobe protocol shifts out: A, B,
/// Select, Start, Up, Down, Left, Right.
#[derive(Clone, Copy, Debug, PartialEq, Eq, Structural)]
pub struct ControllerState(pub u8);

/// The byte after setting every bit of `mask`.
pub open spec fn pressed_bits(state: u8, mask: u8) -> u8 {
    state | mask
}

/// The byte after clearing every bit of `mask`.
pub open spec fn released_bits(state: u8, mask: u8) -> u8 {
    state & !mask
}

/// Whether any bit of `mask` is set in `state`.
pub open spec fn any_pressed(state: u8, mask: u8) -> bool {
    state & mask != 0
}

impl ControllerState {
    pub const A: u8 = 0b0000_0001;
    pub const B: u8 = 0b0000_0010;
    pub const SELECT: u8 = 0b0000_0100;
    pub const START: u8 = 0b0000_1000;
    pub const UP: u8 = 0b0001_0000;
    pub const DOWN: u8 = 0b0010_0000;
    pub const LEFT: u8 = 0b0100_0000;
    pub const RIGHT: u8 = 0b1000_0000;

    /// No button pressed.
    pub fn empty() -> (s: Self)
        ensures
            s.0 == 0,
    {
        ControllerState(0)
    }

    /// Whether any of the buttons in `mask` is pressed.
    pub fn pressed(self, mask: u8) -> (b: bool)
        ensures
            b == any_pressed(self.0, mask),
    {
        self.0 & mask != 0
    }

    /// Presses every button in `mask`; the others keep their state.
    pub fn press(&mut self, mask: u8)
        ensures
            final(self).0 == pressed_bits(old(self).0, mask),
    {
        self.0 = self.0 | mask;
    }

    /// Releases every button in `mask`; the others keep their state.
    pub fn release(&mut self, mask: u8)
        ensures
            final(self).0 == released_bits(old(self).0, mask),
    {
        self.0 = self.0 & !mask;
    }
}

impl Default for ControllerState {
    fn default() -> (s: Self)
        ensures
            s.0 == 0,
    {
        ControllerState(0)
    }
}

/// After pressing `mask`, every button of `mask` reads as pressed (when
/// `mask` names at least one button), and no button outside `mask` changed.
pub proof fn lemma_press_sets_only_mask(state: u8, mask: u8, other: u8)
    ensures
        mask != 0 ==> any_pressed(pressed_bits(state, mask), mask),
        other & mask == 0 ==> pressed_bits(state, mask) & other == state & other,
{
    assert(mask != 0 ==> (state | mask) & mask != 0) by (bit_vector);
    assert(other & mask == 0 ==> (state | mask) & other == state & other) by (bit_vector);
}

/// After releasing `mask`, no button of `mask` reads as pressed, and no
/// button outside `mask` changed.
pub proof fn lemma_release_clears_only_mask(state: u8, mask: u8, other: u8)
    ensures
        !any_pressed(released_bits(state, mask), mask),
        other & mask == 0 ==> released_bits(state, mask) & other == state & other,
{
    assert((state & !mask) & mask == 0) by (bit_vector);
    assert(other & mask == 0 ==> (state & !mask) & other == state & other) by (bit_vector);
}

/// Releasing a mask undoes a press of the same mask: the result does not
/// depend on whether the mask was pressed first. Likewise pressing after a
/// release gives the same state as the press alone.
pub proof fn lemma_press_release_cancel(state: u8, mask: u8)
    ensures
        released_bits(pressed_bits(state, mask), mask) == released_bits(state, mask),
        pressed_bits(released_bits(state, mask), mask) == pressed_bits(state, mask),
        pressed_bits(pressed_bits(state, mask), mask) == pressed_bits(state, mask),
        released_bits(released_bits(state, mask), mask) == released_bits(state, mask),
{
    assert((state | mask) & !mask == state & !mask) by (bit_vector);
    assert((state & !mask) | mask == state | mask) by (bit_vector);
    assert((state | mask) | mask == state | mask) by (bit_vector);
    assert((state & !mask) & !mask == state & !mask) by (bit_vector);
}

/// The eight button masks are single bits in strobe order (A is the least
/// significant bit, Right the most significant), pairwise distinct, and
/// together they cover the whole byte.
pub proof fn lemma_button_layout()
    ensures
        ControllerState::A == 1u8 << 0u8,
        ControllerState::B == 1u8 << 1u8,
        ControllerState::SELECT == 1u8 << 2u8,
        ControllerState::START == 1u8 << 3u8,
        ControllerState::UP == 1u8 << 4u8,
        ControllerState::DOWN == 1u8 << 5u8,
        ControllerState::LEFT == 1u8 << 6u8,
        ControllerState::RIGHT == 1u8 << 7u8,
        ControllerState::A | ControllerState::B | ControllerState::SELECT | ControllerState::START
            | ControllerState::UP | ControllerState::DOWN | ControllerState::LEFT
            | ControllerState::RIGHT == 0xffu8,
{
    assert(1u8 << 0u8 == 1u8) by (bit_vector);
    assert(1u8 << 1u8 == 2u8) by (bit_vector);
    assert(1u8 << 2u8 == 4u8) by (bit_vector);
    assert(1u8 << 3u8 == 8u8) by (bit_vector);
    assert(1u8 << 4u8 == 16u8) by (bit_vector);
    assert(1u8 << 5u8 == 32u8) by (bit_vector);
    assert(1u8 << 6u8 == 64u8) by (bit_vector);
    assert(1u8 << 7u8 == 128u8) by (bit_vector);
    assert(1u8 | 2u8 | 4u8 | 8u8 | 16u8 | 32u8 | 64u8 | 128u8 == 0xffu8) by (bit_vector);
}


/// Reading buttons by mask: a mask reads as pressed exactly when at least one
/// of the eight buttons is both in the mask and pressed — whichever one it is.
pub proof fn lemma_pressed_means_some_common_button(state: u8, mask: u8)
    ensures
        any_pressed(state, mask) == (
        ((state & 1u8 != 0) && (mask & 1u8 != 0))
        || ((state & 2u8 != 0) && (mask & 2u8 != 0))
        || ((state & 4u8 != 0) && (mask & 4u8 != 0))
        || ((state & 8u8 != 0) && (mask & 8u8 != 0))
        || ((state & 16u8 != 0) && (mask & 16u8 != 0))
        || ((state & 32u8 != 0) && (mask & 32u8 != 0))
        || ((state & 64u8 != 0) && (mask & 64u8 != 0))
        || ((state & 128u8 != 0) && (mask & 128u8 != 0))),
{
    assert((state & mask != 0) == (
    ((state & 1u8 != 0) && (mask & 1u8 != 0))
    || ((state & 2u8 != 0) && (mask & 2u8 != 0))
    || ((state & 4u8 != 0) && (mask & 4u8 != 0))
    || ((state & 8u8 != 0) && (mask & 8u8 != 0))
    || ((state & 16u8 != 0) && (mask & 16u8 != 0))
    || ((state & 32u8 != 0) && (mask & 32u8 != 0))
    || ((state & 64u8 != 0) && (mask & 64u8 != 0))
    || ((state & 128u8 != 0) && (mask & 128u8 != 0)))) by (bit_vector);
}

/// Button by button (bit `i`, `i < 8`): after a press, a button is held
/// when it was held before or is in the mask; after a release, when it was
/// held before and is not in the mask.
pub proof fn lemma_press_release_per_button(state: u8, mask: u8, i: u8)
    requires
        i < 8,
    ensures
        (pressed_bits(state, mask) >> i) & 1u8 == 1u8 <==> ((state >> i) & 1u8 == 1u8 || (mask
            >> i) & 1u8 == 1u8),
        (released_bits(state, mask) >> i) & 1u8 == 1u8 <==> ((state >> i) & 1u8 == 1u8 && (mask
            >> i) & 1u8 == 0u8),
{
    assert(i < 8 ==> (((state | mask) >> i) & 1u8 == 1u8 <==> ((state >> i) & 1u8 == 1u8 || (mask
        >> i) & 1u8 == 1u8))) by (bit_vector);
    assert(i < 8 ==> (((state & !mask) >> i) & 1u8 == 1u8 <==> ((state >> i) & 1u8 == 1u8 && (mask
        >> i) & 1u8 == 0u8))) by (bit_vector);
}

} // verus!
