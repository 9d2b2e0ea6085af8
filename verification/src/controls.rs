//! The keyboard controls: how held keys move and turn the player, and how
//! the frame-rate counter is shown and hidden.

use vstd::prelude::*;

verus! {

/// The movement keys that are held this frame.
#[derive(Debug, Clone, Copy, PartialEq, Eq, Structural)]
pub struct MovementKeys {
    /// Move forward (Z on an AZERTY keyboard).
    pub forward: bool,
    /// Move back (S).
    pub back: bool,
    /// Step left (Q).
    pub strafe_left: bool,
    /// Step right (D).
    pub strafe_right: bool,
    /// Turn left (left arrow).
    pub turn_left: bool,
    /// Turn right (right arrow).
    pub turn_right: bool,
}

/// How the held keys move the player this frame, each axis in -1..=1:
/// the step along the facing direction, the step to the right and the turn
/// to the left (about the vertical axis).
#[derive(Debug, Clone, Copy, PartialEq, Eq, Structural)]
pub struct MovementIntent {
    pub forward: i8,
    pub right: i8,
    pub turn_left: i8,
}

/// One axis driven by two opposite keys: +1, -1, or 0 when both or neither are held.
pub open spec fn axis(positive: bool, negative: bool) -> int {
    (if positive { 1int } else { 0int }) - (if negative { 1int } else { 0int })
}

/// The movement that `keys` ask for.
pub open spec fn spec_movement_intent(keys: MovementKeys) -> MovementIntent {
    MovementIntent {
        forward: axis(keys.forward, keys.back) as i8,
        right: axis(keys.strafe_right, keys.strafe_left) as i8,
        turn_left: axis(keys.turn_left, keys.turn_right) as i8,
    }
}

fn key_axis(positive: bool, negative: bool) -> (a: i8)
    ensures
        a == axis(positive, negative),
{
    let p: i8 = if positive { 1 } else { 0 };
    let n: i8 = if negative { 1 } else { 0 };
    p - n
}

/// The movement that `keys` ask for: forward and back, left and right, and
/// the two turns each cancel when both are held.
pub fn movement_intent(keys: MovementKeys) -> (m: MovementIntent)
    ensures
        m == spec_movement_intent(keys),
        m.forward == axis(keys.forward, keys.back),
        m.right == axis(keys.strafe_right, keys.strafe_left),
        m.turn_left == axis(keys.turn_left, keys.turn_right),
{
    MovementIntent {
        forward: key_axis(keys.forward, keys.back),
        right: key_axis(keys.strafe_right, keys.strafe_left),
        turn_left: key_axis(keys.turn_left, keys.turn_right),
    }
}

/// The keys with every pair swapped: back for forward, left for right.
pub open spec fn mirrored(keys: MovementKeys) -> MovementKeys {
    MovementKeys {
        forward: keys.back,
        back: keys.forward,
        strafe_left: keys.strafe_right,
        strafe_right: keys.strafe_left,
        turn_left: keys.turn_right,
        turn_right: keys.turn_left,
    }
}

/// Opposite keys move the player in opposite ways: swapping every pair of
/// keys reverses every axis of the movement.
pub proof fn lemma_mirrored_keys_reverse(keys: MovementKeys)
    ensures
        spec_movement_intent(mirrored(keys)).forward == -spec_movement_intent(keys).forward,
        spec_movement_intent(mirrored(keys)).right == -spec_movement_intent(keys).right,
        spec_movement_intent(mirrored(keys)).turn_left == -spec_movement_intent(keys).turn_left,
{
}

/// Whether the frame-rate counter is drawn, as the engine records it.
#[derive(Debug, Clone, Copy, PartialEq, Eq, Structural)]
pub enum CounterVisibility {
    /// Drawn as its parent is.
    Inherited,
    Hidden,
    Visible,
}

/// One press of the toggle key: a hidden counter is shown, any other hidden.
pub open spec fn spec_toggled(v: CounterVisibility) -> CounterVisibility {
    match v {
        CounterVisibility::Hidden => CounterVisibility::Visible,
        _ => CounterVisibility::Hidden,
    }
}

/// The counter's visibility after this frame: toggled when the toggle key
/// (F12) was just pressed, unchanged otherwise.
pub fn fps_counter_visibility(current: CounterVisibility, toggle_pressed: bool) -> (next:
    CounterVisibility)
    ensures
        next == (if toggle_pressed { spec_toggled(current) } else { current }),
{
    if toggle_pressed {
        match current {
            CounterVisibility::Hidden => CounterVisibility::Visible,
            _ => CounterVisibility::Hidden,
        }
    } else {
        current
    }
}

/// After a press of the toggle key the counter is explicitly shown or hidden.
pub proof fn lemma_toggle_is_explicit(v: CounterVisibility)
    ensures
        spec_toggled(v) != CounterVisibility::Inherited,
{
}

/// Two presses of the toggle key bring an explicitly shown or hidden
/// counter back to where it was.
pub proof fn lemma_toggle_twice(v: CounterVisibility)
    requires
        v != CounterVisibility::Inherited,
    ensures
        spec_toggled(spec_toggled(v)) == v,
{
}

/// A press shows a hidden counter and hides a shown one.
pub proof fn lemma_toggle_flips(v: CounterVisibility)
    requires
        v != CounterVisibility::Inherited,
    ensures
        spec_toggled(v) != v,
{
}

} // verus!
