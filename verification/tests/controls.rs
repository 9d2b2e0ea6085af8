use multiplayer_fps::controls::{
    fps_counter_visibility, movement_intent, CounterVisibility, MovementIntent, MovementKeys,
};

fn keys(forward: bool, back: bool, strafe_left: bool, strafe_right: bool, turn_left: bool, turn_right: bool) -> MovementKeys {
    MovementKeys { forward, back, strafe_left, strafe_right, turn_left, turn_right }
}

#[test]
fn no_keys_no_movement() {
    let m = movement_intent(keys(false, false, false, false, false, false));
    assert_eq!(m, MovementIntent { forward: 0, right: 0, turn_left: 0 });
}

#[test]
fn single_keys_move_along_their_axis() {
    assert_eq!(movement_intent(keys(true, false, false, false, false, false)).forward, 1);
    assert_eq!(movement_intent(keys(false, true, false, false, false, false)).forward, -1);
    assert_eq!(movement_intent(keys(false, false, true, false, false, false)).right, -1);
    assert_eq!(movement_intent(keys(false, false, false, true, false, false)).right, 1);
    assert_eq!(movement_intent(keys(false, false, false, false, true, false)).turn_left, 1);
    assert_eq!(movement_intent(keys(false, false, false, false, false, true)).turn_left, -1);
}

#[test]
fn opposite_keys_cancel() {
    let m = movement_intent(keys(true, true, true, true, true, true));
    assert_eq!(m, MovementIntent { forward: 0, right: 0, turn_left: 0 });
}

#[test]
fn diagonal_movement() {
    let m = movement_intent(keys(true, false, false, true, true, false));
    assert_eq!(m, MovementIntent { forward: 1, right: 1, turn_left: 1 });
}

#[test]
fn mirrored_keys_reverse_the_movement() {
    let k = keys(true, false, true, false, false, true);
    let mirror = keys(false, true, false, true, true, false);
    let a = movement_intent(k);
    let b = movement_intent(mirror);
    assert_eq!((b.forward, b.right, b.turn_left), (-a.forward, -a.right, -a.turn_left));
}

#[test]
fn toggle_shows_a_hidden_counter() {
    assert_eq!(fps_counter_visibility(CounterVisibility::Hidden, true), CounterVisibility::Visible);
}

#[test]
fn toggle_hides_a_shown_counter() {
    assert_eq!(fps_counter_visibility(CounterVisibility::Visible, true), CounterVisibility::Hidden);
    assert_eq!(fps_counter_visibility(CounterVisibility::Inherited, true), CounterVisibility::Hidden);
}

#[test]
fn no_press_keeps_visibility() {
    for v in [CounterVisibility::Inherited, CounterVisibility::Hidden, CounterVisibility::Visible] {
        assert_eq!(fps_counter_visibility(v, false), v);
    }
}

#[test]
fn two_presses_restore_explicit_visibility() {
    for v in [CounterVisibility::Hidden, CounterVisibility::Visible] {
        let once = fps_counter_visibility(v, true);
        assert_ne!(once, v);
        assert_eq!(fps_counter_visibility(once, true), v);
    }
    let from_inherited = fps_counter_visibility(CounterVisibility::Inherited, true);
    assert_eq!(fps_counter_visibility(from_inherited, true), CounterVisibility::Visible);
}
