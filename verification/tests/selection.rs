use retime::camera::{activate, cycle, deactivate};
use retime::time::ActionableObject;

fn obj(active: bool, selected: bool, is_player: bool) -> ActionableObject {
    ActionableObject {
        active,
        selected,
        is_player,
        tile_texture_name: if is_player { "player" } else { "trampoline" },
    }
}

fn selected_of(objects: &Vec<ActionableObject>) -> usize {
    let picked: Vec<usize> = (0..objects.len()).filter(|&i| objects[i].selected).collect();
    assert_eq!(picked.len(), 1, "exactly one candidate must be selected");
    picked[0]
}

#[test]
fn cycle_skips_inactive_and_wraps() {
    // player (0, selected), inactive trampoline (1), active trampoline (2)
    let mut objects = vec![obj(true, true, true), obj(false, false, false), obj(true, false, false)];
    cycle(&mut objects, false);
    assert_eq!(selected_of(&objects), 2);
    // wraps past the end back to the player
    cycle(&mut objects, false);
    assert_eq!(selected_of(&objects), 0);
}

#[test]
fn cycle_backward_picks_previous() {
    let mut objects = vec![obj(true, false, true), obj(true, false, false), obj(true, true, false)];
    cycle(&mut objects, true);
    assert_eq!(selected_of(&objects), 1);
    cycle(&mut objects, true);
    assert_eq!(selected_of(&objects), 0);
    // and backward from the front wraps to the back
    cycle(&mut objects, true);
    assert_eq!(selected_of(&objects), 2);
}

#[test]
fn cycle_falls_back_to_player() {
    // no other candidate is active: the selection lands on the player, even
    // though the player is not "active" as a candidate
    let mut objects = vec![obj(false, false, true), obj(false, true, false), obj(false, false, false)];
    cycle(&mut objects, false);
    assert_eq!(selected_of(&objects), 0);
    assert!(objects[0].is_player);
}

#[test]
fn activate_extends_the_cycle() {
    let mut objects = vec![obj(true, true, true), obj(false, false, false)];
    cycle(&mut objects, false);
    assert_eq!(selected_of(&objects), 0, "inactive candidate must be skipped");
    activate(&mut objects, 1);
    cycle(&mut objects, false);
    assert_eq!(selected_of(&objects), 1);
}

#[test]
fn deactivating_selected_cycles_away() {
    let mut objects = vec![obj(true, false, true), obj(true, true, false), obj(true, false, false)];
    deactivate(&mut objects, 1);
    assert_eq!(selected_of(&objects), 2);
    assert!(!objects[1].active);
    // deactivating an unselected candidate moves nothing
    deactivate(&mut objects, 1);
    assert_eq!(selected_of(&objects), 2);
}

#[test]
fn selection_invariant_holds_through_any_ops() {
    let mut objects = vec![
        obj(true, true, true),
        obj(false, false, false),
        obj(true, false, false),
        obj(false, false, false),
    ];
    cycle(&mut objects, false);
    activate(&mut objects, 1);
    cycle(&mut objects, true);
    deactivate(&mut objects, 2);
    activate(&mut objects, 3);
    cycle(&mut objects, false);
    deactivate(&mut objects, 3);
    deactivate(&mut objects, 1);
    // exactly one candidate is selected and it is active or the player
    let s = selected_of(&objects);
    assert!(objects[s].active || objects[s].is_player);
}
