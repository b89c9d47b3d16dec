use retime::player::State;
use retime::time::{replay, rewind, update_stacks, Stack};
use retime::time_capsule;
use retime::ui::{clock_fractions, State as UiState, WindowMode};

#[test]
fn capsule_grants_half_a_stack() {
    let mut stack: Stack<u64> = Stack::new();
    assert!(!time_capsule::control(&mut stack, false));
    assert_eq!(stack.index_max, 0);
    assert!(time_capsule::control(&mut stack, true));
    assert_eq!(stack.index_max, 450);
    assert!(time_capsule::control(&mut stack, true));
    assert_eq!(stack.index_max, 900);
    // at a full stack of depth, further capsules have no effect
    assert!(!time_capsule::control(&mut stack, true));
    assert_eq!(stack.index_max, 900);
}

#[test]
fn clock_fractions_follow_the_cursor() {
    let mut stack: Stack<u64> = Stack::new();
    let mut players: Vec<State> = vec![State::default()];
    stack.grant(450);
    for k in 0..20u64 {
        replay(&mut stack, &mut players);
        update_stacks(&mut stack, Some(k), &mut players, k == 19);
    }
    assert_eq!(clock_fractions(&stack), (20, 0, 450));
    for j in 1..=5usize {
        rewind(&mut stack, false, true);
        assert_eq!(clock_fractions(&stack), (20, j, 450));
    }
    let (_, exit) = rewind(&mut stack, true, true);
    assert!(exit);
    // the session spent 6 ticks: the reachable depth shrank by them
    assert_eq!(clock_fractions(&stack), (20, 6, 450));
}

#[test]
fn ui_state_defaults() {
    let ui = UiState::default();
    assert!(!ui.show_info_panel);
    assert_eq!(ui.window_mode, WindowMode::Windowed);
}
