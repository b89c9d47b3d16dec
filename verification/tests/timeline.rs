use retime::player::{control, Action, State, Vec3Bits};
use retime::time::{replay, rewind, update_stack, update_stacks, Error, Stack, STACK_MAX_SIZE};

fn act(k: u32) -> Action {
    Action {
        torque_move: Vec3Bits { x: k, y: 0, z: k },
        torque_rotate: Vec3Bits { x: 0, y: k, z: 0 },
    }
}

#[test]
fn capacity_eviction() {
    let mut buffer: Vec<Option<u64>> = Vec::new();
    for k in 0..901u64 {
        update_stack(&mut buffer, Some(k), 0);
        assert!(buffer.len() <= STACK_MAX_SIZE);
    }
    assert_eq!(buffer.len(), STACK_MAX_SIZE);
    // newest first; the oldest recorded value (0) was evicted first
    assert_eq!(buffer[0], Some(900));
    assert_eq!(buffer[STACK_MAX_SIZE - 1], Some(1));
}

#[test]
fn overwrite_keeps_length() {
    let mut buffer: Vec<Option<u64>> = Vec::new();
    update_stack(&mut buffer, Some(10), 0);
    update_stack(&mut buffer, Some(11), 0);
    update_stack(&mut buffer, Some(77), 2);
    assert_eq!(buffer.len(), 2);
    assert_eq!(buffer[0], Some(11));
    assert_eq!(buffer[1], Some(77));
}

#[test]
fn get_out_of_range() {
    let mut stack: Stack<u64> = Stack::default();
    assert_eq!(stack.get(0), Err(Error::OutOfRange));
    let mut players: Vec<State> = vec![State::default()];
    replay(&mut stack, &mut players);
    update_stacks(&mut stack, Some(5), &mut players, false);
    assert_eq!(stack.get(0), Ok(&Some(5)));
    assert_eq!(stack.get(1), Err(Error::OutOfRange));
}

#[test]
fn scenario_budget_exhausted() {
    // with no unlocked depth, activating the rewind input changes nothing
    let mut stack: Stack<u64> = Stack::new();
    let mut players: Vec<State> = vec![State::default()];
    for k in 0..10u64 {
        replay(&mut stack, &mut players);
        update_stacks(&mut stack, Some(k), &mut players, false);
    }
    assert_eq!(stack.index_max, 0);
    replay(&mut stack, &mut players);
    let begin = update_stacks(&mut stack, Some(10), &mut players, true);
    assert!(!begin);
    assert_eq!(stack.index, 0);
    assert_eq!(stack.di, 0);
}

#[test]
fn scenario_full_rewind_auto_exit() {
    // grant 450 ticks, fill the whole 900-slot history, hold the rewind
    // input: the session consumes all 450 ticks and exits on its own
    let mut stack: Stack<u64> = Stack::new();
    let mut players: Vec<State> = vec![State::default()];
    stack.grant(450);
    let mut begin = false;
    for k in 0..900u64 {
        replay(&mut stack, &mut players);
        begin = update_stacks(&mut stack, Some(k), &mut players, k == 899);
    }
    assert!(begin);
    assert_eq!(stack.physics_state.len(), 900);

    let mut steps = 0usize;
    loop {
        let (restore, exit) = rewind(&mut stack, false, true);
        steps += 1;
        assert_eq!(restore, steps - 1);
        if exit {
            break;
        }
    }
    assert_eq!(steps, 450);
    assert_eq!(stack.index, 450);
    assert_eq!(stack.index_max, 0);
    assert_eq!(stack.di, 0);
}

#[test]
fn scenario_release_and_replay() {
    // record 20 ticks of distinct actions, rewind 10, release: over the next
    // ticks the cursor returns to 0 and each replayed tick performs exactly
    // the action that was recorded for it
    let mut stack: Stack<u64> = Stack::new();
    let mut players: Vec<State> = vec![State::default()];
    stack.grant(450);
    for k in 0..20u32 {
        replay(&mut stack, &mut players);
        control(&mut players[0], &mut stack, Some(act(k)));
        update_stacks(&mut stack, Some(k as u64), &mut players, k == 19);
    }
    assert_eq!(stack.count, 20);

    for j in 1..=10usize {
        let (_, exit) = rewind(&mut stack, j == 10, true);
        assert_eq!(exit, j == 10);
    }
    assert_eq!(stack.index, 10);
    assert_eq!(stack.index_max, 440);

    for t in 1..=10u32 {
        replay(&mut stack, &mut players);
        let applied = control(&mut players[0], &mut stack, None);
        update_stacks(&mut stack, Some(100 + t as u64), &mut players, false);
        if t <= 9 {
            // the ghost action of the re-simulated tick
            assert_eq!(applied, act(10 + t));
        } else {
            // past the recorded actions: idle
            assert_eq!(applied, Action::zero());
        }
    }
    assert_eq!(stack.index, 0);
}

#[test]
fn scenario_override_cuts_branch() {
    // during replay, fresh input for the actor discards its recorded future
    // up to the cursor; rewinding back past the override then replaying
    // forward performs the new action, not the original one
    let mut stack: Stack<u64> = Stack::new();
    let mut players: Vec<State> = vec![State::default()];
    stack.grant(450);
    for k in 0..20u32 {
        replay(&mut stack, &mut players);
        control(&mut players[0], &mut stack, Some(act(k)));
        update_stacks(&mut stack, Some(k as u64), &mut players, k == 19);
    }
    for j in 1..=5usize {
        let (_, exit) = rewind(&mut stack, j == 5, true);
        assert_eq!(exit, j == 5);
    }
    assert_eq!(stack.index, 5);

    // replay one tick with fresh input: the branch is cut
    let fresh = act(777);
    replay(&mut stack, &mut players);
    assert_eq!(stack.index, 4);
    let applied = control(&mut players[0], &mut stack, Some(fresh));
    assert_eq!(applied, fresh);
    assert_eq!(stack.index_cleared, 4);
    update_stacks(&mut stack, Some(200), &mut players, false);

    // slots below the cut hold no action any more; the override itself was
    // recorded at the cursor; everything above the cut is untouched
    assert_eq!(players[0].action_stack[0], None);
    assert_eq!(players[0].action_stack[1], None);
    assert_eq!(players[0].action_stack[2], None);
    assert_eq!(players[0].action_stack[3], Some(fresh));
    assert_eq!(players[0].action_stack[4], Some(act(15)));
    // the snapshot history was overwritten at the cursor, not extended
    assert_eq!(stack.physics_state.len(), 20);
    assert_eq!(stack.get(3), Ok(&Some(200)));

    // rewind back past the override and replay: the new action plays
    let (_, exit) = rewind(&mut stack, true, true);
    assert!(exit);
    assert_eq!(stack.index, 5);
    replay(&mut stack, &mut players);
    let replayed = control(&mut players[0], &mut stack, None);
    assert_eq!(replayed, fresh);
    update_stacks(&mut stack, Some(201), &mut players, false);

    // and the cleared slots replay as idle
    replay(&mut stack, &mut players);
    let idle = control(&mut players[0], &mut stack, None);
    assert_eq!(idle, Action::zero());
}

#[test]
fn budget_conservation() {
    // a session consuming k of M unlocked ticks leaves M - k; a grant of g
    // afterwards leaves M - k + g
    let mut stack: Stack<u64> = Stack::new();
    let mut players: Vec<State> = vec![State::default()];
    stack.grant(7);
    for k in 0..10u64 {
        replay(&mut stack, &mut players);
        update_stacks(&mut stack, Some(k), &mut players, k == 9);
    }
    for j in 1..=3usize {
        rewind(&mut stack, j == 3, true);
    }
    assert_eq!(stack.index_max, 4);
    assert_eq!(stack.di, 0);
    stack.grant(5);
    assert_eq!(stack.index_max, 9);
}

#[test]
fn restore_fidelity() {
    // rewinding n steps restores the snapshot captured n ticks ago
    let mut stack: Stack<u64> = Stack::new();
    let mut players: Vec<State> = vec![State::default()];
    stack.grant(100);
    for k in 1..=5u64 {
        replay(&mut stack, &mut players);
        update_stacks(&mut stack, Some(k), &mut players, k == 5);
    }
    let mut restored: Option<u64> = None;
    for j in 1..=3usize {
        let (slot, _) = rewind(&mut stack, j == 3, true);
        restored = stack.get(slot).unwrap().clone();
    }
    assert_eq!(restored, Some(3));
}

#[test]
fn override_is_idempotent_at_same_cursor() {
    // a second override at the same cursor position cuts nothing further
    let mut stack: Stack<u64> = Stack::new();
    let mut players: Vec<State> = vec![State::default()];
    stack.grant(100);
    for k in 0..8u32 {
        replay(&mut stack, &mut players);
        control(&mut players[0], &mut stack, Some(act(k)));
        update_stacks(&mut stack, Some(k as u64), &mut players, k == 7);
    }
    for j in 1..=4usize {
        rewind(&mut stack, j == 4, true);
    }
    replay(&mut stack, &mut players);
    control(&mut players[0], &mut stack, Some(act(50)));
    let after_first: Vec<Option<Action>> = players[0].action_stack.clone();
    let cleared_first = stack.index_cleared;
    control(&mut players[0], &mut stack, Some(act(50)));
    assert_eq!(players[0].action_stack, after_first);
    assert_eq!(stack.index_cleared, cleared_first);
}
