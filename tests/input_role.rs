use wsg_play::input_role::{InputRole, InputRoleMap, InputRoleState};

#[test]
fn held_keys_mark_their_roles() {
    let mut map = InputRoleMap::new();
    map.assign(&[(32, InputRole::Start), (87, InputRole::Up), (38, InputRole::Up), (87, InputRole::Okay)]);
    let mut state = InputRoleState::new();
    map.update_state(87, true);
    state.update_state(&map);
    assert_eq!(state.get(InputRole::Up), (true, 0));
    assert_eq!(state.get(InputRole::Okay), (true, 0));
    assert_eq!(state.get(InputRole::Start), (false, 0));
    state.update_history();
    assert_eq!(state.get(InputRole::Up), (true, 1));
    state.clear_state();
    map.update_state(87, false);
    state.update_state(&map);
    state.update_history();
    assert_eq!(state.get(InputRole::Up), (false, 0b10));
    assert_eq!(state.get(InputRole::Whole), (false, 0b10));
}

#[test]
fn unknown_keys_change_nothing() {
    let mut map = InputRoleMap::new();
    map.assign(&[(1, InputRole::Left)]);
    map.update_state(2, true);
    let mut state = InputRoleState::new();
    state.update_state(&map);
    assert_eq!(state.get(InputRole::Whole), (false, 0));
}

#[test]
fn exclusive_press_releases_the_previous_key() {
    let mut map = InputRoleMap::new();
    map.assign(&[(1, InputRole::Up), (2, InputRole::Down)]);
    map.update_state_exclusive(1, true);
    map.update_state_exclusive(2, true);
    let mut state = InputRoleState::new();
    state.update_state(&map);
    assert_eq!(state.get(InputRole::Up).0, false);
    assert_eq!(state.get(InputRole::Down).0, true);
    map.update_state_exclusive(2, false);
    state.clear_state();
    state.update_state(&map);
    assert_eq!(state.get(InputRole::Whole).0, false);
    map.clear_state();
}

#[test]
fn set_clear_and_history() {
    let mut state = InputRoleState::default();
    state.set_true(InputRole::Cancel);
    state.update_history();
    state.update_history();
    assert_eq!(state.get(InputRole::Cancel), (true, 0b11));
    state.set_false(InputRole::Cancel);
    state.set(InputRole::Pause, true);
    state.update_history();
    assert_eq!(state.get(InputRole::Cancel), (false, 0b110));
    assert_eq!(state.get(InputRole::Whole), (true, 0b111));
    state.clear_history();
    assert_eq!(state.get(InputRole::Pause), (true, 0));
    state.clear_all();
    assert_eq!(state.get(InputRole::Whole), (false, 0));
}
