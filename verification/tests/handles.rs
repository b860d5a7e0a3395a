use qtable::text::decimal_text;
use qtable::{Action, ActionError, QConfig, QTable, State, StateError};

fn table(states: usize, actions: usize) -> QTable {
    let config = QConfig { state_size: states, action_size: actions, ..QConfig::default() };
    QTable::new_with(config, vec![vec![0u64; actions]; states]).unwrap()
}

#[test]
fn state_below_size_is_accepted() {
    let t = table(3, 5);
    for i in 0..3 {
        let s = State::new_on(&t, i).unwrap();
        assert_eq!(s.index(), i);
        assert_eq!(*s, i);
    }
}

#[test]
fn state_at_or_above_size_is_rejected() {
    let t = table(3, 5);
    for i in [3usize, 4, 5, 100, usize::MAX] {
        assert_eq!(
            State::new_on(&t, i).map(|s| s.index()),
            Err(StateError::InvalidStateIndex { given: i, max: 3 })
        );
    }
}

#[test]
fn action_below_size_is_accepted() {
    let t = table(3, 5);
    for i in 0..5 {
        let a = Action::new_on(&t, i).unwrap();
        assert_eq!(a.index(), i);
        assert_eq!(*a, i);
    }
}

#[test]
fn action_at_or_above_size_is_rejected() {
    let t = table(3, 5);
    for i in [5usize, 6, 100, usize::MAX] {
        assert_eq!(
            Action::new_on(&t, i).map(|a| a.index()),
            Err(ActionError::InvalidActionIndex { given: i, max: 5 })
        );
    }
}

#[test]
fn handles_are_checked_against_their_own_dimension() {
    let t = table(2, 7);
    assert!(State::new_on(&t, 2).is_err());
    assert!(Action::new_on(&t, 2).is_ok());
    assert!(Action::new_on(&t, 6).is_ok());
    assert!(Action::new_on(&t, 7).is_err());
}

#[test]
fn empty_table_has_no_handle() {
    let t = table(0, 0);
    assert_eq!(
        State::new_on(&t, 0).map(|s| s.index()),
        Err(StateError::InvalidStateIndex { given: 0, max: 0 })
    );
    assert_eq!(
        Action::new_on(&t, 0).map(|a| a.index()),
        Err(ActionError::InvalidActionIndex { given: 0, max: 0 })
    );
    assert!(t.states().is_empty());
    assert!(t.actions().is_empty());
}

#[test]
fn pick_gives_the_handle_or_nothing() {
    let t = table(3, 5);
    assert_eq!(t.pick_state(2).map(|s| s.index()), Some(2));
    assert!(t.pick_state(3).is_none());
    assert_eq!(t.pick_action(4).map(|a| a.index()), Some(4));
    assert!(t.pick_action(5).is_none());
}

#[test]
fn states_are_enumerated_in_ascending_order() {
    let t = table(6, 2);
    let all: Vec<usize> = t.states().iter().map(|s| s.index()).collect();
    assert_eq!(all, vec![0, 1, 2, 3, 4, 5]);
}

#[test]
fn actions_are_enumerated_in_ascending_order() {
    let t = table(2, 4);
    let all: Vec<usize> = t.actions().iter().map(|a| a.index()).collect();
    assert_eq!(all, vec![0, 1, 2, 3]);
}

#[test]
fn enumerating_twice_gives_the_same_handles() {
    let t = table(14, 14);
    let first: Vec<usize> = t.states().iter().map(|s| s.index()).collect();
    let second: Vec<usize> = t.states().iter().map(|s| s.index()).collect();
    assert_eq!(first.len(), 14);
    assert_eq!(first, second);
    let first: Vec<usize> = t.actions().iter().map(|a| a.index()).collect();
    let second: Vec<usize> = t.actions().iter().map(|a| a.index()).collect();
    assert_eq!(first.len(), 14);
    assert_eq!(first, second);
}

#[test]
fn state_error_message_names_index_and_bound() {
    let e = StateError::InvalidStateIndex { given: 14, max: 14 };
    assert_eq!(e.message(), "Invalid state index: 14 (max: 14)");
    let e = StateError::InvalidStateIndex { given: 0, max: 0 };
    assert_eq!(e.message(), "Invalid state index: 0 (max: 0)");
}

#[test]
fn action_error_message_names_index_and_bound() {
    let e = ActionError::InvalidActionIndex { given: 305, max: 7 };
    assert_eq!(e.message(), "Invalid action index: 305 (max: 7)");
    let t = table(1, 2);
    let e = Action::new_on(&t, 9).map(|a| a.index()).unwrap_err();
    assert_eq!(e.message(), "Invalid action index: 9 (max: 2)");
}

#[test]
fn decimal_text_writes_numerals() {
    assert_eq!(decimal_text(0), "0");
    assert_eq!(decimal_text(7), "7");
    assert_eq!(decimal_text(9), "9");
    assert_eq!(decimal_text(10), "10");
    assert_eq!(decimal_text(99), "99");
    assert_eq!(decimal_text(100), "100");
    assert_eq!(decimal_text(1234567890), "1234567890");
    assert_eq!(decimal_text(usize::MAX), format!("{}", usize::MAX));
}
