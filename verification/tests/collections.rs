use sokoterm::collections::UndoHistory;

#[test]
fn undo_history_starts_with_initial_value() {
    let history = UndoHistory::new(5, 10u32);
    assert_eq!(*history.current(), 10);
    assert_eq!(history.current_index(), 0);
    assert_eq!(history.len(), 1);
    assert_eq!(history.capacity(), 5);
}

#[test]
fn undo_redo_move_through_committed_values() {
    let mut history = UndoHistory::new(5, 1u32);
    history.commit_change(2);
    history.commit_change(3);
    assert_eq!(*history.current(), 3);
    assert_eq!(history.undo(), Some(&2));
    assert_eq!(history.undo(), Some(&1));
    assert_eq!(history.undo(), None);
    assert_eq!(history.redo(), Some(&2));
    assert_eq!(history.redo(), Some(&3));
    assert_eq!(history.redo(), None);
}

#[test]
fn redo_then_undo_gives_back_the_value() {
    let mut history = UndoHistory::new(4, 'a');
    history.commit_change('b');
    history.undo();
    let redone = *history.redo().unwrap();
    assert_eq!(redone, 'b');
    assert_eq!(history.undo(), Some(&'a'));
}

#[test]
fn commit_after_undo_drops_redo_values() {
    let mut history = UndoHistory::new(5, 1u32);
    history.commit_change(2);
    history.commit_change(3);
    history.undo();
    history.commit_change(4);
    assert_eq!(history.len(), 3);
    assert_eq!(history.redo(), None);
    assert_eq!(history.undo(), Some(&2));
}

#[test]
fn commit_beyond_capacity_drops_oldest_value() {
    let mut history = UndoHistory::new(2, 1u32);
    history.commit_change(2);
    history.commit_change(3);
    assert_eq!(history.len(), 2);
    assert_eq!(history.undo(), Some(&2));
    assert_eq!(history.undo(), None);
}

#[test]
fn clear_keeps_only_the_current_value() {
    let mut history = UndoHistory::new(5, 1u32);
    history.commit_change(2);
    history.commit_change(3);
    history.undo();
    history.clear();
    assert_eq!(history.len(), 1);
    assert_eq!(*history.current(), 2);
    assert_eq!(history.undo(), None);
    assert_eq!(history.redo(), None);
    history.clear_with_new_initial(9);
    assert_eq!(*history.current(), 9);
    assert_eq!(history.current_index(), 0);
}

#[test]
fn clear_on_a_single_value_keeps_it() {
    let mut history = UndoHistory::new(3, 7u32);
    history.clear();
    assert_eq!(history.len(), 1);
    assert_eq!(*history.current(), 7);
    assert_eq!(history.capacity(), 3);
}

#[test]
fn undo_and_redo_succeed_as_often_as_there_are_values() {
    let mut history = UndoHistory::new(10, 0u32);
    for v in 1..5u32 {
        history.commit_change(v);
    }
    assert_eq!(history.current_index(), 4);
    for _ in 0..history.current_index() {
        assert!(history.undo().is_some());
    }
    assert_eq!(history.undo(), None);
    assert_eq!(history.current_index(), 0);
    history.redo();
    let left = history.len() - 1 - history.current_index();
    assert_eq!(left, 3);
    for _ in 0..left {
        assert!(history.redo().is_some());
    }
    assert_eq!(history.redo(), None);
    assert_eq!(*history.current(), 4);
}
