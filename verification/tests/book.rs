use wyck_chart::book::{new_id, repair_ids, reorder, History, Order, UNDO_DEPTH};

#[test]
fn normalizing_repairs_ids() {
    // Two drawings share 3 and one has none: they get fresh ids past every id kept.
    let (ids, next) = repair_ids(&[3, 3, 0, 9], 1);
    assert_eq!(ids, vec![3, 10, 11, 9]);
    assert_eq!(next, 12);
    let mut unique = ids.clone();
    unique.sort_unstable();
    unique.dedup();
    assert_eq!(unique.len(), 4, "ids are unique: {ids:?}");
    assert!(next > *ids.iter().max().unwrap());
    // A document that already knows a higher next id keeps counting from it.
    assert_eq!(repair_ids(&[0, 2], 50), (vec![50, 2], 51));
    assert_eq!(repair_ids(&[], 0), (vec![], 1));
}

#[test]
fn a_drawing_moves_up_and_down_the_stack() {
    let mut list = vec!['a', 'b', 'c', 'd'];
    assert!(reorder(&mut list, 1, Order::Front));
    assert_eq!(list, vec!['a', 'c', 'd', 'b']);
    assert!(reorder(&mut list, 3, Order::Back));
    assert_eq!(list, vec!['b', 'a', 'c', 'd']);
    assert!(reorder(&mut list, 1, Order::Forward));
    assert_eq!(list, vec!['b', 'c', 'a', 'd']);
    assert!(reorder(&mut list, 2, Order::Backward));
    assert_eq!(list, vec!['b', 'a', 'c', 'd']);
    assert!(!reorder(&mut list, 3, Order::Front), "already on top");
    assert!(!reorder(&mut list, 0, Order::Backward), "already at the bottom");
    assert_eq!(list, vec!['b', 'a', 'c', 'd']);
}

#[test]
fn ids_are_never_zero_and_count_up() {
    let mut next = 0;
    assert_eq!(new_id(&mut next), 1);
    assert_eq!(new_id(&mut next), 2);
    assert_eq!(next, 3);
}

#[test]
fn undo_and_redo_walk_through_every_change() {
    let mut history: History<u32> = History::new();
    let mut state = 0;
    for next in 1..=3 {
        history.remember(state);
        state = next;
    }
    assert!(history.can_undo() && !history.can_redo());
    // Undo twice, redo once.
    let back = history.take_undo().unwrap();
    history.push_redo(state);
    state = back;
    assert_eq!(state, 2);
    let back = history.take_undo().unwrap();
    history.push_redo(state);
    state = back;
    assert_eq!(state, 1);
    let forward = history.take_redo().unwrap();
    history.push_undo(state);
    state = forward;
    assert_eq!(state, 2);
    // A new change leaves nothing to redo.
    history.remember(state);
    assert!(!history.can_redo());
}

#[test]
fn undo_remembers_a_limited_number_of_steps() {
    let mut history: History<usize> = History::new();
    for step in 0..(UNDO_DEPTH + 5) {
        history.remember(step);
    }
    let mut count = 0;
    let mut last = None;
    while let Some(step) = history.take_undo() {
        count += 1;
        last = Some(step);
    }
    assert_eq!(count, UNDO_DEPTH);
    assert_eq!(last, Some(5), "the oldest steps went first");
}
