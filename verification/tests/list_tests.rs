use steps::List;
use steps::ListError;

#[test]
fn create_new_list() {
    let list = List::new(2, 3);
    let first = list.first();
    let last = list.last();
    assert_eq!((list.get(&first), list.get(&last)), (2, 3));
}

#[test]
fn traverse_mut_list() {
    let mut list = List::new(2, 3);
    list.traverse(|x| x + 1);
    let first = list.first();
    let last = list.last();
    assert_eq!((list.get(&first), list.get(&last)), (3, 4));
}

#[test]
fn length_and_insert_after() {
    let mut list = List::new(2, 3);

    assert_eq!(list.len(), 2);

    let node = list.first();

    list.insert_after(&node, 5);

    assert_eq!(list.len(), 3);

    // Verify the order
    let items = list.to_vec();
    assert_eq!(items, vec![2, 5, 3]);
}

#[test]
fn test_remove_node() {
    let mut list = List::new(2, 3);

    // Insert a node to make list: 2 -> 5 -> 3
    let first_node = list.first();
    list.insert_after(&first_node, 5);
    assert_eq!(list.len(), 3);

    // Get the middle node (5)
    let middle_node = list.next(&first_node).unwrap();

    // Remove the middle node
    list.remove_node(&middle_node).unwrap();
    assert_eq!(list.len(), 2);

    // Verify list is now 2 -> 3
    let items = list.to_vec();
    assert_eq!(items, vec![2, 3]);
}

#[test]
fn test_remove_first_node() {
    let mut list = List::new(2, 3);

    // Insert a node to make list: 2 -> 5 -> 3
    let first_node = list.first();
    list.insert_after(&first_node, 5);
    assert_eq!(list.len(), 3);

    let items = list.to_vec();
    assert_eq!(items, vec![2, 5, 3]);

    // Remove the first node
    list.remove_node(&first_node).unwrap();
    assert_eq!(list.len(), 2);

    // Verify list is now 5 -> 3
    let items = list.to_vec();
    assert_eq!(items, vec![5, 3]);
}

#[test]
fn four_traversals_add_four_to_every_element() {
    // Four complete traversals, each adding one, leave every element
    // increased by exactly four.
    let mut list = List::new(2, 3);
    let first_node = list.first();
    list.insert_after(&first_node, 5);
    assert_eq!(list.len(), 3);

    for _ in 0..4 {
        list.traverse(|x| x + 1);
    }

    let items = list.to_vec();
    assert_eq!(items, vec![2 + 4, 5 + 4, 3 + 4]);
}

#[test]
fn two_traversals_compose() {
    // Traversing twice with the same function equals one traversal that
    // applies it twice per element.
    let mut twice = List::new(2, 3);
    twice.traverse(|x| x + 1);
    twice.traverse(|x| x + 1);

    let mut once = List::new(2, 3);
    once.traverse(|x: i32| (x + 1) + 1);

    assert_eq!(twice.to_vec(), vec![3 + 1, 4 + 1]);
    assert_eq!(twice.to_vec(), once.to_vec());
}

#[test]
fn remove_sole_node_fails() {
    let mut list = List::new(2, 3);
    let first_node = list.first();
    list.remove_node(&first_node).unwrap();
    assert_eq!(list.len(), 1);

    // The one remaining node may not leave: the list never becomes empty.
    let last_node = list.first();
    let err = list.remove_node(&last_node).unwrap_err();
    assert_eq!(err, ListError::CannotRemoveSoleNode);
    assert_eq!(err.message(), "Cannot remove the only node in the list");
    assert_eq!(list.len(), 1);
    assert_eq!(list.to_vec(), vec![3]);
}

#[test]
fn remove_head_clears_prev() {
    let mut list = List::new(2, 3);
    let first_node = list.first();
    list.insert_after(&first_node, 5);

    list.remove_node(&first_node).unwrap();

    // The promoted head has no predecessor left over from the removal.
    let new_first = list.first();
    assert_eq!(list.get(&new_first), 5);
    assert!(list.prev(&new_first).is_none());

    // No predecessor-side effects leak into subsequent inserts.
    let handle = list.insert_after(&new_first, 9);
    assert_eq!(list.prev(&handle), Some(new_first));
    assert_eq!(list.to_vec(), vec![5, 9, 3]);
}

#[test]
fn insert_then_remove_restores_list() {
    // Round trip: inserting then removing the same node restores the
    // original sequence and length.
    let mut list = List::new(2, 3);
    let first_node = list.first();
    let inserted = list.insert_after(&first_node, 7);
    assert_eq!(list.to_vec(), vec![2, 7, 3]);

    list.remove_node(&inserted).unwrap();
    assert_eq!(list.to_vec(), vec![2, 3]);
    assert_eq!(list.len(), 2);
}

#[test]
fn insert_after_tail_moves_last_anchor() {
    // Inserting after the tail updates the list's `last` anchor.
    let mut list = List::new(2, 3);
    let tail = list.last();
    list.insert_after(&tail, 8);

    let new_tail = list.last();
    assert_eq!(list.get(&new_tail), 8);
    assert!(list.next(&new_tail).is_none());
    assert_eq!(list.to_vec(), vec![2, 3, 8]);
}
