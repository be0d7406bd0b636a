//! The linked list's one hazard.

use bm_stack::diff::ll::LinkModel;

#[test]
fn removing_the_middle_then_the_tail_dangles_it() {
    let mut list = LinkModel::new();
    for _ in 0..3 {
        list.add();
    }
    assert!(!list.add_is_undefined());

    list.remove(1); // the middle; the new tail's `previous` now dangles
    assert!(!list.add_is_undefined(), "nothing has read it yet");

    list.remove(1); // the tail, which leaves the freed node as the tail
    assert!(list.add_is_undefined());
}

#[test]
fn emptying_the_list_clears_the_hazard() {
    let mut list = LinkModel::new();
    for _ in 0..3 {
        list.add();
    }
    list.remove(1);
    list.remove(1);
    assert!(list.add_is_undefined());

    list.remove(0);
    assert!(list.is_empty());
    assert!(!list.add_is_undefined(), "an empty list is rebuilt from scratch");
}

#[test]
fn removing_in_list_order_never_dangles() {
    let mut list = LinkModel::new();
    for _ in 0..4 {
        list.add();
    }
    while !list.is_empty() {
        list.remove(0);
        assert!(!list.add_is_undefined());
    }
}

#[test]
fn removing_the_tail_repeatedly_never_dangles() {
    let mut list = LinkModel::new();
    for _ in 0..4 {
        list.add();
    }
    while !list.is_empty() {
        list.remove(list.len() - 1);
        assert!(!list.add_is_undefined());
    }
}

#[test]
fn a_list_counts_what_was_added() {
    let mut list = LinkModel::default();
    list.add();
    list.add();
    list.remove(0);
    assert_eq!(list.len(), 1);
    assert_eq!(list.added(), 2);
}
