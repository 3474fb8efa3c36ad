use crosswire::index::{Item, State};

#[test]
fn empty_index_has_nothing() {
    let s = State::new();
    assert!(s.get(1).is_none());
    assert_eq!(s.get_link_id(1, 2), None);
    assert_eq!(s.get_node_of_port(1), None);
}

#[test]
fn insert_then_get() {
    let mut s = State::new();
    s.insert(7, Item::Node);
    s.insert(8, Item::Port { node_id: 7 });
    assert_eq!(s.get(7), Some(&Item::Node));
    assert_eq!(s.get(8), Some(&Item::Port { node_id: 7 }));
    assert_eq!(s.get_node_of_port(8), Some(7));
    assert_eq!(s.get_node_of_port(7), None);
    assert_eq!(s.get_node_of_port(9), None);
}

#[test]
fn link_is_found_by_its_ports() {
    let mut s = State::new();
    s.insert(20, Item::Link { port_from: 3, port_to: 4 });
    assert_eq!(s.get_link_id(3, 4), Some(20));
    assert_eq!(s.get_link_id(4, 3), None);
    assert_eq!(s.remove(20), Some(Item::Link { port_from: 3, port_to: 4 }));
    assert_eq!(s.get_link_id(3, 4), None);
    assert!(s.get(20).is_none());
}

#[test]
fn remove_unknown_id_is_a_no_op() {
    let mut s = State::new();
    s.insert(1, Item::Node);
    assert_eq!(s.remove(2), None);
    assert_eq!(s.get(1), Some(&Item::Node));
}

#[test]
fn overwriting_a_link_drops_its_pair() {
    let mut s = State::new();
    s.insert(5, Item::Link { port_from: 1, port_to: 2 });
    s.insert(5, Item::Node);
    assert_eq!(s.get(5), Some(&Item::Node));
    assert_eq!(s.get_link_id(1, 2), None);
}

#[test]
fn inserting_the_same_link_twice_keeps_one() {
    let mut s = State::new();
    s.insert(5, Item::Link { port_from: 1, port_to: 2 });
    s.insert(5, Item::Link { port_from: 1, port_to: 2 });
    assert_eq!(s.get_link_id(1, 2), Some(5));
    assert_eq!(s.remove(5), Some(Item::Link { port_from: 1, port_to: 2 }));
    assert_eq!(s.get_link_id(1, 2), None);
}

#[test]
fn a_newer_link_takes_over_the_port_pair() {
    let mut s = State::new();
    s.insert(10, Item::Link { port_from: 1, port_to: 2 });
    s.insert(11, Item::Link { port_from: 1, port_to: 2 });
    assert_eq!(s.get_link_id(1, 2), Some(11));
    assert_eq!(s.get(10), Some(&Item::Link { port_from: 1, port_to: 2 }));
    assert_eq!(s.remove(10), Some(Item::Link { port_from: 1, port_to: 2 }));
    assert_eq!(s.get_link_id(1, 2), Some(11));
    assert_eq!(s.remove(11), Some(Item::Link { port_from: 1, port_to: 2 }));
    assert_eq!(s.get_link_id(1, 2), None);
}

#[test]
fn overwriting_leaves_other_ids_alone() {
    let mut s = State::new();
    s.insert(1, Item::Node);
    s.insert(2, Item::Port { node_id: 1 });
    s.insert(2, Item::Port { node_id: 3 });
    assert_eq!(s.get(1), Some(&Item::Node));
    assert_eq!(s.get_node_of_port(2), Some(3));
}

#[test]
fn largest_port_ids_do_not_collide() {
    let mut s = State::new();
    s.insert(1, Item::Link { port_from: u32::MAX, port_to: u32::MAX });
    s.insert(2, Item::Link { port_from: u32::MAX, port_to: 0 });
    s.insert(3, Item::Link { port_from: 0, port_to: u32::MAX });
    assert_eq!(s.get_link_id(u32::MAX, u32::MAX), Some(1));
    assert_eq!(s.get_link_id(u32::MAX, 0), Some(2));
    assert_eq!(s.get_link_id(0, u32::MAX), Some(3));
}
