use crosswire::types::{CrosswireNode, GuiMessage, Node, PipewireMessage};
use crosswire::window::{selection_message, WindowState};

fn ids(w: &WindowState) -> Vec<u32> {
    w.checkboxes.iter().map(|c| c.node.id).collect()
}

#[test]
fn added_nodes_are_listed_unselected() {
    let mut w = WindowState::new();
    w.handle_message(PipewireMessage::NodeAdded { name: "A".to_string(), id: 1 });
    w.handle_message(PipewireMessage::NodeAdded { name: "B".to_string(), id: 2 });
    assert_eq!(ids(&w), vec![1, 2]);
    assert_eq!(w.checkboxes[1].node.name, "B");
    assert!(!w.checkboxes[0].selected);
    assert!(!w.ok_to_close);
}

#[test]
fn removed_nodes_leave_the_list() {
    let mut w = WindowState::new();
    for (n, id) in [("A", 1), ("B", 2), ("A2", 1), ("C", 3)] {
        w.handle_message(PipewireMessage::NodeAdded { name: n.to_string(), id });
    }
    w.handle_message(PipewireMessage::NodeRemoved { id: 1 });
    assert_eq!(ids(&w), vec![2, 3]);
    w.handle_message(PipewireMessage::NodeRemoved { id: 9 });
    assert_eq!(ids(&w), vec![2, 3]);
}

#[test]
fn close_is_vetoed_until_acknowledged() {
    let mut w = WindowState::new();
    assert!(matches!(w.close_requested(), Some(GuiMessage::Terminate)));
    w.handle_message(PipewireMessage::ReadyToClose);
    assert!(w.ok_to_close);
    assert!(w.close_requested().is_none());
}

#[test]
fn checkbox_state_picks_the_request() {
    let mut c = CrosswireNode { node: Node { name: "S".to_string(), id: 4 }, selected: true };
    match selection_message(&c) {
        GuiMessage::NodeSelected { name, id } => {
            assert_eq!(name, "S");
            assert_eq!(id, 4);
        }
        _ => panic!("expected a selection"),
    }
    c.selected = false;
    assert!(matches!(selection_message(&c), GuiMessage::NodeUnselected { id: 4, .. }));
}
