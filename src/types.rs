//! Values exchanged between the listener and the user interface.

use vstd::prelude::*;

verus! {

/// A node as the interface shows it.
#[derive(Debug, Clone)]
pub struct Node {
    pub name: String,
    pub id: u32,
}

/// A node with the user's selection flag.
pub struct CrosswireNode {
    pub node: Node,
    pub selected: bool,
}

/// The role of an audio node.
#[derive(Clone, Copy, Debug, PartialEq, Eq, Structural)]
pub enum NodeType {
    Sink,
    Source,
}

/// Requests from the interface to the listener.
#[derive(Debug)]
pub enum GuiMessage {
    NodeSelected { name: String, id: u32 },
    NodeUnselected { name: String, id: u32 },
    Terminate,
}

/// Notifications from the listener to the interface.
#[derive(Debug)]
pub enum PipewireMessage {
    NodeAdded { name: String, id: u32 },
    NodeRemoved { id: u32 },
    /// The listener has stopped; the interface may close.
    ReadyToClose,
}

/// A notification as a mathematical value.
pub ghost enum Outward {
    NodeAdded { name: Seq<char>, id: u32 },
    NodeRemoved { id: u32 },
    ReadyToClose,
}

impl View for PipewireMessage {
    type V = Outward;

    open spec fn view(&self) -> Outward {
        match self {
            PipewireMessage::NodeAdded { name, id } => Outward::NodeAdded { name: name@, id: *id },
            PipewireMessage::NodeRemoved { id } => Outward::NodeRemoved { id: *id },
            PipewireMessage::ReadyToClose => Outward::ReadyToClose,
        }
    }
}

} // verus!
