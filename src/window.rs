//! What the interface keeps of the listener's notifications: the list of
//! selectable sinks, and whether it may close.

use crate::types::{CrosswireNode, GuiMessage, Node, Outward, PipewireMessage};
use vstd::prelude::*;

verus! {

/// A list entry as a value: name, id, selection flag.
pub open spec fn entry_of(c: CrosswireNode) -> (Seq<char>, u32, bool) {
    (c.node.name@, c.node.id, c.selected)
}

/// `s` without the entries of node `id`, in the same order.
pub open spec fn without(s: Seq<(Seq<char>, u32, bool)>, id: u32) -> Seq<(Seq<char>, u32, bool)>
    decreases s.len(),
{
    if s.len() == 0 {
        s
    } else if s.last().1 == id {
        without(s.drop_last(), id)
    } else {
        without(s.drop_last(), id).push(s.last())
    }
}

/// The interface's side of the bridge.
pub struct WindowState {
    pub checkboxes: Vec<CrosswireNode>,
    /// The listener has acknowledged termination.
    pub ok_to_close: bool,
}

impl WindowState {
    /// The entries of the list, in order.
    pub open spec fn entries(&self) -> Seq<(Seq<char>, u32, bool)> {
        self.checkboxes@.map_values(|c: CrosswireNode| entry_of(c))
    }

    /// An empty list that may not close yet.
    pub fn new() -> (w: Self)
        ensures
            w.entries() == Seq::<(Seq<char>, u32, bool)>::empty(),
            !w.ok_to_close,
    {
        WindowState { checkboxes: Vec::new(), ok_to_close: false }
    }

    /// Take one notification into account.
    pub fn handle_message(&mut self, msg: PipewireMessage)
        ensures
            match msg@ {
                Outward::NodeAdded { name, id } => final(self).entries() == old(self).entries().push(
                    (name, id, false),
                ) && final(self).ok_to_close == old(self).ok_to_close,
                Outward::NodeRemoved { id } => final(self).entries() == without(
                    old(self).entries(),
                    id,
                ) && final(self).ok_to_close == old(self).ok_to_close,
                Outward::ReadyToClose => final(self).entries() == old(self).entries()
                    && final(self).ok_to_close,
            },
    {
        match msg {
            PipewireMessage::ReadyToClose => {
                self.ok_to_close = true;
            },
            PipewireMessage::NodeAdded { name, id } => {
                let ghost e0 = self.entries();
                self.checkboxes.push(CrosswireNode { node: Node { name, id }, selected: false });
                assert(self.entries() =~= e0.push((name@, id, false)));
            },
            PipewireMessage::NodeRemoved { id } => {
                self.remove_node(id);
            },
        }
    }

    fn remove_node(&mut self, id: u32)
        ensures
            final(self).entries() == without(old(self).entries(), id),
            final(self).ok_to_close == old(self).ok_to_close,
    {
        let ghost all = self.entries();
        let mut rest: Vec<CrosswireNode> = Vec::new();
        std::mem::swap(&mut rest, &mut self.checkboxes);
        let ghost mut i: int = 0;
        while rest.len() > 0
            invariant
                0 <= i <= all.len(),
                rest@.map_values(|c: CrosswireNode| entry_of(c)) == all.subrange(i, all.len() as int),
                self.entries() == without(all.take(i), id),
                self.ok_to_close == old(self).ok_to_close,
            decreases rest.len(),
        {
            let ghost r0 = rest@;
            assert(r0.map_values(|c: CrosswireNode| entry_of(c)).len() == r0.len());
            assert(i < all.len());
            let c = rest.remove(0);
            assert forall|k: int| 0 <= k < rest@.len() implies #[trigger] entry_of(rest@[k]) == all[i + 1 + k] by {
                assert(rest@[k] == r0[k + 1]);
                assert(r0.map_values(|c: CrosswireNode| entry_of(c))[k + 1] == all[i + 1 + k]);
            }
            assert(entry_of(c) == r0.map_values(|c: CrosswireNode| entry_of(c))[0]);
            assert(rest@.map_values(|c: CrosswireNode| entry_of(c)) =~= all.subrange(i + 1, all.len() as int));
            assert(all.take(i + 1).drop_last() == all.take(i));
            assert(all.take(i + 1).last() == entry_of(c));
            let ghost e0 = self.entries();
            if c.node.id != id {
                self.checkboxes.push(c);
                assert(self.entries() =~= e0.push(entry_of(c)));
            }
            proof {
                i = i + 1;
            }
        }
        assert(all.take(i) == all);
    }

    /// What to send when the user asks to close: a request to terminate
    /// while the listener has not acknowledged, and nothing after that, when
    /// the window may close.
    pub fn close_requested(&self) -> (r: Option<GuiMessage>)
        ensures
            self.ok_to_close ==> r is None,
            !self.ok_to_close ==> r matches Some(GuiMessage::Terminate),
    {
        if self.ok_to_close {
            None
        } else {
            Some(GuiMessage::Terminate)
        }
    }
}

/// The request that a checkbox's new state asks for.
pub fn selection_message(c: &CrosswireNode) -> (r: GuiMessage)
    ensures
        match r {
            GuiMessage::NodeSelected { name, id } => c.selected && name@ == c.node.name@ && id
                == c.node.id,
            GuiMessage::NodeUnselected { name, id } => !c.selected && name@ == c.node.name@ && id
                == c.node.id,
            GuiMessage::Terminate => false,
        },
{
    let name = c.node.name.clone();
    if c.selected {
        GuiMessage::NodeSelected { name, id: c.node.id }
    } else {
        GuiMessage::NodeUnselected { name, id: c.node.id }
    }
}

} // verus!
