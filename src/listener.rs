//! The listener's decisions. Each event from the daemon or from the interface
//! changes the index and yields at most one notification, in event order.
//! Once the interface asks to terminate, the listener acknowledges once and
//! ignores everything after.

use crate::index::{
    inserted, lemma_inserted_keeps_pairs, lemma_no_link_no_pairs, lemma_removed_keeps_pairs,
    pairs_name_links, removed, Index, Item, State,
};
use crate::props::{classify, display_name, display_name_of, role_of, NodeProps};
use crate::types::{GuiMessage, NodeType, Outward, PipewireMessage};
use vstd::prelude::*;

verus! {

/// The kind of a global object that the daemon announces.
#[derive(Clone, Copy, Debug, PartialEq, Eq, Structural)]
pub enum ObjectKind {
    Node,
    Port,
    Link,
    Other,
}

/// One event of the listener's loop.
pub enum Event {
    /// The daemon announced a global object.
    GlobalAdded { id: u32, kind: ObjectKind, props: NodeProps },
    /// The daemon removed a global object.
    GlobalRemoved { id: u32 },
    /// A request arrived from the interface.
    Gui(GuiMessage),
}

/// A request forwarded to the command dispatcher.
pub enum Command {
    Select { name: String, id: u32 },
    Unselect { name: String, id: u32 },
}

/// What the loop does after an event.
pub struct Reaction {
    /// A notification to send to the interface.
    pub outward: Option<PipewireMessage>,
    /// A selection request for the dispatcher.
    pub command: Option<Command>,
    /// Whether the loop stops now.
    pub stop: bool,
}

/// The listener as a mathematical value.
pub ghost struct ListenerModel {
    pub index: Index,
    pub running: bool,
}

/// Whether an event is the interface's request to terminate.
pub open spec fn is_terminate(e: Event) -> bool {
    e matches Event::Gui(GuiMessage::Terminate)
}

/// Whether an added object is a node that classifies as a sink.
pub open spec fn is_sink_node(kind: ObjectKind, props: NodeProps) -> bool {
    kind == ObjectKind::Node && role_of(props) == Some(NodeType::Sink)
}

/// The listener after `e`.
pub open spec fn next_model(m: ListenerModel, e: Event) -> ListenerModel {
    if !m.running {
        m
    } else {
        match e {
            Event::GlobalAdded { id, kind, props } => if is_sink_node(kind, props) {
                ListenerModel { index: inserted(m.index, id, Item::Node), running: true }
            } else {
                m
            },
            Event::GlobalRemoved { id } => ListenerModel { index: removed(m.index, id), running: true },
            Event::Gui(GuiMessage::Terminate) => ListenerModel { index: m.index, running: false },
            Event::Gui(_) => m,
        }
    }
}

/// The notification that `e` yields.
pub open spec fn notice(m: ListenerModel, e: Event) -> Option<Outward> {
    if !m.running {
        None
    } else {
        match e {
            Event::GlobalAdded { id, kind, props } => if is_sink_node(kind, props) {
                Some(Outward::NodeAdded { name: display_name_of(props), id })
            } else {
                None
            },
            Event::GlobalRemoved { id } => if m.index.items.contains_key(id) && m.index.items[id] is Node {
                Some(Outward::NodeRemoved { id })
            } else {
                None
            },
            Event::Gui(GuiMessage::Terminate) => Some(Outward::ReadyToClose),
            Event::Gui(_) => None,
        }
    }
}

/// An optional notification as a sequence of zero or one.
pub open spec fn opt_seq(o: Option<Outward>) -> Seq<Outward> {
    match o {
        Some(x) => seq![x],
        None => Seq::empty(),
    }
}

/// The listener after `evs`, in order.
pub open spec fn run_model(m: ListenerModel, evs: Seq<Event>) -> ListenerModel
    decreases evs.len(),
{
    if evs.len() == 0 {
        m
    } else {
        next_model(run_model(m, evs.drop_last()), evs.last())
    }
}

/// The notifications that `evs` yield, in order.
pub open spec fn run_notices(m: ListenerModel, evs: Seq<Event>) -> Seq<Outward>
    decreases evs.len(),
{
    if evs.len() == 0 {
        Seq::empty()
    } else {
        run_notices(m, evs.drop_last()) + opt_seq(notice(run_model(m, evs.drop_last()), evs.last()))
    }
}

/// Whether no event of `evs` comes from the interface.
pub open spec fn daemon_only(evs: Seq<Event>) -> bool {
    forall|i: int| 0 <= i < evs.len() ==> !(#[trigger] evs[i] is Gui)
}

/// Whether `m` holds no link.
pub open spec fn no_links(m: Map<u32, Item>) -> bool {
    forall|k: u32| #[trigger] m.contains_key(k) ==> !(m[k] is Link)
}

/// Events are handled one after another: running `a` and then `b` is running
/// `a + b`, and the notifications of `a` all come before those of `b`.
pub proof fn lemma_run_concat(m: ListenerModel, a: Seq<Event>, b: Seq<Event>)
    ensures
        run_model(m, a + b) == run_model(run_model(m, a), b),
        run_notices(m, a + b) == run_notices(m, a) + run_notices(run_model(m, a), b),
    decreases b.len(),
{
    if b.len() == 0 {
        assert(a + b == a);
    } else {
        lemma_run_concat(m, a, b.drop_last());
        assert((a + b).drop_last() == a + b.drop_last());
        assert((a + b).last() == b.last());
        assert(run_notices(m, a) + run_notices(run_model(m, a), b.drop_last()) + opt_seq(
            notice(run_model(m, a + b.drop_last()), b.last()),
        ) == run_notices(m, a) + (run_notices(run_model(m, a), b.drop_last()) + opt_seq(
            notice(run_model(run_model(m, a), b.drop_last()), b.last()),
        )));
    }
}

/// A stopped listener ignores every event.
pub proof fn lemma_stopped_ignores(m: ListenerModel, evs: Seq<Event>)
    requires
        !m.running,
    ensures
        run_model(m, evs) == m,
        run_notices(m, evs) == Seq::<Outward>::empty(),
    decreases evs.len(),
{
    if evs.len() > 0 {
        lemma_stopped_ignores(m, evs.drop_last());
    }
}

/// Without a request to terminate, the listener keeps running and never
/// announces that it may close.
pub proof fn lemma_runs_until_terminate(m: ListenerModel, evs: Seq<Event>)
    requires
        m.running,
        forall|i: int| 0 <= i < evs.len() ==> !is_terminate(#[trigger] evs[i]),
    ensures
        run_model(m, evs).running,
        forall|j: int|
            0 <= j < run_notices(m, evs).len() ==> #[trigger] run_notices(m, evs)[j]
                != Outward::ReadyToClose,
    decreases evs.len(),
{
    if evs.len() > 0 {
        let init = evs.drop_last();
        assert forall|i: int| 0 <= i < init.len() implies !is_terminate(#[trigger] init[i]) by {
            assert(init[i] == evs[i]);
        }
        lemma_runs_until_terminate(m, init);
        assert(!is_terminate(evs[evs.len() - 1]));
    }
}

/// A request to terminate, however many events surround it, yields exactly
/// one acknowledgement, as the last notification, and stops the listener.
pub proof fn lemma_terminate_once(m: ListenerModel, pre: Seq<Event>, post: Seq<Event>)
    requires
        m.running,
        forall|i: int| 0 <= i < pre.len() ==> !is_terminate(#[trigger] pre[i]),
    ensures
        ({
            let evs = pre + seq![Event::Gui(GuiMessage::Terminate)] + post;
            &&& run_notices(m, evs) == run_notices(m, pre).push(Outward::ReadyToClose)
            &&& !run_model(m, evs).running
        }),
        forall|j: int|
            0 <= j < run_notices(m, pre).len() ==> #[trigger] run_notices(m, pre)[j]
                != Outward::ReadyToClose,
{
    let t = seq![Event::Gui(GuiMessage::Terminate)];
    lemma_runs_until_terminate(m, pre);
    lemma_run_concat(m, pre, t);
    lemma_run_concat(m, pre + t, post);
    let mid = run_model(m, pre + t);
    let r = run_model(m, pre);
    assert(t.drop_last() =~= Seq::<Event>::empty());
    assert(t.last() == Event::Gui(GuiMessage::Terminate));
    assert(run_model(r, t.drop_last()) == r);
    assert(run_notices(r, t.drop_last()) == Seq::<Outward>::empty());
    assert(notice(r, t.last()) == Some(Outward::ReadyToClose));
    assert(run_notices(run_model(m, pre), t) =~= seq![Outward::ReadyToClose]);
    lemma_stopped_ignores(mid, post);
    assert(run_notices(m, pre + t) + Seq::<Outward>::empty() =~= run_notices(m, pre + t));
}

/// Daemon events never make the listener record a link or a port pair; after
/// a removal the removed id is absent.
pub proof fn lemma_add_remove(m: ListenerModel, evs: Seq<Event>, id: u32)
    requires
        m.running,
        pairs_name_links(m.index),
        no_links(m.index.items),
        daemon_only(evs),
    ensures
        ({
            let after = run_model(m, evs.push(Event::GlobalRemoved { id }));
            &&& after.running
            &&& !after.index.items.contains_key(id)
            &&& no_links(after.index.items)
            &&& after.index.links == Map::<(u32, u32), u32>::empty()
        }),
{
    let last = evs.push(Event::GlobalRemoved { id });
    assert forall|i: int| 0 <= i < last.len() implies !(#[trigger] last[i] is Gui) by {
        if i < evs.len() {
            assert(last[i] == evs[i]);
        }
    }
    lemma_daemon_keeps_no_links(m, last);
    assert(last.drop_last() == evs);
    lemma_no_link_no_pairs(run_model(m, last).index);
}

proof fn lemma_daemon_keeps_no_links(m: ListenerModel, evs: Seq<Event>)
    requires
        m.running,
        pairs_name_links(m.index),
        no_links(m.index.items),
        daemon_only(evs),
    ensures
        run_model(m, evs).running,
        pairs_name_links(run_model(m, evs).index),
        no_links(run_model(m, evs).index.items),
    decreases evs.len(),
{
    if evs.len() > 0 {
        let init = evs.drop_last();
        assert forall|i: int| 0 <= i < init.len() implies !(#[trigger] init[i] is Gui) by {
            assert(init[i] == evs[i]);
        }
        lemma_daemon_keeps_no_links(m, init);
        assert(!(evs[evs.len() - 1] is Gui));
        let r = run_model(m, init);
        match evs.last() {
            Event::GlobalAdded { id, .. } => lemma_inserted_keeps_pairs(r.index, id, Item::Node),
            Event::GlobalRemoved { id } => lemma_removed_keeps_pairs(r.index, id),
            _ => {},
        }
    }
}

/// The registry listener.
pub struct Listener {
    state: State,
    running: bool,
}

impl View for Listener {
    type V = ListenerModel;

    closed spec fn view(&self) -> ListenerModel {
        ListenerModel { index: self.state@, running: self.running }
    }
}

impl Listener {
    /// The invariant of the listener: that of its index.
    pub open spec fn wf(&self) -> bool {
        pairs_name_links(self@.index)
    }

    /// A running listener with an empty index.
    pub fn new() -> (l: Self)
        ensures
            l.wf(),
            l@.index.items == Map::<u32, Item>::empty(),
            l@.index.links == Map::<(u32, u32), u32>::empty(),
            l@.running,
    {
        Listener { state: State::new(), running: true }
    }

    /// Whether the loop still runs.
    pub fn is_running(&self) -> (r: bool)
        ensures
            r == self@.running,
    {
        self.running
    }

    /// The index of tracked objects.
    pub fn state(&self) -> (r: &State)
        requires
            self.wf(),
        ensures
            r.wf(),
            r@ == self@.index,
    {
        &self.state
    }

    /// React to one event.
    pub fn handle(&mut self, e: Event) -> (r: Reaction)
        requires
            old(self).wf(),
        ensures
            final(self).wf(),
            final(self)@ == next_model(old(self)@, e),
            match r.outward {
                Some(m) => notice(old(self)@, e) == Some(m@),
                None => notice(old(self)@, e) is None,
            },
            r.stop == (old(self)@.running && is_terminate(e)),
            match r.command {
                Some(Command::Select { name, id }) => old(self)@.running && match e {
                    Event::Gui(GuiMessage::NodeSelected { name: n, id: i }) => name@ == n@ && id == i,
                    _ => false,
                },
                Some(Command::Unselect { name, id }) => old(self)@.running && match e {
                    Event::Gui(GuiMessage::NodeUnselected { name: n, id: i }) => name@ == n@ && id
                        == i,
                    _ => false,
                },
                None => !old(self)@.running || !(e matches Event::Gui(
                    GuiMessage::NodeSelected { .. },
                )) && !(e matches Event::Gui(GuiMessage::NodeUnselected { .. })),
            },
    {
        let none = Reaction { outward: None, command: None, stop: false };
        if !self.running {
            return none;
        }
        match e {
            Event::GlobalAdded { id, kind, props } => {
                if let ObjectKind::Node = kind {
                    if let Some(NodeType::Sink) = classify(&props) {
                        let name = display_name(&props);
                        self.state.insert(id, Item::Node);
                        return Reaction {
                            outward: Some(PipewireMessage::NodeAdded { name, id }),
                            command: None,
                            stop: false,
                        };
                    }
                }
                none
            },
            Event::GlobalRemoved { id } => {
                if let Some(Item::Node) = self.state.remove(id) {
                    Reaction {
                        outward: Some(PipewireMessage::NodeRemoved { id }),
                        command: None,
                        stop: false,
                    }
                } else {
                    none
                }
            },
            Event::Gui(GuiMessage::NodeSelected { name, id }) => Reaction {
                outward: None,
                command: Some(Command::Select { name, id }),
                stop: false,
            },
            Event::Gui(GuiMessage::NodeUnselected { name, id }) => Reaction {
                outward: None,
                command: Some(Command::Unselect { name, id }),
                stop: false,
            },
            Event::Gui(GuiMessage::Terminate) => {
                self.running = false;
                Reaction { outward: Some(PipewireMessage::ReadyToClose), command: None, stop: true }
            },
        }
    }

    /// React to `events` in order and collect the notifications they yield.
    pub fn process(&mut self, events: Vec<Event>) -> (r: Vec<PipewireMessage>)
        requires
            old(self).wf(),
        ensures
            final(self).wf(),
            final(self)@ == run_model(old(self)@, events@),
            r@.map_values(|m: PipewireMessage| m@) == run_notices(old(self)@, events@),
    {
        let ghost m0 = self@;
        let ghost all = events@;
        let mut rest = events;
        let mut out: Vec<PipewireMessage> = Vec::new();
        let ghost mut i: int = 0;
        while rest.len() > 0
            invariant
                self.wf(),
                i <= all.len(),
                0 <= i,
                rest@ == all.subrange(i, all.len() as int),
                self@ == run_model(m0, all.take(i)),
                out@.map_values(|m: PipewireMessage| m@) == run_notices(m0, all.take(i)),
            decreases rest.len(),
        {
            let ghost before = self@;
            let e = rest.remove(0);
            assert(all.take(i + 1).drop_last() == all.take(i));
            assert(all.take(i + 1).last() == e);
            let ghost out0 = out@.map_values(|m: PipewireMessage| m@);
            let reaction = self.handle(e);
            if let Some(m) = reaction.outward {
                out.push(m);
            }
            assert(out@.map_values(|m: PipewireMessage| m@) =~= out0 + opt_seq(notice(before, e)));
            proof {
                i = i + 1;
            }
        }
        assert(all.take(i) == all);
        out
    }
}

} // verus!
