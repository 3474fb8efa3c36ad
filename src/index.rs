//! The object index: graph items keyed by the daemon's ids, with a reverse map
//! from the two ports of each link to the link's id.

use std::collections::HashMap;
use vstd::prelude::*;

verus! {

broadcast use vstd::std_specs::hash::group_hash_axioms;

/// A graph object tracked by the index. Cross references are plain ids.
#[derive(Clone, Copy, Debug, PartialEq, Eq, Structural)]
pub enum Item {
    Node,
    Port {
        /// The node this port belongs to.
        node_id: u32,
    },
    Link {
        port_from: u32,
        port_to: u32,
    },
}

/// Two to the thirty-second: the factor that separates the two halves of a
/// packed port pair.
pub open spec fn half() -> int {
    0x1_0000_0000
}

/// The key under which the link between `from` and `to` is recorded.
pub open spec fn pair_key(from: u32, to: u32) -> int {
    from as int * half() + to as int
}

/// The index as a mathematical value: items by id, and the id recorded for
/// each `(output port, input port)` pair.
pub ghost struct Index {
    pub items: Map<u32, Item>,
    pub links: Map<(u32, u32), u32>,
}

/// Whether `m` holds, under `l`, a link from `from` to `to`.
pub open spec fn holds_link(m: Map<u32, Item>, l: u32, from: u32, to: u32) -> bool {
    m.contains_key(l) && m[l] == (Item::Link { port_from: from, port_to: to })
}

/// Every recorded pair names an id that holds a link between exactly those ports.
pub open spec fn pairs_name_links(m: Index) -> bool {
    forall|p: (u32, u32)| #[trigger]
        m.links.contains_key(p) ==> holds_link(m.items, m.links[p], p.0, p.1)
}

/// The pair map without the entry of the link stored under `id`, where that
/// entry still names `id`.
pub open spec fn unlinked(m: Index, id: u32) -> Map<(u32, u32), u32> {
    if m.items.contains_key(id) && m.items[id] is Link {
        let p = (m.items[id]->port_from, m.items[id]->port_to);
        if m.links.contains_key(p) && m.links[p] == id {
            m.links.remove(p)
        } else {
            m.links
        }
    } else {
        m.links
    }
}

/// `m` after storing `item` under `id`: only `id` is overwritten, and a link
/// records its pair under `id` (the last write wins).
pub open spec fn inserted(m: Index, id: u32, item: Item) -> Index {
    Index {
        items: m.items.insert(id, item),
        links: match item {
            Item::Link { port_from, port_to } => unlinked(m, id).insert((port_from, port_to), id),
            _ => unlinked(m, id),
        },
    }
}

/// `m` after removing the item under `id`.
pub open spec fn removed(m: Index, id: u32) -> Index {
    Index { items: m.items.remove(id), links: unlinked(m, id) }
}

/// Storing keeps every recorded pair naming a matching link.
pub proof fn lemma_inserted_keeps_pairs(m: Index, id: u32, item: Item)
    requires
        pairs_name_links(m),
    ensures
        pairs_name_links(inserted(m, id, item)),
{
    let n = inserted(m, id, item);
    assert forall|p: (u32, u32)| #[trigger] n.links.contains_key(p) implies holds_link(
        n.items,
        n.links[p],
        p.0,
        p.1,
    ) by {
        if !(item is Link && p == (item->port_from, item->port_to)) {
            assert(m.links.contains_key(p));
        }
    }
}

/// Removing keeps every recorded pair naming a matching link.
pub proof fn lemma_removed_keeps_pairs(m: Index, id: u32)
    requires
        pairs_name_links(m),
    ensures
        pairs_name_links(removed(m, id)),
{
    let n = removed(m, id);
    assert forall|p: (u32, u32)| #[trigger] n.links.contains_key(p) implies holds_link(
        n.items,
        n.links[p],
        p.0,
        p.1,
    ) by {
        assert(m.links.contains_key(p));
    }
}

/// Storing the same item twice under one id is storing it once.
pub proof fn lemma_insert_twice(m: Index, id: u32, item: Item)
    ensures
        inserted(inserted(m, id, item), id, item) == inserted(m, id, item),
{
    let a = inserted(inserted(m, id, item), id, item);
    let b = inserted(m, id, item);
    assert(a.items =~= b.items);
    assert(a.links =~= b.links);
}

/// Overwriting a link leaves no entry for its two ports behind, unless the
/// new item is that same link.
pub proof fn lemma_overwrite_drops_link(m: Index, id: u32, from: u32, to: u32, y: Item)
    requires
        y != (Item::Link { port_from: from, port_to: to }),
    ensures
        !inserted(inserted(m, id, Item::Link { port_from: from, port_to: to }), id, y).links.contains_key(
            (from, to),
        ),
{
}

/// An index that holds no link records no pair.
pub proof fn lemma_no_link_no_pairs(m: Index)
    requires
        pairs_name_links(m),
        forall|k: u32| #[trigger] m.items.contains_key(k) ==> !(m.items[k] is Link),
    ensures
        m.links == Map::<(u32, u32), u32>::empty(),
{
    assert forall|p: (u32, u32)| !m.links.contains_key(p) by {
        if m.links.contains_key(p) {
            assert(m.items.contains_key(m.links[p]));
        }
    }
    assert(m.links =~= Map::<(u32, u32), u32>::empty());
}

/// The pair map that a packed map stands for.
pub open spec fn pairs_of(h: Map<u64, u32>) -> Map<(u32, u32), u32> {
    Map::new(
        |p: (u32, u32)| h.contains_key(pair_key(p.0, p.1) as u64),
        |p: (u32, u32)| h[pair_key(p.0, p.1) as u64],
    )
}

proof fn lemma_pairs_of_insert(h: Map<u64, u32>, from: u32, to: u32, v: u32)
    ensures
        pairs_of(h.insert(pair_key(from, to) as u64, v)) == pairs_of(h).insert((from, to), v),
{
    assert forall|p: (u32, u32)|
        #[trigger] pair_key(p.0, p.1) == pair_key(from, to) implies p == (from, to) by {
        lemma_unpack(p.0, p.1);
        lemma_unpack(from, to);
    }
    assert(pairs_of(h.insert(pair_key(from, to) as u64, v)) =~= pairs_of(h).insert((from, to), v));
}

proof fn lemma_pairs_of_remove(h: Map<u64, u32>, from: u32, to: u32)
    ensures
        pairs_of(h.remove(pair_key(from, to) as u64)) == pairs_of(h).remove((from, to)),
{
    assert forall|p: (u32, u32)|
        #[trigger] pair_key(p.0, p.1) == pair_key(from, to) implies p == (from, to) by {
        lemma_unpack(p.0, p.1);
        lemma_unpack(from, to);
    }
    assert(pairs_of(h.remove(pair_key(from, to) as u64)) =~= pairs_of(h).remove((from, to)));
}

proof fn lemma_unpack(from: u32, to: u32)
    ensures
        pair_key(from, to) / half() == from as int,
        pair_key(from, to) % half() == to as int,
{
    vstd::arithmetic::div_mod::lemma_fundamental_div_mod_converse(
        pair_key(from, to),
        half(),
        from as int,
        to as int,
    );
}

fn pack(from: u32, to: u32) -> (k: u64)
    ensures
        k as int == pair_key(from, to),
{
    proof {
        lemma_unpack(from, to);
        assert(from as int * half() <= 0xffff_ffff * half()) by (nonlinear_arith)
            requires
                from as int <= 0xffff_ffff,
                half() > 0,
        ;
    }
    (from as u64) * 0x1_0000_0000u64 + (to as u64)
}

/// The object index.
pub struct State {
    /// Items by daemon id.
    items: HashMap<u32, Item>,
    /// The recorded link id of each port pair, keyed by the packed pair.
    links: HashMap<u64, u32>,
}

impl View for State {
    type V = Index;

    closed spec fn view(&self) -> Index {
        Index { items: self.items@, links: pairs_of(self.links@) }
    }
}

impl State {
    /// The invariant of the index.
    pub open spec fn wf(&self) -> bool {
        pairs_name_links(self@)
    }

    /// Create a new, empty index.
    pub fn new() -> (s: Self)
        ensures
            s.wf(),
            s@.items == Map::<u32, Item>::empty(),
            s@.links == Map::<(u32, u32), u32>::empty(),
    {
        let s = State { items: HashMap::new(), links: HashMap::new() };
        assert(s@.links =~= Map::<(u32, u32), u32>::empty());
        s
    }

    /// Drop the pair entry of `old_item`, the item that was under `id`, where
    /// that entry still names `id`.
    fn unlink(&mut self, id: u32, old_item: Option<Item>)
        ensures
            final(self).items@ == old(self).items@,
            ({
                let before = Index {
                    items: match old_item {
                        Some(x) => map![id => x],
                        None => Map::empty(),
                    },
                    links: pairs_of(old(self).links@),
                };
                pairs_of(final(self).links@) == unlinked(before, id)
            }),
    {
        if let Some(Item::Link { port_from, port_to }) = old_item {
            let k = pack(port_from, port_to);
            let names_id = match self.links.get(&k) {
                Some(l) => *l == id,
                None => false,
            };
            if names_id {
                self.links.remove(&k);
                proof {
                    lemma_pairs_of_remove(old(self).links@, port_from, port_to);
                }
            }
        }
    }

    /// Store `item` under `id`, overwriting only what was under `id`. A link
    /// records its port pair under `id`.
    pub fn insert(&mut self, id: u32, item: Item)
        requires
            old(self).wf(),
        ensures
            final(self).wf(),
            final(self)@ == inserted(old(self)@, id, item),
    {
        let ghost m0 = self@;
        let prev = self.items.insert(id, item);
        self.unlink(id, prev);
        assert(pairs_of(self.links@) == unlinked(m0, id));
        let ghost h1 = self.links@;
        if let Item::Link { port_from, port_to } = item {
            let k = pack(port_from, port_to);
            self.links.insert(k, id);
            proof {
                lemma_pairs_of_insert(h1, port_from, port_to, id);
            }
        }
        proof {
            lemma_inserted_keeps_pairs(m0, id, item);
        }
    }

    /// The item stored under `id`.
    pub fn get(&self, id: u32) -> (r: Option<&Item>)
        ensures
            match r {
                Some(x) => self@.items.contains_key(id) && *x == self@.items[id],
                None => !self@.items.contains_key(id),
            },
    {
        self.items.get(&id)
    }

    /// The id recorded for the link from `output_port` to `input_port`.
    pub fn get_link_id(&self, output_port: u32, input_port: u32) -> (r: Option<u32>)
        ensures
            r == (if self@.links.contains_key((output_port, input_port)) {
                Some(self@.links[(output_port, input_port)])
            } else {
                None::<u32>
            }),
    {
        let k = pack(output_port, input_port);
        match self.links.get(&k) {
            Some(l) => Some(*l),
            None => None,
        }
    }

    /// Remove the item under `id` and return it. A link's pair entry goes too,
    /// where it still names `id`.
    pub fn remove(&mut self, id: u32) -> (r: Option<Item>)
        requires
            old(self).wf(),
        ensures
            final(self).wf(),
            final(self)@ == removed(old(self)@, id),
            r == (if old(self)@.items.contains_key(id) {
                Some(old(self)@.items[id])
            } else {
                None::<Item>
            }),
    {
        let ghost m0 = self@;
        let prev = self.items.remove(&id);
        self.unlink(id, prev);
        proof {
            lemma_removed_keeps_pairs(m0, id);
        }
        prev
    }

    /// The node that the port `port` belongs to; `None` where `port` is absent
    /// or is not a port.
    pub fn get_node_of_port(&self, port: u32) -> (r: Option<u32>)
        ensures
            r == (if self@.items.contains_key(port) && self@.items[port] is Port {
                Some(self@.items[port]->node_id)
            } else {
                None::<u32>
            }),
    {
        if let Some(Item::Port { node_id }) = self.get(port) {
            Some(*node_id)
        } else {
            None
        }
    }
}

} // verus!
