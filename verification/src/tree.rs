//! The node store: stable identities, tree structure, dirty flags and the
//! per-node geometry cache.
//!
//! Ids are assigned by a strictly increasing counter and never reused, even
//! after removal: a removed node's slot is retired permanently. Parent/child
//! edges are kept consistent in both directions, and each child appears in at
//! most one child list, at most once.

use vstd::prelude::*;

use crate::layout::ComputedLayout;
use crate::style::{Display, LayoutStyle, Style};

verus! {

/// Why a structural request was refused.
#[derive(Clone, Copy, Debug, PartialEq, Eq, Structural)]
pub enum StructureReason {
    /// An insertion index beyond the current child count.
    IndexOutOfRange,
    /// The node named as child is already attached to a parent.
    AlreadyAttached,
    /// The insertion would make a node its own ancestor.
    WouldCycle,
    /// The node named as child is not a child of the named parent.
    NotAChild,
    /// The id counter is exhausted.
    IdSpaceExhausted,
    /// An internal constraint the algorithm could not satisfy.
    Internal,
}

/// The two error kinds every operation can surface.
#[derive(Clone, Copy, Debug, PartialEq, Eq, Structural)]
pub enum LayoutError {
    /// The id is absent from the store.
    NodeNotFound(u32),
    /// An invalid structural request.
    Structure(StructureReason),
}

impl LayoutError {
    /// A human-readable diagnostic for this error.
    pub fn message(&self) -> String {
        match self {
            LayoutError::NodeNotFound(_) => "node not found".to_owned(),
            LayoutError::Structure(StructureReason::IndexOutOfRange) => {
                "insert index exceeds the child count".to_owned()
            },
            LayoutError::Structure(StructureReason::AlreadyAttached) => {
                "child already has a parent".to_owned()
            },
            LayoutError::Structure(StructureReason::WouldCycle) => {
                "insertion would create a cycle".to_owned()
            },
            LayoutError::Structure(StructureReason::NotAChild) => {
                "node is not a child of that parent".to_owned()
            },
            LayoutError::Structure(StructureReason::IdSpaceExhausted) => {
                "id counter exhausted".to_owned()
            },
            LayoutError::Structure(StructureReason::Internal) => {
                "internal structural constraint violated".to_owned()
            },
        }
    }
}

/// Externally supplied intrinsic content size for a leaf (e.g. measured text).
#[derive(Clone, Copy, Debug, PartialEq, Eq, Structural)]
pub struct TextContext {
    pub width: i64,
    pub height: i64,
}

/// One stored node.
pub struct NodeData {
    pub style: Style,
    pub children: Vec<u32>,
    pub parent: Option<u32>,
    pub measure: Option<TextContext>,
    pub dirty: bool,
    pub layout: ComputedLayout,
}

/// A retained layout tree: a forest of styled nodes addressed by stable ids.
#[verifier::ext_equal]
pub struct LayoutTree {
    nodes: Vec<Option<NodeData>>,
}

impl LayoutTree {
    /// The store as a sequence of slots; slot `i` belongs to id `i`, and a
    /// retired (removed) id keeps its slot as `None` forever.
    pub closed spec fn nodes_seq(self) -> Seq<Option<NodeData>> {
        self.nodes@
    }

    /// How many ids have ever been created.
    pub open spec fn created(self) -> nat {
        self.nodes_seq().len()
    }

    /// Whether `id` is currently in the store.
    pub open spec fn live(self, id: u32) -> bool {
        id < self.nodes_seq().len() && self.nodes_seq()[id as int] is Some
    }

    /// The stored record of a live id.
    pub open spec fn node_at(self, id: u32) -> NodeData
        recommends
            self.live(id),
    {
        self.nodes_seq()[id as int]->0
    }

    pub open spec fn style_of(self, id: u32) -> Style {
        self.node_at(id).style
    }

    pub open spec fn children_of(self, id: u32) -> Seq<u32> {
        self.node_at(id).children@
    }

    pub open spec fn parent_of(self, id: u32) -> Option<u32> {
        self.node_at(id).parent
    }

    pub open spec fn measure_of(self, id: u32) -> Option<TextContext> {
        self.node_at(id).measure
    }

    pub open spec fn dirty_of(self, id: u32) -> bool {
        self.node_at(id).dirty
    }

    pub open spec fn layout_of(self, id: u32) -> ComputedLayout {
        self.node_at(id).layout
    }

    pub open spec fn has_child(self, parent: u32, child: u32) -> bool {
        self.children_of(parent).contains(child)
    }

    /// Structural well-formedness: every listed child is live and points back
    /// to the listing parent; every parent pointer is matched by a listing;
    /// and no child list holds the same id twice.
    pub open spec fn wf(self) -> bool {
        &&& self.created() <= u32::MAX as nat
        &&& forall|p: u32, k: int|
            self.live(p) && 0 <= k < self.children_of(p).len() ==> {
                let c = #[trigger] self.children_of(p)[k];
                &&& self.live(c)
                &&& self.parent_of(c) == Some(p)
            }
        &&& forall|c: u32|
            self.live(c) && (#[trigger] self.parent_of(c)) is Some ==> {
                let p = self.parent_of(c)->0;
                &&& self.live(p)
                &&& self.has_child(p, c)
            }
        &&& forall|p: u32, k1: int, k2: int|
            self.live(p) && 0 <= k1 < self.children_of(p).len() && 0 <= k2
                < self.children_of(p).len() && k1 != k2 ==> #[trigger] self.children_of(p)[k1]
                != #[trigger] self.children_of(p)[k2]
    }

    /// An empty store.
    pub fn new() -> (r: LayoutTree)
        ensures
            r.created() == 0,
            r.wf(),
    {
        LayoutTree { nodes: Vec::new() }
    }

    /// Allocate a new leaf with the given style description, resolved to its
    /// canonical record. The id is the count of nodes ever created, so it is
    /// strictly greater than every id handed out before, live or retired.
    pub fn create_node(&mut self, style: LayoutStyle) -> (r: Result<u32, LayoutError>)
        requires
            old(self).wf(),
        ensures
            final(self).wf(),
            r matches Ok(id) <==> old(self).created() < u32::MAX as nat,
            !(old(self).created() < u32::MAX as nat) ==> r == Err::<u32, LayoutError>(
                LayoutError::Structure(StructureReason::IdSpaceExhausted),
            ) && *final(self) == *old(self),
            r matches Ok(id) ==> {
                &&& id as nat == old(self).created()
                &&& final(self).created() == old(self).created() + 1
                &&& final(self).live(id)
                &&& final(self).style_of(id) == crate::style::spec_resolve(style)
                &&& final(self).children_of(id) == Seq::<u32>::empty()
                &&& final(self).parent_of(id) is None
                &&& final(self).measure_of(id) is None
                &&& final(self).dirty_of(id) == true
                &&& final(self).layout_of(id) == ComputedLayout::spec_zero()
                &&& forall|n: u32|
                    old(self).live(n) ==> final(self).live(n) && final(self).nodes_seq()[n as int]
                        == old(self).nodes_seq()[n as int]
                &&& forall|n: u32|
                    (n as nat) < old(self).created() ==> final(self).nodes_seq()[n as int] == old(self).nodes_seq()[n as int]
            },
    {
        if self.nodes.len() >= u32::MAX as usize {
            return Err(LayoutError::Structure(StructureReason::IdSpaceExhausted));
        }
        let id = self.nodes.len() as u32;
        let canonical = style.resolve();
        self.nodes.push(
            Some(
                NodeData {
                    style: canonical,
                    children: Vec::new(),
                    parent: None,
                    measure: None,
                    dirty: true,
                    layout: ComputedLayout::zero(),
                },
            ),
        );
        proof {
            let s0 = old(self).nodes_seq();
            assert forall|p: u32, k: int|
                self.live(p) && 0 <= k < self.children_of(p).len() implies {
                let c = #[trigger] self.children_of(p)[k];
                &&& self.live(c)
                &&& self.parent_of(c) == Some(p)
            } by {
                if (p as int) < s0.len() {
                    assert(self.children_of(p) == old(self).children_of(p));
                    let c = old(self).children_of(p)[k];
                    assert(old(self).live(c) && old(self).parent_of(c) == Some(p));
                } else {
                    assert(self.children_of(p).len() == 0);
                }
            }
            assert forall|c: u32| self.live(c) && (#[trigger] self.parent_of(c)) is Some implies {
                let p = self.parent_of(c)->0;
                &&& self.live(p)
                &&& self.has_child(p, c)
            } by {
                if (c as int) < s0.len() {
                    assert(old(self).live(c) && old(self).parent_of(c) is Some);
                    let p = old(self).parent_of(c)->0;
                    assert(old(self).has_child(p, c));
                    assert(self.children_of(p) == old(self).children_of(p));
                }
            }
            assert forall|p: u32, k1: int, k2: int|
                self.live(p) && 0 <= k1 < self.children_of(p).len() && 0 <= k2 < self.children_of(p).len() && k1 != k2 implies #[trigger] self.children_of(p)[k1]
                != #[trigger] self.children_of(p)[k2] by {
                if (p as int) < s0.len() {
                    assert(self.children_of(p) == old(self).children_of(p));
                    assert(old(self).children_of(p)[k1] != old(self).children_of(p)[k2]);
                }
            }
        }
        Ok(id)
    }

    /// Number of direct children.
    pub fn get_child_count(&self, node: u32) -> (r: Result<u32, LayoutError>)
        requires
            self.wf(),
        ensures
            r matches Ok(n) <==> self.live(node) && self.children_of(node).len() <= u32::MAX as nat,
            r matches Ok(n) ==> n as nat == self.children_of(node).len(),
            !self.live(node) ==> r == Err::<u32, LayoutError>(LayoutError::NodeNotFound(node)),
            self.live(node) && self.children_of(node).len() > u32::MAX as nat ==> r == Err::<
                u32,
                LayoutError,
            >(LayoutError::Structure(StructureReason::Internal)),
    {
        if (node as usize) < self.nodes.len() {
            match &self.nodes[node as usize] {
                Some(data) => {
                    if data.children.len() <= u32::MAX as usize {
                        Ok(data.children.len() as u32)
                    } else {
                        Err(LayoutError::Structure(StructureReason::Internal))
                    }
                },
                None => Err(LayoutError::NodeNotFound(node)),
            }
        } else {
            Err(LayoutError::NodeNotFound(node))
        }
    }

    /// The most recently computed geometry; a node never included in a
    /// computation reports the zero-filled default.
    pub fn get_layout(&self, node: u32) -> (r: Result<ComputedLayout, LayoutError>)
        ensures
            r matches Ok(l) <==> self.live(node),
            r matches Ok(l) ==> l == self.layout_of(node),
            !self.live(node) ==> r == Err::<ComputedLayout, LayoutError>(
                LayoutError::NodeNotFound(node),
            ),
    {
        if (node as usize) < self.nodes.len() {
            match &self.nodes[node as usize] {
                Some(data) => Ok(data.layout),
                None => Err(LayoutError::NodeNotFound(node)),
            }
        } else {
            Err(LayoutError::NodeNotFound(node))
        }
    }
}

/// The parent link of a slot: `None` for a dead or out-of-range id.
pub open spec fn parent_link(s: Seq<Option<NodeData>>, id: u32) -> Option<u32> {
    if (id as int) < s.len() && s[id as int] is Some {
        s[id as int]->0.parent
    } else {
        None
    }
}

/// The chain from `id` up through its ancestors to a root, `id` first, or
/// `None` if it does not close within `fuel` steps.
pub open spec fn spec_chain(s: Seq<Option<NodeData>>, id: u32, fuel: nat) -> Option<Seq<u32>>
    decreases fuel,
{
    if fuel == 0 {
        None
    } else {
        match parent_link(s, id) {
            Option::None => Some(seq![id]),
            Option::Some(p) => match spec_chain(s, p, (fuel - 1) as nat) {
                Option::None => None,
                Option::Some(rest) => Some(seq![id] + rest),
            },
        }
    }
}

/// The store with one node's dirty flag set (dead ids leave it unchanged).
pub open spec fn mark_one(s: Seq<Option<NodeData>>, id: u32) -> Seq<Option<NodeData>> {
    if (id as int) < s.len() && s[id as int] is Some {
        s.update(
            id as int,
            Some(
                NodeData {
                    style: s[id as int]->0.style,
                    children: s[id as int]->0.children,
                    parent: s[id as int]->0.parent,
                    measure: s[id as int]->0.measure,
                    dirty: true,
                    layout: s[id as int]->0.layout,
                },
            ),
        )
    } else {
        s
    }
}

/// The store with every listed node's dirty flag set, applied left to right.
pub open spec fn mark_list(s: Seq<Option<NodeData>>, ids: Seq<u32>) -> Seq<Option<NodeData>>
    decreases ids.len(),
{
    if ids.len() == 0 {
        s
    } else {
        mark_list(mark_one(s, ids[0]), ids.skip(1))
    }
}

proof fn lemma_mark_list_push(s: Seq<Option<NodeData>>, ids: Seq<u32>, x: u32)
    ensures
        mark_list(s, ids.push(x)) == mark_one(mark_list(s, ids), x),
    decreases ids.len(),
{
    if ids.len() == 0 {
        assert(ids.push(x)[0] == x);
        assert(ids.push(x).skip(1) =~= Seq::<u32>::empty());
        assert(mark_list(mark_one(s, x), Seq::<u32>::empty()) == mark_one(s, x));
        assert(mark_list(s, ids) == s);
    } else {
        assert(ids.push(x)[0] == ids[0]);
        assert(ids.push(x).skip(1) =~= ids.skip(1).push(x));
        lemma_mark_list_push(mark_one(s, ids[0]), ids.skip(1), x);
    }
}

/// Marking dirties exactly the listed (live) slots and changes nothing else.
proof fn lemma_mark_list_props(s: Seq<Option<NodeData>>, ids: Seq<u32>)
    requires
        s.len() <= u32::MAX as int + 1,
    ensures
        mark_list(s, ids).len() == s.len(),
        forall|i: int|
            #![trigger mark_list(s, ids)[i]]
            0 <= i < s.len() ==> {
                let r = mark_list(s, ids)[i];
                &&& s[i] is None ==> r is None
                &&& s[i] is Some ==> r is Some && r->0.style == s[i]->0.style && r->0.children
                    == s[i]->0.children && r->0.parent == s[i]->0.parent && r->0.measure
                    == s[i]->0.measure && r->0.layout == s[i]->0.layout && r->0.dirty == (
                s[i]->0.dirty || ids.contains(i as u32))
            },
    decreases ids.len(),
{
    if ids.len() == 0 {
        assert(forall|v: u32| !ids.contains(v));
    } else {
        let s1 = mark_one(s, ids[0]);
        lemma_mark_list_props(s1, ids.skip(1));
        assert forall|v: u32| ids.contains(v) <==> (ids[0] == v || ids.skip(1).contains(v)) by {
            if ids.contains(v) {
                let j = choose|j: int| 0 <= j < ids.len() && ids[j] == v;
                if j > 0 {
                    assert(ids.skip(1)[j - 1] == v);
                }
            }
            if ids.skip(1).contains(v) {
                let j = choose|j: int| 0 <= j < ids.skip(1).len() && ids.skip(1)[j] == v;
                assert(ids[j + 1] == v);
            }
        }
    }
}

/// Walk the parent chain of `id` upward, returning the chain (`id` first) or
/// `None` if it does not close within `fuel` steps.
fn walk_chain(nodes: &Vec<Option<NodeData>>, id: u32, fuel: usize) -> (r: Option<Vec<u32>>)
    ensures
        match r {
            Option::None => spec_chain(nodes@, id, fuel as nat) is None,
            Option::Some(v) => spec_chain(nodes@, id, fuel as nat) == Some(v@) && v@.len() >= 1
                && v@[0] == id,
        },
    decreases fuel,
{
    if fuel == 0 {
        return None;
    }
    let p: Option<u32> = if (id as usize) < nodes.len() {
        match &nodes[id as usize] {
            Some(d) => d.parent,
            None => None,
        }
    } else {
        None
    };
    match p {
        None => {
            let mut v: Vec<u32> = Vec::new();
            v.push(id);
            proof {
                assert(v@ =~= seq![id]);
            }
            Some(v)
        },
        Some(pp) => match walk_chain(nodes, pp, fuel - 1) {
            None => None,
            Some(rest) => {
                let ghost prev = rest@;
                let mut whole = rest;
                whole.insert(0, id);
                proof {
                    assert(whole@ =~= seq![id] + prev);
                }
                Some(whole)
            },
        },
    }
}

/// Set the dirty flag of every listed slot.
fn mark_ids(nodes: &mut Vec<Option<NodeData>>, ids: &Vec<u32>)
    ensures
        final(nodes)@ == mark_list(old(nodes)@, ids@),
{
    let ghost s0 = nodes@;
    let mut k: usize = 0;
    while k < ids.len()
        invariant
            k <= ids.len(),
            nodes@ == mark_list(s0, ids@.take(k as int)),
        decreases ids.len() - k,
    {
        let id = ids[k];
        proof {
            lemma_mark_list_push(s0, ids@.take(k as int), id);
            assert(ids@.take(k as int + 1) =~= ids@.take(k as int).push(id));
        }
        let ghost smid = nodes@;
        if (id as usize) < nodes.len() {
            let mut slot: Option<NodeData> = None;
            nodes.set_and_swap(id as usize, &mut slot);
            match slot {
                Some(d_prev) => {
                    let mut d = d_prev;
                    d.dirty = true;
                    nodes.set(id as usize, Some(d));
                },
                None => {
                    nodes.set(id as usize, None);
                },
            }
        }
        proof {
            assert(nodes@ =~= mark_one(smid, id));
        }
        k = k + 1;
    }
    proof {
        assert(ids@.take(ids@.len() as int) =~= ids@);
    }
}

/// Re-establish well-formedness when liveness, child lists and parent links
/// are untouched.
proof fn lemma_wf_same_structure(t0: LayoutTree, t1: LayoutTree)
    requires
        t0.wf(),
        t1.created() == t0.created(),
        forall|n: u32| #[trigger] t1.live(n) == t0.live(n),
        forall|n: u32| t0.live(n) ==> #[trigger] t1.children_of(n) == t0.children_of(n),
        forall|n: u32| t0.live(n) ==> #[trigger] t1.parent_of(n) == t0.parent_of(n),
    ensures
        t1.wf(),
{
    assert forall|p: u32, k: int| t1.live(p) && 0 <= k < t1.children_of(p).len() implies {
        let c = #[trigger] t1.children_of(p)[k];
        &&& t1.live(c)
        &&& t1.parent_of(c) == Some(p)
    } by {
        let c = t0.children_of(p)[k];
        assert(t0.live(c) && t0.parent_of(c) == Some(p));
    }
    assert forall|c: u32| t1.live(c) && (#[trigger] t1.parent_of(c)) is Some implies {
        let p = t1.parent_of(c)->0;
        &&& t1.live(p)
        &&& t1.has_child(p, c)
    } by {
        assert(t0.parent_of(c) is Some);
        let p = t0.parent_of(c)->0;
        assert(t0.live(p) && t0.has_child(p, c));
        assert(t1.children_of(p) == t0.children_of(p));
    }
    assert forall|p: u32, k1: int, k2: int|
        t1.live(p) && 0 <= k1 < t1.children_of(p).len() && 0 <= k2 < t1.children_of(p).len() && k1
            != k2 implies #[trigger] t1.children_of(p)[k1] != #[trigger] t1.children_of(p)[k2] by {
        assert(t0.children_of(p)[k1] != t0.children_of(p)[k2]);
    }
}

impl LayoutTree {
    /// Set `node`'s dirty flag and that of every ancestor up to its root.
    pub fn mark_dirty(&mut self, node: u32) -> (r: Result<(), LayoutError>)
        requires
            old(self).wf(),
        ensures
            final(self).wf(),
            ({
                let ch = spec_chain(old(self).nodes_seq(), node, old(self).created());
                &&& (r matches Ok(u) <==> old(self).live(node) && ch is Some)
                &&& !old(self).live(node) ==> r == Err::<(), LayoutError>(
                    LayoutError::NodeNotFound(node),
                ) && *final(self) == *old(self)
                &&& old(self).live(node) && ch is None ==> r == Err::<(), LayoutError>(
                    LayoutError::Structure(StructureReason::Internal),
                ) && *final(self) == *old(self)
                &&& r is Ok ==> {
                    let ids = ch->0;
                    &&& ids[0] == node
                    &&& ids.contains(node)
                    &&& final(self).created() == old(self).created()
                    &&& forall|n: u32| #[trigger] final(self).live(n) == old(self).live(n)
                    &&& forall|n: u32|
                        old(self).live(n) ==> #[trigger] final(self).children_of(n)
                            == old(self).children_of(n)
                            && final(self).parent_of(n) == old(self).parent_of(n)
                            && final(self).style_of(n) == old(self).style_of(n)
                            && final(self).measure_of(n) == old(self).measure_of(n)
                            && final(self).layout_of(n) == old(self).layout_of(n)
                    &&& forall|n: u32|
                        old(self).live(n) ==> #[trigger] final(self).dirty_of(n)
                            == (old(self).dirty_of(n) || ids.contains(n))
                }
            }),
    {
        if !((node as usize) < self.nodes.len() && self.nodes[node as usize].is_some()) {
            return Err(LayoutError::NodeNotFound(node));
        }
        let fuel = self.nodes.len();
        let ids = match walk_chain(&self.nodes, node, fuel) {
            None => {
                return Err(LayoutError::Structure(StructureReason::Internal));
            },
            Some(v) => v,
        };
        mark_ids(&mut self.nodes, &ids);
        proof {
            lemma_mark_list_props(old(self).nodes_seq(), ids@);
            lemma_wf_same_structure(*old(self), *self);
        }
        Ok(())
    }
}

/// An in-place edit of one node's non-structural fields.
enum NodeEdit {
    PutMeasure(TextContext),
    PutStyle(Style),
    PutDisplay(Display),
}

/// `s` with its display mode replaced.
pub open spec fn with_display(s: Style, d: Display) -> Style {
    Style { display: d, ..s }
}

impl LayoutTree {
    /// Apply `edit` to a live node and mark its ancestor chain dirty.
    fn apply_edit_and_mark(&mut self, node: u32, edit: NodeEdit, ids: Vec<u32>)
        requires
            old(self).wf(),
            old(self).live(node),
            spec_chain(old(self).nodes_seq(), node, old(self).created()) == Some(ids@),
        ensures
            final(self).wf(),
            final(self).created() == old(self).created(),
            forall|n: u32| #[trigger] final(self).live(n) == old(self).live(n),
            forall|n: u32|
                old(self).live(n) ==> #[trigger] final(self).children_of(n)
                    == old(self).children_of(n)
                    && final(self).parent_of(n) == old(self).parent_of(n),
            forall|n: u32|
                old(self).live(n) && n != node ==> #[trigger] final(self).style_of(n)
                    == old(self).style_of(n),
            forall|n: u32|
                old(self).live(n) && n != node ==> #[trigger] final(self).measure_of(n)
                    == old(self).measure_of(n),
            forall|n: u32|
                old(self).live(n) ==> #[trigger] final(self).layout_of(n)
                    == old(self).layout_of(n),
            final(self).style_of(node) == match edit {
                NodeEdit::PutStyle(st) => st,
                NodeEdit::PutDisplay(d) => with_display(old(self).style_of(node), d),
                NodeEdit::PutMeasure(_) => old(self).style_of(node),
            },
            final(self).measure_of(node) == match edit {
                NodeEdit::PutMeasure(m) => Some(m),
                _ => old(self).measure_of(node),
            },
            forall|n: u32|
                old(self).live(n) ==> #[trigger] final(self).dirty_of(n)
                    == (old(self).dirty_of(n) || ids@.contains(n)),
    {
        let mut slot: Option<NodeData> = None;
        self.nodes.set_and_swap(node as usize, &mut slot);
        let mut d = slot.unwrap();
        match edit {
            NodeEdit::PutMeasure(m) => {
                d.measure = Some(m);
            },
            NodeEdit::PutStyle(st) => {
                d.style = st;
            },
            NodeEdit::PutDisplay(dm) => {
                let mut st = d.style;
                st.display = dm;
                d.style = st;
            },
        }
        self.nodes.set(node as usize, Some(d));
        let ghost mid = self.nodes@;
        mark_ids(&mut self.nodes, &ids);
        proof {
            lemma_mark_list_props(mid, ids@);
            lemma_wf_same_structure(*old(self), *self);
        }
    }

    /// Whether `node` is in the store.
    fn is_live(&self, node: u32) -> (r: bool)
        ensures
            r == self.live(node),
    {
        (node as usize) < self.nodes.len() && self.nodes[node as usize].is_some()
    }

    /// Store an externally measured intrinsic content size on `node` and mark
    /// it and every ancestor dirty.
    pub fn set_text_dimensions(&mut self, node: u32, width: i64, height: i64) -> (r: Result<
        (),
        LayoutError,
    >)
        requires
            old(self).wf(),
        ensures
            final(self).wf(),
            ({
                let ch = spec_chain(old(self).nodes_seq(), node, old(self).created());
                &&& (r matches Ok(u) <==> old(self).live(node) && ch is Some)
                &&& !old(self).live(node) ==> r == Err::<(), LayoutError>(
                    LayoutError::NodeNotFound(node),
                ) && *final(self) == *old(self)
                &&& old(self).live(node) && ch is None ==> r == Err::<(), LayoutError>(
                    LayoutError::Structure(StructureReason::Internal),
                ) && *final(self) == *old(self)
                &&& r is Ok ==> {
                    let ids = ch->0;
                    &&& ids[0] == node
                    &&& ids.contains(node)
                    &&& final(self).created() == old(self).created()
                    &&& final(self).measure_of(node) == Some(
                        TextContext { width, height },
                    )
                    &&& final(self).dirty_of(node)
                    &&& forall|n: u32| #[trigger] final(self).live(n) == old(self).live(n)
                    &&& forall|n: u32|
                        old(self).live(n) ==> #[trigger] final(self).children_of(n)
                            == old(self).children_of(n)
                            && final(self).parent_of(n) == old(self).parent_of(n)
                            && final(self).style_of(n) == old(self).style_of(n)
                            && final(self).layout_of(n) == old(self).layout_of(n)
                    &&& forall|n: u32|
                        old(self).live(n) && n != node ==> #[trigger] final(self).measure_of(n)
                            == old(self).measure_of(n)
                    &&& forall|n: u32|
                        old(self).live(n) ==> #[trigger] final(self).dirty_of(n)
                            == (old(self).dirty_of(n) || ids.contains(n))
                }
            }),
    {
        if !self.is_live(node) {
            return Err(LayoutError::NodeNotFound(node));
        }
        let fuel = self.nodes.len();
        let ids = match walk_chain(&self.nodes, node, fuel) {
            None => {
                return Err(LayoutError::Structure(StructureReason::Internal));
            },
            Some(v) => v,
        };
        proof {
            assert(ids@[0] == node);
            assert(ids@.contains(node));
        }
        self.apply_edit_and_mark(node, NodeEdit::PutMeasure(TextContext { width, height }), ids);
        Ok(())
    }

    /// Replace `node`'s style with the canonical resolution of `style` and
    /// mark it and every ancestor dirty.
    #[verifier::rlimit(50)]
    pub fn set_style(&mut self, node: u32, style: LayoutStyle) -> (r: Result<(), LayoutError>)
        requires
            old(self).wf(),
        ensures
            final(self).wf(),
            r matches Ok(u) <==> old(self).live(node) && spec_chain(
                old(self).nodes_seq(),
                node,
                old(self).created(),
            ) is Some,
            !old(self).live(node) ==> r == Err::<(), LayoutError>(
                LayoutError::NodeNotFound(node),
            ) && *final(self) == *old(self),
            old(self).live(node) && spec_chain(
                old(self).nodes_seq(),
                node,
                old(self).created(),
            ) is None ==> r == Err::<(), LayoutError>(
                LayoutError::Structure(StructureReason::Internal),
            ) && *final(self) == *old(self),
            r is Ok ==> spec_chain(old(self).nodes_seq(), node, old(self).created())->0.contains(node) && final(self).created() == old(self).created() && final(self).style_of(node)
                == crate::style::spec_resolve(style) && final(self).dirty_of(node),
            r is Ok ==> forall|n: u32| #[trigger] final(self).live(n) == old(self).live(n),
            r is Ok ==> forall|n: u32|
                old(self).live(n) ==> #[trigger] final(self).children_of(n) == old(self).children_of(n) && final(self).parent_of(n) == old(self).parent_of(n) && final(self).measure_of(n) == old(self).measure_of(n) && final(self).layout_of(n) == old(self).layout_of(n),
            r is Ok ==> forall|n: u32|
                old(self).live(n) && n != node ==> #[trigger] final(self).style_of(n) == old(self).style_of(n),
            r is Ok ==> forall|n: u32|
                old(self).live(n) ==> #[trigger] final(self).dirty_of(n) == (old(self).dirty_of(n)
                    || spec_chain(old(self).nodes_seq(), node, old(self).created())->0.contains(n)),
    {
        if !self.is_live(node) {
            return Err(LayoutError::NodeNotFound(node));
        }
        let fuel = self.nodes.len();
        let ids = match walk_chain(&self.nodes, node, fuel) {
            None => {
                return Err(LayoutError::Structure(StructureReason::Internal));
            },
            Some(v) => v,
        };
        let canonical = style.resolve();
        proof {
            assert(ids@[0] == node);
            assert(ids@.contains(node));
        }
        self.apply_edit_and_mark(node, NodeEdit::PutStyle(canonical), ids);
        proof {
            assert forall|n: u32| old(self).live(n) implies #[trigger] self.measure_of(n) == old(self).measure_of(n) by {
                if n == node {
                    assert(self.measure_of(node) == old(self).measure_of(node));
                }
            }
        }
        Ok(())
    }

    /// Overwrite only the display field with the given mode and mark the
    /// ancestor chain dirty.
    #[verifier::rlimit(50)]
    fn set_display(&mut self, node: u32, mode: Display) -> (r: Result<(), LayoutError>)
        requires
            old(self).wf(),
        ensures
            final(self).wf(),
            r matches Ok(u) <==> old(self).live(node) && spec_chain(
                old(self).nodes_seq(),
                node,
                old(self).created(),
            ) is Some,
            !old(self).live(node) ==> r == Err::<(), LayoutError>(
                LayoutError::NodeNotFound(node),
            ) && *final(self) == *old(self),
            old(self).live(node) && spec_chain(
                old(self).nodes_seq(),
                node,
                old(self).created(),
            ) is None ==> r == Err::<(), LayoutError>(
                LayoutError::Structure(StructureReason::Internal),
            ) && *final(self) == *old(self),
            r is Ok ==> spec_chain(old(self).nodes_seq(), node, old(self).created())->0.contains(node) && final(self).created() == old(self).created() && final(self).style_of(node)
                == with_display(old(self).style_of(node), mode) && final(self).dirty_of(node),
            r is Ok ==> forall|n: u32| #[trigger] final(self).live(n) == old(self).live(n),
            r is Ok ==> forall|n: u32|
                old(self).live(n) ==> #[trigger] final(self).children_of(n) == old(self).children_of(n) && final(self).parent_of(n) == old(self).parent_of(n) && final(self).measure_of(n) == old(self).measure_of(n) && final(self).layout_of(n) == old(self).layout_of(n),
            r is Ok ==> forall|n: u32|
                old(self).live(n) && n != node ==> #[trigger] final(self).style_of(n) == old(self).style_of(n),
            r is Ok ==> forall|n: u32|
                old(self).live(n) ==> #[trigger] final(self).dirty_of(n) == (old(self).dirty_of(n)
                    || spec_chain(old(self).nodes_seq(), node, old(self).created())->0.contains(n)),
    {
        if !self.is_live(node) {
            return Err(LayoutError::NodeNotFound(node));
        }
        let fuel = self.nodes.len();
        let ids = match walk_chain(&self.nodes, node, fuel) {
            None => {
                return Err(LayoutError::Structure(StructureReason::Internal));
            },
            Some(v) => v,
        };
        proof {
            assert(ids@[0] == node);
            assert(ids@.contains(node));
        }
        self.apply_edit_and_mark(node, NodeEdit::PutDisplay(mode), ids);
        proof {
            assert forall|n: u32| old(self).live(n) implies #[trigger] self.measure_of(n) == old(self).measure_of(n) by {
                if n == node {
                    assert(self.measure_of(node) == old(self).measure_of(node));
                }
            }
        }
        Ok(())
    }

    /// Shortcut: overwrite only the display field to the excluded mode.
    pub fn set_display_none(&mut self, node: u32) -> (r: Result<(), LayoutError>)
        requires
            old(self).wf(),
        ensures
            final(self).wf(),
            ({
                let ch = spec_chain(old(self).nodes_seq(), node, old(self).created());
                &&& (r matches Ok(u) <==> old(self).live(node) && ch is Some)
                &&& !old(self).live(node) ==> r == Err::<(), LayoutError>(
                    LayoutError::NodeNotFound(node),
                ) && *final(self) == *old(self)
                &&& r is Ok ==> final(self).style_of(node) == with_display(
                    old(self).style_of(node),
                    Display::Gone,
                ) && final(self).dirty_of(node) && final(self).created() == old(self).created()
                    && (forall|n: u32| #[trigger] final(self).live(n) == old(self).live(n)) && (
                forall|n: u32|
                    old(self).live(n) ==> #[trigger] final(self).children_of(n)
                        == old(self).children_of(n)
                        && final(self).parent_of(n) == old(self).parent_of(n)
                        && final(self).measure_of(n) == old(self).measure_of(n)
                        && final(self).layout_of(n) == old(self).layout_of(n)) && (forall|n: u32|
                    old(self).live(n) && n != node ==> #[trigger] final(self).style_of(n)
                        == old(self).style_of(n))
            }),
    {
        self.set_display(node, Display::Gone)
    }

    /// Shortcut: overwrite only the display field back to flex layout.
    pub fn set_display_flex(&mut self, node: u32) -> (r: Result<(), LayoutError>)
        requires
            old(self).wf(),
        ensures
            final(self).wf(),
            ({
                let ch = spec_chain(old(self).nodes_seq(), node, old(self).created());
                &&& (r matches Ok(u) <==> old(self).live(node) && ch is Some)
                &&& !old(self).live(node) ==> r == Err::<(), LayoutError>(
                    LayoutError::NodeNotFound(node),
                ) && *final(self) == *old(self)
                &&& r is Ok ==> final(self).style_of(node) == with_display(
                    old(self).style_of(node),
                    Display::Flex,
                ) && final(self).dirty_of(node) && final(self).created() == old(self).created()
                    && (forall|n: u32| #[trigger] final(self).live(n) == old(self).live(n)) && (
                forall|n: u32|
                    old(self).live(n) ==> #[trigger] final(self).children_of(n)
                        == old(self).children_of(n)
                        && final(self).parent_of(n) == old(self).parent_of(n)
                        && final(self).measure_of(n) == old(self).measure_of(n)
                        && final(self).layout_of(n) == old(self).layout_of(n)) && (forall|n: u32|
                    old(self).live(n) && n != node ==> #[trigger] final(self).style_of(n)
                        == old(self).style_of(n))
            }),
    {
        self.set_display(node, Display::Flex)
    }
}

/// First position of `x` in `v`, if any.
fn find_index(v: &Vec<u32>, x: u32) -> (r: Option<usize>)
    ensures
        match r {
            Option::Some(i) => i < v@.len() && v@[i as int] == x,
            Option::None => !v@.contains(x),
        },
{
    let mut k: usize = 0;
    while k < v.len()
        invariant
            k <= v@.len(),
            forall|j: int| 0 <= j < k ==> v@[j] != x,
        decreases v@.len() - k,
    {
        if v[k] == x {
            return Some(k);
        }
        k = k + 1;
    }
    None
}

impl LayoutTree {
    /// Insert `child` into `parent`'s ordered child list at `index`. The
    /// operation is atomic: on any error both lists are unchanged. The child
    /// must be detached (no parent) and must not be an ancestor of `parent`.
    pub fn insert_child(&mut self, parent: u32, child: u32, index: u32) -> (r: Result<
        (),
        LayoutError,
    >)
        requires
            old(self).wf(),
        ensures
            final(self).wf(),
            r is Err ==> *final(self) == *old(self),
            !old(self).live(parent) ==> r == Err::<(), LayoutError>(
                LayoutError::NodeNotFound(parent),
            ),
            old(self).live(parent) && !old(self).live(child) ==> r == Err::<(), LayoutError>(
                LayoutError::NodeNotFound(child),
            ),
            old(self).live(parent) && old(self).live(child) && (index as int) > old(self).children_of(parent).len() ==> r == Err::<(), LayoutError>(
                LayoutError::Structure(StructureReason::IndexOutOfRange),
            ),
            old(self).live(parent) && old(self).live(child) && (index as int) <= old(self).children_of(parent).len() && old(self).parent_of(child) is Some ==> r == Err::<
                (),
                LayoutError,
            >(LayoutError::Structure(StructureReason::AlreadyAttached)),
            old(self).live(parent) && old(self).live(child) && (index as int) <= old(self).children_of(parent).len() && old(self).parent_of(child) is None ==> {
                let ch = spec_chain(old(self).nodes_seq(), parent, old(self).created());
                &&& ch is None ==> r == Err::<(), LayoutError>(
                    LayoutError::Structure(StructureReason::Internal),
                )
                &&& ch is Some && ch->0.contains(child) ==> r == Err::<(), LayoutError>(
                    LayoutError::Structure(StructureReason::WouldCycle),
                )
                &&& ch is Some && !ch->0.contains(child) ==> r is Ok
            },
            r is Ok ==> final(self).created() == old(self).created() && final(self).children_of(parent) == old(self).children_of(parent).insert(index as int, child) && final(self).parent_of(child) == Some(parent) && final(self).has_child(parent, child) && child
                != parent,
            r is Ok ==> forall|n: u32| #[trigger] final(self).live(n) == old(self).live(n),
            r is Ok ==> forall|n: u32|
                old(self).live(n) && n != parent ==> #[trigger] final(self).children_of(n) == old(self).children_of(n),
            r is Ok ==> forall|n: u32|
                old(self).live(n) && n != child ==> #[trigger] final(self).parent_of(n) == old(self).parent_of(n),
            r is Ok ==> forall|n: u32|
                old(self).live(n) ==> #[trigger] final(self).style_of(n) == old(self).style_of(n)
                    && final(self).measure_of(n) == old(self).measure_of(n) && final(self).dirty_of(n) == old(self).dirty_of(n) && final(self).layout_of(n) == old(self).layout_of(n),
    {
        if !self.is_live(parent) {
            return Err(LayoutError::NodeNotFound(parent));
        }
        if !self.is_live(child) {
            return Err(LayoutError::NodeNotFound(child));
        }
        let cnt = match &self.nodes[parent as usize] {
            Some(d) => d.children.len(),
            None => 0,
        };
        if (index as usize) > cnt {
            return Err(LayoutError::Structure(StructureReason::IndexOutOfRange));
        }
        let child_parent = match &self.nodes[child as usize] {
            Some(d) => d.parent,
            None => None,
        };
        if child_parent.is_some() {
            return Err(LayoutError::Structure(StructureReason::AlreadyAttached));
        }
        let fuel = self.nodes.len();
        let ids = match walk_chain(&self.nodes, parent, fuel) {
            None => {
                return Err(LayoutError::Structure(StructureReason::Internal));
            },
            Some(v) => v,
        };
        if find_index(&ids, child).is_some() {
            return Err(LayoutError::Structure(StructureReason::WouldCycle));
        }
        proof {
            assert(ids@[0] == parent);
            assert(child != parent);
            // a detached child appears in no list
            assert forall|q: u32, k: int|
                old(self).live(q) && 0 <= k < old(self).children_of(q).len() implies #[trigger] old(self).children_of(q)[k] != child by {
                if old(self).children_of(q)[k] == child {
                    assert(old(self).parent_of(child) == Some(q));
                }
            }
        }
        let mut slot: Option<NodeData> = None;
        self.nodes.set_and_swap(parent as usize, &mut slot);
        let mut pd = slot.unwrap();
        pd.children.insert(index as usize, child);
        self.nodes.set(parent as usize, Some(pd));
        let mut slot2: Option<NodeData> = None;
        self.nodes.set_and_swap(child as usize, &mut slot2);
        let mut cd = slot2.unwrap();
        cd.parent = Some(parent);
        self.nodes.set(child as usize, Some(cd));
        proof {
            let t0 = *old(self);
            let t1 = *self;
            let oldc = t0.children_of(parent);
            oldc.insert_ensures(index as int, child);
            assert(t1.children_of(parent) == oldc.insert(index as int, child));
            assert(t1.children_of(parent)[index as int] == child);
            assert(t1.has_child(parent, child));
            assert forall|p0: u32, k: int|
                t1.live(p0) && 0 <= k < t1.children_of(p0).len() implies {
                let c = #[trigger] t1.children_of(p0)[k];
                &&& t1.live(c)
                &&& t1.parent_of(c) == Some(p0)
            } by {
                if p0 == parent {
                    let c = t1.children_of(p0)[k];
                    if k < index as int {
                        assert(c == oldc[k]);
                        assert(t0.live(c) && t0.parent_of(c) == Some(parent));
                        assert(c != child);
                    } else if k == index as int {
                        assert(c == child);
                    } else {
                        assert(c == oldc[k - 1]);
                        assert(t0.live(c) && t0.parent_of(c) == Some(parent));
                        assert(c != child);
                    }
                } else {
                    let c = t1.children_of(p0)[k];
                    assert(c == t0.children_of(p0)[k]);
                    assert(t0.live(c) && t0.parent_of(c) == Some(p0));
                    assert(c != child);
                }
            }
            assert forall|c0: u32| t1.live(c0) && (#[trigger] t1.parent_of(c0)) is Some implies {
                let q = t1.parent_of(c0)->0;
                &&& t1.live(q)
                &&& t1.has_child(q, c0)
            } by {
                if c0 == child {
                    assert(t1.parent_of(c0) == Some(parent));
                } else {
                    assert(t1.parent_of(c0) == t0.parent_of(c0));
                    let q = t0.parent_of(c0)->0;
                    assert(t0.live(q) && t0.has_child(q, c0));
                    let j = choose|j: int|
                        0 <= j < t0.children_of(q).len() && t0.children_of(q)[j] == c0;
                    if q == parent {
                        if j < index as int {
                            assert(t1.children_of(q)[j] == c0);
                        } else {
                            assert(t1.children_of(q)[j + 1] == c0);
                        }
                    } else {
                        assert(t1.children_of(q)[j] == c0);
                    }
                    assert(t1.has_child(q, c0));
                }
            }
            assert forall|p0: u32, k1: int, k2: int|
                t1.live(p0) && 0 <= k1 < t1.children_of(p0).len() && 0 <= k2 < t1.children_of(p0).len() && k1 != k2 implies #[trigger] t1.children_of(p0)[k1]
                != #[trigger] t1.children_of(p0)[k2] by {
                if p0 == parent {
                    let a = t1.children_of(p0)[k1];
                    let b = t1.children_of(p0)[k2];
                    if k1 == index as int {
                        assert(a == child);
                        assert(b == (if k2 < index as int {
                            oldc[k2]
                        } else {
                            oldc[k2 - 1]
                        }));
                        assert(b != child);
                    } else if k2 == index as int {
                        assert(b == child);
                        assert(a == (if k1 < index as int {
                            oldc[k1]
                        } else {
                            oldc[k1 - 1]
                        }));
                        assert(a != child);
                    } else {
                        let j1: int = if k1 < index as int {
                            k1
                        } else {
                            k1 - 1
                        };
                        let j2: int = if k2 < index as int {
                            k2
                        } else {
                            k2 - 1
                        };
                        assert(a == oldc[j1] && b == oldc[j2]);
                        assert(j1 != j2);
                        assert(oldc[j1] != oldc[j2]);
                    }
                } else {
                    assert(t0.children_of(p0)[k1] != t0.children_of(p0)[k2]);
                }
            }
        }
        Ok(())
    }
}

impl LayoutTree {
    /// Detach `child` from `parent`'s child list, preserving the relative
    /// order of the remaining children. Fails with a structural error when
    /// the relation does not exist; a second identical removal therefore
    /// always fails. Does not delete `child` itself.
    pub fn remove_child(&mut self, parent: u32, child: u32) -> (r: Result<(), LayoutError>)
        requires
            old(self).wf(),
        ensures
            final(self).wf(),
            r is Err ==> *final(self) == *old(self),
            !old(self).live(parent) ==> r == Err::<(), LayoutError>(
                LayoutError::NodeNotFound(parent),
            ),
            old(self).live(parent) && !old(self).live(child) ==> r == Err::<(), LayoutError>(
                LayoutError::NodeNotFound(child),
            ),
            old(self).live(parent) && old(self).live(child) && !old(self).has_child(
                parent,
                child,
            ) ==> r == Err::<(), LayoutError>(
                LayoutError::Structure(StructureReason::NotAChild),
            ),
            r is Ok <==> old(self).live(parent) && old(self).live(child) && old(self).has_child(
                parent,
                child,
            ),
            r is Ok ==> final(self).created() == old(self).created() && !final(self).has_child(
                parent,
                child,
            ) && final(self).parent_of(child) is None,
            r is Ok ==> exists|i: int|
                0 <= i < old(self).children_of(parent).len() && old(self).children_of(parent)[i]
                    == child && final(self).children_of(parent) == old(self).children_of(
                    parent,
                ).remove(i),
            r is Ok ==> forall|n: u32| #[trigger] final(self).live(n) == old(self).live(n),
            r is Ok ==> forall|n: u32|
                old(self).live(n) && n != parent ==> #[trigger] final(self).children_of(n)
                    == old(self).children_of(n),
            r is Ok ==> forall|n: u32|
                old(self).live(n) && n != child ==> #[trigger] final(self).parent_of(n)
                    == old(self).parent_of(n),
            r is Ok ==> forall|n: u32|
                old(self).live(n) ==> #[trigger] final(self).style_of(n) == old(self).style_of(n)
                    && final(self).measure_of(n) == old(self).measure_of(n)
                    && final(self).dirty_of(n) == old(self).dirty_of(n)
                    && final(self).layout_of(n) == old(self).layout_of(n),
    {
        if !self.is_live(parent) {
            return Err(LayoutError::NodeNotFound(parent));
        }
        if !self.is_live(child) {
            return Err(LayoutError::NodeNotFound(child));
        }
        let pos_found: Option<usize> = match &self.nodes[parent as usize] {
            Some(d) => find_index(&d.children, child),
            None => None,
        };
        let pos = match pos_found {
            None => {
                return Err(LayoutError::Structure(StructureReason::NotAChild));
            },
            Some(i) => i,
        };
        let mut slot: Option<NodeData> = None;
        self.nodes.set_and_swap(parent as usize, &mut slot);
        let mut pd = slot.unwrap();
        pd.children.remove(pos);
        self.nodes.set(parent as usize, Some(pd));
        let mut slot2: Option<NodeData> = None;
        self.nodes.set_and_swap(child as usize, &mut slot2);
        let mut cd = slot2.unwrap();
        cd.parent = None;
        self.nodes.set(child as usize, Some(cd));
        proof {
            let t0 = *old(self);
            let t1 = *self;
            let oldc = t0.children_of(parent);
            oldc.remove_ensures(pos as int);
            assert(t0.parent_of(child) == Some(parent));
            assert(child != parent ==> t1.children_of(parent) == oldc.remove(pos as int));
            assert(child == parent ==> t1.children_of(parent) == oldc.remove(pos as int));
            assert(t1.children_of(parent) == oldc.remove(pos as int));
            // the removed position held the only occurrence
            assert forall|k: int|
                0 <= k < t1.children_of(parent).len() implies #[trigger] t1.children_of(parent)[k]
                != child by {
                if k < pos as int {
                    assert(t1.children_of(parent)[k] == oldc[k]);
                    assert(oldc[k] != oldc[pos as int]);
                } else {
                    assert(t1.children_of(parent)[k] == oldc[k + 1]);
                    assert(oldc[k + 1] != oldc[pos as int]);
                }
            }
            assert(!t1.has_child(parent, child));
            assert forall|p0: u32, k: int|
                t1.live(p0) && 0 <= k < t1.children_of(p0).len() implies {
                let c = #[trigger] t1.children_of(p0)[k];
                &&& t1.live(c)
                &&& t1.parent_of(c) == Some(p0)
            } by {
                if p0 == parent {
                    let c = t1.children_of(p0)[k];
                    let j: int = if k < pos as int {
                        k
                    } else {
                        k + 1
                    };
                    assert(c == oldc[j]);
                    assert(t0.live(c) && t0.parent_of(c) == Some(parent));
                    assert(c != child);
                } else {
                    let c = t1.children_of(p0)[k];
                    assert(c == t0.children_of(p0)[k]);
                    assert(t0.live(c) && t0.parent_of(c) == Some(p0));
                    assert(c != child);
                }
            }
            assert forall|c0: u32| t1.live(c0) && (#[trigger] t1.parent_of(c0)) is Some implies {
                let q = t1.parent_of(c0)->0;
                &&& t1.live(q)
                &&& t1.has_child(q, c0)
            } by {
                assert(c0 != child);
                assert(t1.parent_of(c0) == t0.parent_of(c0));
                let q = t0.parent_of(c0)->0;
                assert(t0.live(q) && t0.has_child(q, c0));
                let j = choose|j: int|
                    0 <= j < t0.children_of(q).len() && t0.children_of(q)[j] == c0;
                if q == parent {
                    assert(j != pos as int);
                    if j < pos as int {
                        assert(t1.children_of(q)[j] == c0);
                    } else {
                        assert(t1.children_of(q)[j - 1] == c0);
                    }
                } else {
                    assert(t1.children_of(q)[j] == c0);
                }
                assert(t1.has_child(q, c0));
            }
            assert forall|p0: u32, k1: int, k2: int|
                t1.live(p0) && 0 <= k1 < t1.children_of(p0).len() && 0 <= k2 < t1.children_of(
                    p0,
                ).len() && k1 != k2 implies #[trigger] t1.children_of(p0)[k1]
                != #[trigger] t1.children_of(p0)[k2] by {
                if p0 == parent {
                    let j1: int = if k1 < pos as int {
                        k1
                    } else {
                        k1 + 1
                    };
                    let j2: int = if k2 < pos as int {
                        k2
                    } else {
                        k2 + 1
                    };
                    assert(t1.children_of(p0)[k1] == oldc[j1]);
                    assert(t1.children_of(p0)[k2] == oldc[j2]);
                    assert(j1 != j2);
                    assert(oldc[j1] != oldc[j2]);
                } else {
                    assert(t0.children_of(p0)[k1] != t0.children_of(p0)[k2]);
                }
            }
        }
        Ok(())
    }
}

impl LayoutTree {
    /// Delete `node` from the store and retire its id permanently. The node
    /// is detached from its parent; its children, if any, are orphaned (their
    /// parent link is cleared), not recursively removed.
    #[verifier::rlimit(100)]
    pub fn remove_node(&mut self, node: u32) -> (r: Result<(), LayoutError>)
        requires
            old(self).wf(),
        ensures
            final(self).wf(),
            r is Err ==> *final(self) == *old(self),
            r is Ok <==> old(self).live(node),
            !old(self).live(node) ==> r == Err::<(), LayoutError>(
                LayoutError::NodeNotFound(node),
            ),
            r is Ok ==> final(self).created() == old(self).created() && !final(self).live(node),
            r is Ok ==> forall|n: u32|
                n != node ==> #[trigger] final(self).live(n) == old(self).live(n),
            r is Ok ==> forall|n: u32|
                old(self).live(n) && n != node && old(self).children_of(node).contains(n)
                    ==> #[trigger] final(self).parent_of(n) is None,
            r is Ok ==> forall|n: u32|
                old(self).live(n) && n != node && !old(self).children_of(node).contains(n)
                    ==> #[trigger] final(self).parent_of(n) == old(self).parent_of(n),
            r is Ok ==> forall|n: u32|
                old(self).live(n) && n != node && old(self).parent_of(node) != Some(n)
                    ==> #[trigger] final(self).children_of(n) == old(self).children_of(n),
            r is Ok ==> ({
                let po = old(self).parent_of(node);
                po is Some && po->0 != node ==> exists|i: int|
                    0 <= i < old(self).children_of(po->0).len() && old(self).children_of(
                        po->0,
                    )[i] == node && #[trigger] final(self).children_of(po->0) == old(self).children_of(po->0).remove(i)
            }),
            r is Ok ==> ({
                let po = old(self).parent_of(node);
                po is Some && po->0 != node ==> !final(self).has_child(po->0, node)
            }),
            r is Ok ==> forall|n: u32|
                old(self).live(n) && n != node ==> #[trigger] final(self).style_of(n) == old(self).style_of(n) && final(self).measure_of(n) == old(self).measure_of(n) && final(self).dirty_of(n) == old(self).dirty_of(n) && final(self).layout_of(n) == old(self).layout_of(n),
    {
        if !self.is_live(node) {
            return Err(LayoutError::NodeNotFound(node));
        }
        // detach from the parent, if any
        let parent_opt: Option<u32> = match &self.nodes[node as usize] {
            Some(d) => d.parent,
            None => None,
        };
        if let Some(p) = parent_opt {
            let pos_found: Option<usize> = match &self.nodes[p as usize] {
                Some(d) => find_index(&d.children, node),
                None => None,
            };
            match pos_found {
                Some(pos) => {
                    let mut slot: Option<NodeData> = None;
                    self.nodes.set_and_swap(p as usize, &mut slot);
                    let mut pd = slot.unwrap();
                    pd.children.remove(pos);
                    self.nodes.set(p as usize, Some(pd));
                    proof {
                        old(self).children_of(p).remove_ensures(pos as int);
                        assert(exists|z: int|
                            0 <= z < old(self).children_of(p).len() && old(self).children_of(
                                p,
                            )[z] == node && #[trigger] old(self).children_of(p).remove(z)
                                == self.nodes@[p as int]->0.children@);
                    }
                },
                None => {
                    proof {
                        assert(old(self).has_child(p, node));
                        assert(false);
                    }
                },
            }
        }
        let ghost smid = self.nodes@;
        let ghost t0 = *old(self);
        proof {
            assert(smid.len() == t0.nodes_seq().len());
            assert(parent_opt == t0.parent_of(node));
            // after detaching, the node is in no child list of the mid state
            assert forall|q: u32, k: int|
                (q as int) < smid.len() && smid[q as int] is Some && 0 <= k
                    < smid[q as int]->0.children@.len()
                    implies #[trigger] smid[q as int]->0.children@[k] != node by {
                if (q as int) < smid.len() && smid[q as int] is Some && smid[q as int]->0.children@[k] == node {
                    match parent_opt {
                        Option::Some(p) => {
                            assert forall|i: int|
                                0 <= i < smid.len() && i != p as int implies smid[i]
                                == t0.nodes_seq()[i] by {}
                            if q == p {
                                let z = choose|z: int|
                                    0 <= z < t0.children_of(p).len() && t0.children_of(p)[z]
                                        == node && #[trigger] t0.children_of(p).remove(z)
                                        == smid[p as int]->0.children@;
                                t0.children_of(p).remove_ensures(z);
                                let j: int = if k < z {
                                    k
                                } else {
                                    k + 1
                                };
                                assert(t0.children_of(p)[j] == node);
                                assert(t0.children_of(p)[z] == node);
                                assert(j != z);
                                assert(false);
                            } else {
                                assert(smid[q as int] == t0.nodes_seq()[q as int]);
                                assert(t0.children_of(q)[k] == node);
                                assert(t0.parent_of(node) == Some(q));
                                assert(false);
                            }
                        },
                        Option::None => {
                            assert(smid[q as int] == t0.nodes_seq()[q as int]);
                            assert(t0.children_of(q)[k] == node);
                            assert(t0.parent_of(node) == Some(q));
                            assert(false);
                        },
                    }
                }
            }
        }
        // orphan the children
        let child_list_len: usize = match &self.nodes[node as usize] {
            Some(d) => d.children.len(),
            None => 0,
        };
        let ghost cs = smid[node as int]->0.children@;
        let mut k: usize = 0;
        while k < child_list_len
            invariant
                t0.wf(),
                t0.live(node),
                smid.len() == t0.created(),
                self.nodes@.len() == smid.len(),
                k <= child_list_len,
                smid[node as int] is Some,
                cs == smid[node as int]->0.children@,
                child_list_len == cs.len(),
                forall|q: u32, j: int|
                    (q as int) < smid.len() && smid[q as int] is Some && 0 <= j
                        < smid[q as int]->0.children@.len()
                        ==> #[trigger] smid[q as int]->0.children@[j] != node,
                forall|i: int|
                    0 <= i < smid.len() && !cs.take(k as int).contains(i as u32)
                        ==> self.nodes@[i] == smid[i],
                forall|i: int|
                    0 <= i < smid.len() && cs.take(k as int).contains(i as u32) ==> {
                        &&& #[trigger] self.nodes@[i] is Some == smid[i] is Some
                        &&& smid[i] is Some ==> self.nodes@[i]->0.parent is None
                            && self.nodes@[i]->0.style == smid[i]->0.style
                            && self.nodes@[i]->0.children == smid[i]->0.children
                            && self.nodes@[i]->0.measure == smid[i]->0.measure
                            && self.nodes@[i]->0.dirty == smid[i]->0.dirty
                            && self.nodes@[i]->0.layout == smid[i]->0.layout
                    },
            decreases child_list_len - k,
        {
            proof {
                assert(!cs.take(k as int).contains(node));
                assert(self.nodes@[node as int] == smid[node as int]);
            }
            let c: u32 = match &self.nodes[node as usize] {
                Some(d) => d.children[k],
                None => 0,
            };
            proof {
                assert(c == cs[k as int]);
                assert(c != node);
            }
            if (c as usize) < self.nodes.len() {
                let mut slot: Option<NodeData> = None;
                self.nodes.set_and_swap(c as usize, &mut slot);
                match slot {
                    Some(d_prev) => {
                        let mut d = d_prev;
                        d.parent = None;
                        self.nodes.set(c as usize, Some(d));
                    },
                    None => {
                        self.nodes.set(c as usize, None);
                    },
                }
            }
            proof {
                assert(cs.take(k as int + 1) =~= cs.take(k as int).push(c));
                assert forall|v: u32| cs.take(k as int + 1).contains(v) implies (cs.take(k as int).contains(v) || v == c) by {
                    let j = choose|j: int|
                        0 <= j < cs.take(k as int + 1).len() && #[trigger] cs.take(
                            k as int + 1,
                        )[j] == v;
                    if j < k as int {
                        assert(cs.take(k as int)[j] == v);
                    }
                }
                assert forall|v: u32| (cs.take(k as int).contains(v) || v == c) implies cs.take(
                    k as int + 1,
                ).contains(v) by {
                    if cs.take(k as int).contains(v) {
                        let j = choose|j: int|
                            0 <= j < cs.take(k as int).len() && #[trigger] cs.take(
                                k as int,
                            )[j] == v;
                        assert(cs.take(k as int + 1)[j] == v);
                    } else {
                        assert(cs.take(k as int + 1)[k as int] == v);
                    }
                }
            }
            k = k + 1;
        }
        let ghost spost = self.nodes@;
        proof {
            assert(cs.take(child_list_len as int) =~= cs);
        }
        // retire the slot
        self.nodes.set(node as usize, None);
        proof {
            let t1 = *self;
            let po = t0.parent_of(node);
            assert(t1.nodes_seq() == spost.update(node as int, None));
            assert forall|i: int|
                0 <= i < smid.len() && i != node as int implies t1.nodes_seq()[i] == spost[i] by {}
            assert forall|i: int|
                0 <= i < smid.len() && !cs.contains(i as u32) implies spost[i] == smid[i] by {}
            assert forall|i: int|
                0 <= i < smid.len() && (po is None || po->0 as int != i) implies smid[i]
                == t0.nodes_seq()[i] by {}
            assert forall|v: u32|
                v != node implies (cs.contains(v) <==> t0.children_of(node).contains(v)) by {
                if po == Some(node) {
                    let z = choose|z: int|
                        0 <= z < t0.children_of(node).len() && t0.children_of(node)[z] == node
                            && #[trigger] t0.children_of(node).remove(z)
                            == smid[node as int]->0.children@;
                    t0.children_of(node).remove_ensures(z);
                    if t0.children_of(node).contains(v) {
                        let j = choose|j: int|
                            0 <= j < t0.children_of(node).len() && #[trigger] t0.children_of(
                                node,
                            )[j] == v;
                        if j < z {
                            assert(cs[j] == v);
                        } else {
                            assert(j != z);
                            assert(cs[j - 1] == v);
                        }
                    }
                    if cs.contains(v) {
                        let j = choose|j: int| 0 <= j < cs.len() && #[trigger] cs[j] == v;
                        if j < z {
                            assert(t0.children_of(node)[j] == v);
                        } else {
                            assert(t0.children_of(node)[j + 1] == v);
                        }
                    }
                } else {
                    assert(smid[node as int] == t0.nodes_seq()[node as int]);
                }
            }
            assert forall|v: u32| cs.contains(v) implies t0.live(v) && t0.parent_of(v) == Some(
                node,
            ) by {
                let j = choose|j: int| 0 <= j < cs.len() && #[trigger] cs[j] == v;
                assert(smid[node as int]->0.children@[j] == v);
                assert(v != node);
                assert(t0.children_of(node).contains(v));
                let j2 = choose|j2: int|
                    0 <= j2 < t0.children_of(node).len() && #[trigger] t0.children_of(node)[j2]
                        == v;
                assert(t0.children_of(node)[j2] == v);
            }
            assert forall|p0: u32, j: int|
                t1.live(p0) && 0 <= j < t1.children_of(p0).len() implies {
                let c = #[trigger] t1.children_of(p0)[j];
                &&& t1.live(c)
                &&& t1.parent_of(c) == Some(p0)
            } by {
                assert(p0 != node);
                assert(t1.children_of(p0) == smid[p0 as int]->0.children@);
                let c = t1.children_of(p0)[j];
                assert(c != node);
                if po == Some(p0) {
                    let z = choose|z: int|
                        0 <= z < t0.children_of(p0).len() && t0.children_of(p0)[z] == node
                            && #[trigger] t0.children_of(p0).remove(z)
                            == smid[p0 as int]->0.children@;
                    t0.children_of(p0).remove_ensures(z);
                    if j < z {
                        assert(c == t0.children_of(p0)[j]);
                    } else {
                        assert(c == t0.children_of(p0)[j + 1]);
                    }
                } else {
                    assert(smid[p0 as int] == t0.nodes_seq()[p0 as int]);
                    assert(c == t0.children_of(p0)[j]);
                }
                assert(t0.live(c) && t0.parent_of(c) == Some(p0));
                assert(!cs.contains(c));
                assert(t1.nodes_seq()[c as int] == smid[c as int]);
                assert(t1.live(c));
                assert(t1.parent_of(c) == Some(p0));
            }
            assert forall|c0: u32| t1.live(c0) && (#[trigger] t1.parent_of(c0)) is Some implies {
                let q = t1.parent_of(c0)->0;
                &&& t1.live(q)
                &&& t1.has_child(q, c0)
            } by {
                assert(c0 != node);
                assert(!cs.contains(c0));
                assert(t1.nodes_seq()[c0 as int] == smid[c0 as int]);
                assert(t1.parent_of(c0) == t0.parent_of(c0));
                assert(t0.live(c0));
                let q = t1.parent_of(c0)->0;
                assert(t0.live(q) && t0.has_child(q, c0));
                if q == node {
                    assert(t0.children_of(node).contains(c0));
                    assert(cs.contains(c0));
                }
                assert(q != node);
                assert(t1.live(q));
                let j = choose|j: int|
                    0 <= j < t0.children_of(q).len() && #[trigger] t0.children_of(q)[j] == c0;
                assert(t1.children_of(q) == smid[q as int]->0.children@);
                if po == Some(q) {
                    let z = choose|z: int|
                        0 <= z < t0.children_of(q).len() && t0.children_of(q)[z] == node
                            && #[trigger] t0.children_of(q).remove(z)
                            == smid[q as int]->0.children@;
                    t0.children_of(q).remove_ensures(z);
                    assert(j != z);
                    if j < z {
                        assert(t1.children_of(q)[j] == c0);
                    } else {
                        assert(t1.children_of(q)[j - 1] == c0);
                    }
                } else {
                    assert(smid[q as int] == t0.nodes_seq()[q as int]);
                    assert(t1.children_of(q)[j] == c0);
                }
                assert(t1.has_child(q, c0));
            }
            assert forall|p0: u32, k1: int, k2: int|
                t1.live(p0) && 0 <= k1 < t1.children_of(p0).len() && 0 <= k2 < t1.children_of(
                    p0,
                ).len() && k1 != k2 implies #[trigger] t1.children_of(p0)[k1]
                != #[trigger] t1.children_of(p0)[k2] by {
                assert(p0 != node);
                assert(t1.children_of(p0) == smid[p0 as int]->0.children@);
                if po == Some(p0) {
                    let z = choose|z: int|
                        0 <= z < t0.children_of(p0).len() && t0.children_of(p0)[z] == node
                            && #[trigger] t0.children_of(p0).remove(z)
                            == smid[p0 as int]->0.children@;
                    t0.children_of(p0).remove_ensures(z);
                    let j1: int = if k1 < z {
                        k1
                    } else {
                        k1 + 1
                    };
                    let j2: int = if k2 < z {
                        k2
                    } else {
                        k2 + 1
                    };
                    assert(t1.children_of(p0)[k1] == t0.children_of(p0)[j1]);
                    assert(t1.children_of(p0)[k2] == t0.children_of(p0)[j2]);
                    assert(t0.children_of(p0)[j1] != t0.children_of(p0)[j2]);
                } else {
                    assert(smid[p0 as int] == t0.nodes_seq()[p0 as int]);
                    assert(t0.children_of(p0)[k1] != t0.children_of(p0)[k2]);
                }
            }
            if po is Some && po->0 != node {
                let pq = po->0;
                let z = choose|z: int|
                    0 <= z < t0.children_of(pq).len() && t0.children_of(pq)[z] == node
                        && #[trigger] t0.children_of(pq).remove(z)
                        == smid[pq as int]->0.children@;
                t0.children_of(pq).remove_ensures(z);
                assert(t1.children_of(pq) == smid[pq as int]->0.children@);
                assert(t1.children_of(pq) == t0.children_of(pq).remove(z));
                assert forall|k: int|
                    0 <= k < t1.children_of(pq).len() implies #[trigger] t1.children_of(pq)[k]
                    != node by {
                    assert(t1.children_of(pq) == smid[pq as int]->0.children@);
                }
                assert(!t1.has_child(pq, node));
            }
        }
        Ok(())
    }
}

/// The store with one node's cached geometry replaced and its dirty flag
/// cleared (dead ids leave it unchanged).
pub open spec fn put_layout(s: Seq<Option<NodeData>>, id: u32, cl: ComputedLayout) -> Seq<
    Option<NodeData>,
> {
    if (id as int) < s.len() && s[id as int] is Some {
        s.update(
            id as int,
            Some(
                NodeData {
                    style: s[id as int]->0.style,
                    children: s[id as int]->0.children,
                    parent: s[id as int]->0.parent,
                    measure: s[id as int]->0.measure,
                    dirty: false,
                    layout: cl,
                },
            ),
        )
    } else {
        s
    }
}

/// The store with every computed entry written, applied left to right.
pub open spec fn apply_entries(
    s: Seq<Option<NodeData>>,
    es: Seq<(u32, ComputedLayout)>,
) -> Seq<Option<NodeData>>
    decreases es.len(),
{
    if es.len() == 0 {
        s
    } else {
        apply_entries(put_layout(s, es[0].0, es[0].1), es.skip(1))
    }
}

proof fn lemma_apply_push(s: Seq<Option<NodeData>>, es: Seq<(u32, ComputedLayout)>, e: (u32, ComputedLayout))
    ensures
        apply_entries(s, es.push(e)) == put_layout(apply_entries(s, es), e.0, e.1),
    decreases es.len(),
{
    if es.len() == 0 {
        assert(es.push(e)[0] == e);
        assert(es.push(e).skip(1) =~= Seq::<(u32, ComputedLayout)>::empty());
        assert(apply_entries(put_layout(s, e.0, e.1), Seq::<(u32, ComputedLayout)>::empty())
            == put_layout(s, e.0, e.1));
        assert(apply_entries(s, es) == s);
    } else {
        assert(es.push(e)[0] == es[0]);
        assert(es.push(e).skip(1) =~= es.skip(1).push(e));
        lemma_apply_push(put_layout(s, es[0].0, es[0].1), es.skip(1), e);
    }
}

/// Writing geometry changes only layouts and dirty flags: liveness, styles,
/// children, parents and measurements are untouched.
proof fn lemma_apply_props(s: Seq<Option<NodeData>>, es: Seq<(u32, ComputedLayout)>)
    ensures
        apply_entries(s, es).len() == s.len(),
        forall|i: int|
            #![trigger apply_entries(s, es)[i]]
            0 <= i < s.len() ==> {
                let r = apply_entries(s, es)[i];
                &&& s[i] is None ==> r is None
                &&& s[i] is Some ==> r is Some && r->0.style == s[i]->0.style && r->0.children
                    == s[i]->0.children && r->0.parent == s[i]->0.parent && r->0.measure
                    == s[i]->0.measure
            },
    decreases es.len(),
{
    if es.len() != 0 {
        lemma_apply_props(put_layout(s, es[0].0, es[0].1), es.skip(1));
    }
}

/// Write the computed entries into the store.
fn write_entries(nodes: &mut Vec<Option<NodeData>>, es: &Vec<(u32, ComputedLayout)>)
    ensures
        final(nodes)@ == apply_entries(old(nodes)@, es@),
{
    let ghost s0 = nodes@;
    let mut k: usize = 0;
    while k < es.len()
        invariant
            k <= es.len(),
            nodes@ == apply_entries(s0, es@.take(k as int)),
        decreases es.len() - k,
    {
        let (id, cl) = es[k];
        proof {
            lemma_apply_push(s0, es@.take(k as int), es@[k as int]);
            assert(es@.take(k as int + 1) =~= es@.take(k as int).push(es@[k as int]));
        }
        let ghost smid = nodes@;
        if (id as usize) < nodes.len() {
            let mut slot: Option<NodeData> = None;
            nodes.set_and_swap(id as usize, &mut slot);
            match slot {
                Some(d_prev) => {
                    let mut d = d_prev;
                    d.layout = cl;
                    d.dirty = false;
                    nodes.set(id as usize, Some(d));
                },
                None => {
                    nodes.set(id as usize, None);
                },
            }
        }
        proof {
            assert(nodes@ =~= put_layout(smid, id, cl));
        }
        k = k + 1;
    }
    proof {
        assert(es@.take(es@.len() as int) =~= es@);
    }
}

/// The geometry a computation writes is a pure function of the store
/// snapshot and the available space: identical inputs give identical
/// entries, and therefore identical cached geometry.
pub proof fn lemma_compute_deterministic(
    s1: Seq<Option<NodeData>>,
    s2: Seq<Option<NodeData>>,
    root: u32,
    aw: i64,
    ah: Option<i64>,
    fuel: nat,
)
    requires
        s1 == s2,
    ensures
        crate::engine::spec_compute(s1, root, aw, ah, fuel) == crate::engine::spec_compute(
            s2,
            root,
            aw,
            ah,
            fuel,
        ),
{
}

/// Ids are strictly increasing and never reused: every id ever handed out is
/// below the creation count at its time, the count never decreases, and a
/// creation returns exactly the current count, so a later creation returns a
/// strictly larger id even across removals.
pub proof fn lemma_ids_strictly_increase(earlier: nat, later: nat, id_old: u32, id_new: u32)
    requires
        (id_old as nat) < earlier,
        earlier <= later,
        id_new as nat == later,
    ensures
        id_new > id_old,
{
}

impl LayoutTree {
    /// Compute geometry for `root` and its whole subtree: `width` is the
    /// definite available width; an absent `height` selects max-content
    /// sizing. The computed entries overwrite the geometry cache and clear
    /// the dirty flags of every node the computation included.
    pub fn compute_layout(&mut self, root: u32, width: i64, height: Option<i64>) -> (r: Result<
        (),
        LayoutError,
    >)
        requires
            old(self).wf(),
        ensures
            final(self).wf(),
            r matches Ok(u) <==> old(self).live(root) && crate::engine::spec_compute(
                old(self).nodes_seq(),
                root,
                width,
                height,
                old(self).created(),
            ) is Some,
            !old(self).live(root) ==> r == Err::<(), LayoutError>(
                LayoutError::NodeNotFound(root),
            ) && *final(self) == *old(self),
            old(self).live(root) && crate::engine::spec_compute(
                old(self).nodes_seq(),
                root,
                width,
                height,
                old(self).created(),
            ) is None ==> r == Err::<(), LayoutError>(
                LayoutError::Structure(StructureReason::Internal),
            ) && *final(self) == *old(self),
            r is Ok ==> final(self).nodes_seq() == apply_entries(
                old(self).nodes_seq(),
                crate::engine::spec_compute(
                    old(self).nodes_seq(),
                    root,
                    width,
                    height,
                    old(self).created(),
                )->0,
            ),
            r is Ok ==> final(self).created() == old(self).created(),
            r is Ok ==> forall|n: u32| #[trigger] final(self).live(n) == old(self).live(n),
            r is Ok ==> forall|n: u32|
                old(self).live(n) ==> #[trigger] final(self).children_of(n) == old(self).children_of(n) && final(self).parent_of(n) == old(self).parent_of(n) && final(self).style_of(n) == old(self).style_of(n) && final(self).measure_of(n) == old(self).measure_of(n),
    {
        if !self.is_live(root) {
            return Err(LayoutError::NodeNotFound(root));
        }
        let fuel = self.nodes.len();
        let entries = match crate::engine::compute_entries(&self.nodes, root, width, height, fuel) {
            None => {
                return Err(LayoutError::Structure(StructureReason::Internal));
            },
            Some(v) => v,
        };
        write_entries(&mut self.nodes, &entries);
        proof {
            lemma_apply_props(old(self).nodes_seq(), entries@);
            lemma_wf_same_structure(*old(self), *self);
        }
        Ok(())
    }

    /// A node with the excluded display mode, and every one of its
    /// descendants, reports the all-zero box whenever a computation reaches
    /// it: its subtree entries are exactly the zero subtree.
    pub proof fn lemma_excluded_subtree_is_zero(
        s: Seq<Option<NodeData>>,
        id: u32,
        x: i64,
        y: i64,
        w: i64,
        h: i64,
        acb_w: i64,
        acb_h: i64,
        fuel: nat,
    )
        requires
            crate::engine::live_node(s, id),
            crate::engine::node_of(s, id).style.display is Gone,
        ensures
            crate::engine::spec_layout(s, id, x, y, w, h, acb_w, acb_h, fuel)
                == crate::engine::spec_zero_tree(s, id, fuel),
            crate::engine::spec_layout(s, id, x, y, w, h, acb_w, acb_h, fuel) matches Some(es)
                ==> forall|k: int|
                0 <= k < es.len() ==> (#[trigger] es[k]).1 == ComputedLayout::spec_zero(),
    {
        crate::engine::lemma_zero_tree_zero(s, id, fuel);
    }
}

} // verus!
