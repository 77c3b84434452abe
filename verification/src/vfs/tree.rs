//! The tree of a system's repository. Children of a node are fetched when
//! the node is expanded: the tree says which queries an expansion takes and
//! stores what they returned.

use slotmap::DefaultKey;
use vstd::prelude::*;
use crate::vfs::arena::{
    arena_get,
    arena_get_mut,
    arena_insert,
    arena_len,
    arena_new,
    arena_nodes,
    arena_remove,
    placed,
    Arena,
};
use crate::vfs::expander::{
    content_views,
    data_views,
    merge_outcomes,
    merge_results,
    merged_nodes,
    merged_outcomes,
    outcome_views,
    Expander,
    ExpanderView,
};
use crate::vfs::query::{RepositoryContent, RepositoryContentView};
use crate::vfs::nodes::{
    copy_ids,
    Facet,
    Group,
    GroupNode,
    GroupNodeView,
    GroupView,
    VirtualNode,
    VirtualNodeData,
    VirtualNodeDataView,
    VirtualNodeView,
};

verus! {

/// The nodes of a tree by id, as contracts see them.
pub type Nodes = Map<DefaultKey, VirtualNodeView>;

/// The filter that a node itself contributes: its facet and value, if it is
/// a facet folder.
pub open spec fn own_filter(node: VirtualNodeView) -> Seq<(Facet, Seq<char>)> {
    match node.data {
        VirtualNodeDataView::Facet(f) => seq![(f.facet, f.value)],
        _ => seq![],
    }
}

/// The filters of the facet folders on the way from `id` up to the root,
/// the node's own first, following at most `fuel` nodes.
pub open spec fn filters_up(nodes: Nodes, id: DefaultKey, fuel: nat) -> Seq<(Facet, Seq<char>)>
    decreases fuel,
{
    if fuel == 0 || !nodes.contains_key(id) {
        seq![]
    } else {
        match nodes[id].parent {
            Some(p) => own_filter(nodes[id]) + filters_up(nodes, p, (fuel - 1) as nat),
            None => own_filter(nodes[id]),
        }
    }
}

/// Whether the node `k` lies below the node `id`: its parent is `id`, or
/// lies below `id`. At most `fuel` nodes are followed.
pub open spec fn lies_below(nodes: Nodes, k: DefaultKey, id: DefaultKey, fuel: nat) -> bool
    decreases fuel,
{
    if fuel == 0 || !nodes.contains_key(k) {
        false
    } else {
        match nodes[k].parent {
            Some(p) => p == id || lies_below(nodes, p, id, (fuel - 1) as nat),
            None => false,
        }
    }
}

/// Whether the node stands for a system.
pub open spec fn is_system(node: VirtualNodeView) -> bool {
    node.data matches VirtualNodeDataView::Group(group) && group.group is System
}

/// What holds of the nodes of every tree: the root stands for the system
/// and is the one node without parent, every other node has a parent in the
/// tree that lists it as a child, every node knows its id, and the children
/// listed for a node are different nodes of the tree whose parent it is.
pub open spec fn well_formed(nodes: Nodes, root: DefaultKey) -> bool {
    &&& nodes.dom().finite()
    &&& nodes.contains_key(root)
    &&& is_system(nodes[root])
    &&& forall|k: DefaultKey| #[trigger] nodes.contains_key(k) ==> nodes[k].id == k
    &&& forall|k: DefaultKey| #[trigger]
        nodes.contains_key(k) ==> (nodes[k].parent is None <==> k == root)
    &&& forall|k: DefaultKey| #[trigger]
        nodes.contains_key(k) && nodes[k].parent is Some ==> {
            &&& nodes.contains_key(nodes[k].parent->0)
            &&& nodes[nodes[k].parent->0].children is Some
            &&& nodes[nodes[k].parent->0].children->0.contains(k)
        }
    &&& forall|k: DefaultKey, i: int|
        nodes.contains_key(k) && nodes[k].children is Some && 0 <= i < nodes[k].children->0.len()
            ==> {
            &&& nodes.contains_key(#[trigger] nodes[k].children->0[i])
            &&& nodes[nodes[k].children->0[i]].parent == Some(k)
        }
    &&& forall|k: DefaultKey| #[trigger]
        nodes.contains_key(k) && nodes[k].children is Some ==> nodes[k].children->0.no_duplicates()
}

/// Why an expansion did not take place.
#[derive(Copy, Clone, Debug, PartialEq, Eq, Structural)]
pub enum TreeError {
    /// The tree holds no node with the given id.
    UnknownNode,
    /// The arena cannot take the new nodes.
    Full,
    /// A query of the expansion failed.
    QueryFailed,
}

/// The number of nodes that an arena can hold.
pub const ARENA_LIMIT: usize = 0xFFFF_FFFE;

/// A node fresh from an expansion: under its parent, without children.
pub open spec fn child_node(id: DefaultKey, parent: DefaultKey, data: VirtualNodeDataView)
    -> VirtualNodeView {
    VirtualNodeView { id, parent: Some(parent), children: None, data }
}

/// What an expansion of the node `id` does to a tree: the nodes that lay
/// below the node are gone, the children come in under new ids, one for each
/// in the order given, the node lists exactly them as its children, and
/// nothing else changes.
pub open spec fn expanded(
    before: VirtualFileTree,
    after: VirtualFileTree,
    id: DefaultKey,
    ids: Seq<DefaultKey>,
    children: Seq<VirtualNodeDataView>,
) -> bool {
    &&& ids.len() == children.len()
    &&& ids.no_duplicates()
    &&& forall|k: DefaultKey|
        after@.contains_key(k) <==> (before@.contains_key(k) && !before.below(k, id))
            || ids.contains(k)
    &&& forall|i: int|
        0 <= i < ids.len() ==> after@[#[trigger] ids[i]] == child_node(ids[i], id, children[i])
    &&& after@[id] == (VirtualNodeView { children: Some(ids), ..before@[id] })
    &&& forall|k: DefaultKey|
        before@.contains_key(k) && !before.below(k, id) && k != id ==> #[trigger] after@[k]
            == before@[k]
}

/// The filters as contracts speak of them: the values by their characters.
pub open spec fn filters_view(filters: Seq<(Facet, String)>) -> Seq<(Facet, Seq<char>)> {
    filters.map_values(|p: (Facet, String)| (p.0, p.1@))
}

/// A virtual repository tree: an arena of nodes under one root.
pub struct VirtualFileTree {
    root: DefaultKey,
    nodes: Arena,
    depth: Ghost<Map<DefaultKey, nat>>,
    bound: Ghost<nat>,
}

impl View for VirtualFileTree {
    type V = Nodes;

    closed spec fn view(&self) -> Nodes {
        arena_nodes(self.nodes).map_values(|n: VirtualNode| n@)
    }
}

impl VirtualFileTree {
    /// The id of the root.
    pub closed spec fn spec_root(self) -> DefaultKey {
        self.root
    }

    /// A number of steps that leads from every node up to the root.
    pub closed spec fn height(self) -> nat {
        self.bound@
    }

    /// The invariant of the tree.
    pub closed spec fn wf(self) -> bool {
        &&& well_formed(self@, self.root)
        &&& forall|k: DefaultKey|
            self@.contains_key(k) ==> (#[trigger] self.depth@[k]) < self.bound@
        &&& forall|k: DefaultKey| #[trigger]
            self@.contains_key(k) && self@[k].parent is Some ==> self.depth@[self@[k].parent->0]
                < self.depth@[k]
    }

    /// The filters of the facet folders from `id` up to the root, the
    /// node's own first.
    pub open spec fn filters_from(self, id: DefaultKey) -> Seq<(Facet, Seq<char>)> {
        filters_up(self@, id, self.height())
    }

    /// Whether the node `k` lies below the node `id`.
    pub open spec fn below(self, k: DefaultKey, id: DefaultKey) -> bool {
        lies_below(self@, k, id, self.height())
    }

    /// A valid tree has well-formed nodes.
    pub proof fn lemma_well_formed(self)
        requires
            self.wf(),
        ensures
            well_formed(self@, self.spec_root()),
    {
    }

    /// On the way up from a node, more steps than the node is deep change
    /// nothing.
    proof fn lemma_fuel(self, id: DefaultKey, f1: nat, f2: nat)
        requires
            self.wf(),
            self@.contains_key(id) ==> f1 > self.depth@[id] && f2 > self.depth@[id],
        ensures
            filters_up(self@, id, f1) == filters_up(self@, id, f2),
        decreases
            (if self@.contains_key(id) {
                self.depth@[id] + 1
            } else {
                0
            }),
    {
        if self@.contains_key(id) {
            match self@[id].parent {
                Some(p) => {
                    assert(self@.contains_key(p));
                    self.lemma_fuel(p, (f1 - 1) as nat, (f2 - 1) as nat);
                },
                None => {},
            }
        }
    }

    /// The filters from a node are its own, then those from its parent.
    pub proof fn lemma_filters_from(self, id: DefaultKey)
        requires
            self.wf(),
        ensures
            !self@.contains_key(id) ==> self.filters_from(id) == Seq::<(Facet, Seq<char>)>::empty(),
            self@.contains_key(id) ==> self.filters_from(id) == own_filter(self@[id]) + (
            match self@[id].parent {
                Some(p) => self.filters_from(p),
                None => seq![],
            }),
    {
        if self@.contains_key(id) {
            let total = self.height();
            assert(self.depth@[id] < total);
            match self@[id].parent {
                Some(p) => {
                    assert(self@.contains_key(p));
                    self.lemma_fuel(p, (total - 1) as nat, total);
                },
                None => {
                    assert(own_filter(self@[id]) + Seq::<(Facet, Seq<char>)>::empty()
                        =~= own_filter(self@[id]));
                },
            }
        }
    }

    /// A tree for the system: its one node is the root, the group of the
    /// system itself.
    pub fn new(system: String) -> (tree: Self)
        ensures
            tree.wf(),
            tree@.dom() == set![tree.spec_root()],
            tree@[tree.spec_root()] == (VirtualNodeView {
                id: tree.spec_root(),
                parent: None,
                children: None,
                data: VirtualNodeDataView::Group(
                    GroupNodeView { name: system@, group: GroupView::System(system@) },
                ),
            }),
    {
        let mut nodes = arena_new();
        assert(arena_nodes(nodes) =~= Map::<DefaultKey, VirtualNode>::empty());
        let root_group = GroupNode::new(Group::System(system));
        let root = arena_insert(&mut nodes, VirtualNodeData::Group(root_group), None);
        let tree = VirtualFileTree {
            nodes,
            root,
            depth: Ghost(Map::empty().insert(root, 0nat)),
            bound: Ghost(1nat),
        };
        proof {
            assert(tree@.dom() =~= set![root]);
        }
        tree
    }

    /// The id of the root.
    pub fn root(&self) -> (id: DefaultKey)
        ensures
            id == self.spec_root(),
    {
        self.root
    }

    /// The node with the given id, if the tree holds one.
    pub fn lookup(&self, id: DefaultKey) -> (node: Option<&VirtualNode>)
        ensures
            node is Some <==> self@.contains_key(id),
            node matches Some(n) ==> n@ == self@[id],
    {
        arena_get(&self.nodes, id)
    }

    /// The nodes with the given ids, in their order, or nothing if one of
    /// the ids is unknown.
    pub fn try_lookup_all(&self, ids: &Vec<DefaultKey>) -> (nodes: Option<Vec<&VirtualNode>>)
        ensures
            nodes is Some <==> forall|i: int| 0 <= i < ids@.len() ==> self@.contains_key(ids@[i]),
            nodes matches Some(found) ==> found@.len() == ids@.len() && forall|i: int|
                0 <= i < ids@.len() ==> (#[trigger] found@[i])@ == self@[ids@[i]],
    {
        let mut found: Vec<&VirtualNode> = Vec::new();
        let mut i: usize = 0;
        while i < ids.len()
            invariant
                i <= ids@.len(),
                found@.len() == i,
                forall|k: int| 0 <= k < i ==> self@.contains_key(ids@[k]),
                forall|k: int| 0 <= k < i ==> (#[trigger] found@[k])@ == self@[ids@[k]],
            decreases ids@.len() - i,
        {
            match self.lookup(ids[i]) {
                Some(node) => {
                    found.push(node);
                },
                None => {
                    return None;
                },
            }
            i += 1;
        }
        Some(found)
    }

    /// The nodes with the given ids, in their order. Every id has to be
    /// one of the tree.
    pub fn lookup_all(&self, ids: &Vec<DefaultKey>) -> (nodes: Vec<&VirtualNode>)
        requires
            forall|i: int| 0 <= i < ids@.len() ==> self@.contains_key(ids@[i]),
        ensures
            nodes@.len() == ids@.len(),
            forall|i: int| 0 <= i < ids@.len() ==> (#[trigger] nodes@[i])@ == self@[ids@[i]],
    {
        match self.try_lookup_all(ids) {
            Some(nodes) => nodes,
            None => {
                proof {
                    assert(false);
                }
                Vec::new()
            },
        }
    }

    /// The filters of all facet folders on the way from the node up to the
    /// root, the node's own first. An unknown id has none.
    pub fn walk_facets_from(&self, id: DefaultKey) -> (filters: Vec<(Facet, String)>)
        requires
            self.wf(),
        ensures
            filters_view(filters@) == self.filters_from(id),
    {
        let mut result: Vec<(Facet, String)> = Vec::new();
        let mut cur: Option<DefaultKey> = Some(id);
        assert(filters_view(result@) =~= Seq::<(Facet, Seq<char>)>::empty());
        loop
            invariant
                self.wf(),
                filters_view(result@) + (match cur {
                    Some(k) => self.filters_from(k),
                    None => seq![],
                }) == self.filters_from(id),
            ensures
                filters_view(result@) == self.filters_from(id),
            decreases
                (match cur {
                    Some(k) => if self@.contains_key(k) {
                        self.depth@[k] + 1
                    } else {
                        0
                    },
                    None => 0,
                }),
        {
            let k = match cur {
                Some(k) => k,
                None => {
                    assert(filters_view(result@) + Seq::<(Facet, Seq<char>)>::empty()
                        =~= filters_view(result@));
                    break ;
                },
            };
            proof {
                self.lemma_filters_from(k);
            }
            let node = match self.lookup(k) {
                Some(node) => node,
                None => {
                    assert(filters_view(result@) + Seq::<(Facet, Seq<char>)>::empty()
                        =~= filters_view(result@));
                    break ;
                },
            };
            let ghost before = filters_view(result@);
            let ghost rest = match self@[k].parent {
                Some(p) => self.filters_from(p),
                None => seq![],
            };
            match &node.data {
                VirtualNodeData::Facet(facet) => {
                    result.push((facet.facet, facet.value.clone()));
                    assert(filters_view(result@) =~= before + own_filter(self@[k]));
                },
                _ => {
                    assert(before + own_filter(self@[k]) =~= before);
                },
            }
            assert(filters_view(result@) + rest =~= before + (own_filter(self@[k]) + rest));
            cur = node.parent;
        }
        result
    }
}

/// Puts the ids of `more` behind those of `list`.
fn append_ids(list: &mut Vec<DefaultKey>, more: &Vec<DefaultKey>)
    ensures
        final(list)@ == old(list)@ + more@,
{
    let mut i: usize = 0;
    assert(list@ =~= old(list)@ + more@.take(0));
    while i < more.len()
        invariant
            i <= more@.len(),
            list@ == old(list)@ + more@.take(i as int),
        decreases more@.len() - i,
    {
        list.push(more[i]);
        assert(list@ =~= old(list)@ + more@.take(i + 1));
        i += 1;
    }
    assert(more@.take(i as int) =~= more@);
}

impl VirtualFileTree {
    /// Below a node, more steps than the node is deep change nothing.
    proof fn lemma_below_fuel(self, k: DefaultKey, id: DefaultKey, f1: nat, f2: nat)
        requires
            self.wf(),
            self@.contains_key(k) ==> f1 > self.depth@[k] && f2 > self.depth@[k],
        ensures
            lies_below(self@, k, id, f1) == lies_below(self@, k, id, f2),
        decreases
            (if self@.contains_key(k) {
                self.depth@[k] + 1
            } else {
                0
            }),
    {
        if self@.contains_key(k) {
            match self@[k].parent {
                Some(p) => {
                    assert(self@.contains_key(p));
                    if p != id {
                        self.lemma_below_fuel(p, id, (f1 - 1) as nat, (f2 - 1) as nat);
                    }
                },
                None => {},
            }
        }
    }

    /// A node lies below another exactly if its parent is that node or
    /// lies below it.
    pub proof fn lemma_below(self, k: DefaultKey, id: DefaultKey)
        requires
            self.wf(),
        ensures
            self.below(k, id) <==> self@.contains_key(k) && self@[k].parent is Some && (
            self@[k].parent->0 == id || self.below(self@[k].parent->0, id)),
    {
        if self@.contains_key(k) {
            assert(self.depth@[k] < self.height());
            match self@[k].parent {
                Some(p) => {
                    assert(self@.contains_key(p));
                    if p != id {
                        self.lemma_below_fuel(p, id, (self.height() - 1) as nat, self.height());
                    }
                },
                None => {},
            }
        }
    }

    /// What lies below a node is deeper than the node.
    proof fn lemma_below_deeper(self, k: DefaultKey, id: DefaultKey, fuel: nat)
        requires
            self.wf(),
            lies_below(self@, k, id, fuel),
        ensures
            self.depth@[id] < self.depth@[k],
        decreases fuel,
    {
        match self@[k].parent {
            Some(p) => {
                if p != id {
                    self.lemma_below_deeper(p, id, (fuel - 1) as nat);
                }
            },
            None => {},
        }
    }

    /// A set that holds the children of `id` and the children of its own
    /// elements holds all that lies below `id`.
    proof fn lemma_cover(self, gone: Set<DefaultKey>, k: DefaultKey, id: DefaultKey, fuel: nat)
        requires
            self.wf(),
            forall|c: DefaultKey| #[trigger]
                self@.contains_key(c) && self@[c].parent is Some && (self@[c].parent->0 == id
                    || gone.contains(self@[c].parent->0)) ==> gone.contains(c),
            lies_below(self@, k, id, fuel),
        ensures
            gone.contains(k),
        decreases fuel,
    {
        match self@[k].parent {
            Some(p) => {
                if p != id {
                    self.lemma_cover(gone, p, id, (fuel - 1) as nat);
                }
            },
            None => {},
        }
    }

    /// Neither a node itself nor the root lies below the node.
    pub proof fn lemma_not_below(self, id: DefaultKey)
        requires
            self.wf(),
        ensures
            !self.below(id, id),
            !self.below(self.spec_root(), id),
    {
        if self.below(id, id) {
            self.lemma_below_deeper(id, id, self.height());
        }
    }

    /// The state of taking out what lies below `id`: `cur` is what is
    /// left of the nodes `raw0` of this tree, `gone` what was taken out, and
    /// `list` what is known to have to go still. All that went and all that
    /// is listed lies below `id`, and the children of `id` and of what went
    /// have gone or are listed.
    #[verifier::opaque]
    spec fn pruning(
        self,
        cur: Map<DefaultKey, VirtualNode>,
        gone: Set<DefaultKey>,
        list: Seq<DefaultKey>,
        id: DefaultKey,
    ) -> bool {
        let raw0 = arena_nodes(self.nodes);
        &&& self.wf()
        &&& self@.contains_key(id)
        &&& gone.finite()
        &&& cur.dom().finite()
        &&& cur.len() + gone.len() == raw0.len()
        &&& forall|k: DefaultKey| #[trigger]
            cur.contains_key(k) <==> raw0.contains_key(k) && !gone.contains(k)
        &&& forall|k: DefaultKey| cur.contains_key(k) ==> #[trigger] cur[k] == raw0[k]
        &&& forall|k: DefaultKey| #[trigger] gone.contains(k) ==> self.below(k, id)
        &&& forall|j: int| 0 <= j < list.len() ==> self.below(#[trigger] list[j], id)
        &&& forall|c: DefaultKey| #[trigger]
            self@.contains_key(c) && self@[c].parent is Some && (self@[c].parent->0 == id
                || gone.contains(self@[c].parent->0)) ==> gone.contains(c) || list.contains(c)
    }

    /// The ids that a node lists as its children.
    spec fn listed(node: VirtualNode) -> Seq<DefaultKey> {
        match node.children {
            Some(ids) => ids@,
            None => seq![],
        }
    }

    /// Pruning starts with all nodes in place and the children of `id`
    /// listed.
    proof fn lemma_pruning_starts(self, id: DefaultKey)
        requires
            self.wf(),
            self@.contains_key(id),
        ensures
            self.pruning(
                arena_nodes(self.nodes),
                Set::empty(),
                Self::listed(arena_nodes(self.nodes)[id]),
                id,
            ),
    {
        reveal(VirtualFileTree::pruning);
        let raw0 = arena_nodes(self.nodes);
        let list = Self::listed(raw0[id]);
        assert(self@.dom() =~= raw0.dom());
        assert forall|j: int| 0 <= j < list.len() implies self.below(#[trigger] list[j], id) by {
            let c = list[j];
            assert(self@[id].children->0[j] == c);
            assert(self@.contains_key(c) && self@[c].parent == Some(id));
            self.lemma_below(c, id);
        }
        assert forall|c: DefaultKey| #[trigger]
            self@.contains_key(c) && self@[c].parent is Some && self@[c].parent->0
                == id implies list.contains(c) by {
            assert(self@[id].children->0.contains(c));
        }
    }

    /// A listed node that has gone already is struck from the list.
    proof fn lemma_pruning_skips(
        self,
        cur: Map<DefaultKey, VirtualNode>,
        gone: Set<DefaultKey>,
        list: Seq<DefaultKey>,
        id: DefaultKey,
    )
        requires
            self.pruning(cur, gone, list, id),
            list.len() > 0,
            !cur.contains_key(list.last()),
        ensures
            self.pruning(cur, gone, list.drop_last(), id),
    {
        reveal(VirtualFileTree::pruning);
        let next = list.last();
        let rest = list.drop_last();
        assert(self.below(list[list.len() - 1], id));
        self.lemma_below(next, id);
        assert(self@.dom() =~= arena_nodes(self.nodes).dom());
        assert(gone.contains(next));
        assert forall|j: int| 0 <= j < rest.len() implies self.below(#[trigger] rest[j], id) by {
            assert(rest[j] == list[j]);
        }
        assert forall|c: DefaultKey| #[trigger]
            self@.contains_key(c) && self@[c].parent is Some && (self@[c].parent->0 == id
                || gone.contains(self@[c].parent->0)) implies gone.contains(c) || rest.contains(
            c,
        ) by {
            if !gone.contains(c) {
                let j = choose|j: int| 0 <= j < list.len() && list[j] == c;
                assert(rest[j] == c);
            }
        }
    }

    /// A listed node that is taken out makes room for its children on
    /// the list.
    proof fn lemma_pruning_takes(
        self,
        cur: Map<DefaultKey, VirtualNode>,
        gone: Set<DefaultKey>,
        list: Seq<DefaultKey>,
        id: DefaultKey,
    )
        requires
            self.pruning(cur, gone, list, id),
            list.len() > 0,
            cur.contains_key(list.last()),
        ensures
            self.pruning(
                cur.remove(list.last()),
                gone.insert(list.last()),
                list.drop_last() + Self::listed(cur[list.last()]),
                id,
            ),
            cur.remove(list.last()).len() < cur.len(),
    {
        reveal(VirtualFileTree::pruning);
        let raw0 = arena_nodes(self.nodes);
        let next = list.last();
        let rest = list.drop_last();
        let more = Self::listed(cur[next]);
        let list2 = rest + more;
        let gone2 = gone.insert(next);
        let cur2 = cur.remove(next);
        assert(self@.dom() =~= raw0.dom());
        assert(self.below(list[list.len() - 1], id));
        assert(cur[next] == raw0[next]);
        assert(self@[next] == raw0[next]@);
        assert(!gone.contains(next));
        assert(cur2.dom() =~= cur.dom().remove(next));
        assert forall|k: DefaultKey| #[trigger] gone2.contains(k) implies self.below(k, id) by {
            if k != next {
                assert(gone.contains(k));
            }
        }
        assert forall|j: int| 0 <= j < list2.len() implies self.below(#[trigger] list2[j], id) by {
            if j < rest.len() {
                assert(list2[j] == list[j]);
            } else {
                let c = list2[j];
                let n = j - rest.len();
                assert(self@[next].children->0[n] == c);
                assert(self@.contains_key(c) && self@[c].parent == Some(next));
                self.lemma_below(c, id);
            }
        }
        assert forall|c: DefaultKey| #[trigger]
            self@.contains_key(c) && self@[c].parent is Some && (self@[c].parent->0 == id
                || gone2.contains(self@[c].parent->0)) implies gone2.contains(c) || list2.contains(
            c,
        ) by {
            let p = self@[c].parent->0;
            if p == id || gone.contains(p) {
                if !gone.contains(c) && c != next {
                    let j = choose|j: int| 0 <= j < list.len() && list[j] == c;
                    assert(j < list.len() - 1);
                    assert(list2[j] == c);
                }
            } else {
                assert(p == next);
                let cs = self@[next].children->0;
                assert(cs.contains(c));
                let n = choose|n: int| 0 <= n < cs.len() && cs[n] == c;
                assert(list2[rest.len() + n] == c);
            }
        }
    }

    /// With nothing left on the list, what has gone is what lay below
    /// `id`.
    proof fn lemma_pruning_ends(
        self,
        cur: Map<DefaultKey, VirtualNode>,
        gone: Set<DefaultKey>,
        list: Seq<DefaultKey>,
        id: DefaultKey,
    )
        requires
            self.pruning(cur, gone, list, id),
            list.len() == 0,
        ensures
            gone.finite(),
            forall|k: DefaultKey| gone.contains(k) <==> self.below(k, id),
            cur == arena_nodes(self.nodes).remove_keys(gone),
            cur.dom().finite(),
            cur.len() <= arena_nodes(self.nodes).len(),
    {
        reveal(VirtualFileTree::pruning);
        assert forall|k: DefaultKey| gone.contains(k) <==> self.below(k, id) by {
            if self.below(k, id) {
                assert forall|c: DefaultKey| #[trigger]
                    self@.contains_key(c) && self@[c].parent is Some && (self@[c].parent->0 == id
                        || gone.contains(self@[c].parent->0)) implies gone.contains(c) by {
                    if !gone.contains(c) {
                        assert(list.contains(c));
                    }
                }
                self.lemma_cover(gone, k, id, self.height());
            }
        }
        assert(cur =~= arena_nodes(self.nodes).remove_keys(gone));
    }

    /// Takes the nodes below `id` out of the arena. The node `id` is left
    /// with the list of its children as it was.
    #[verifier::rlimit(60)]
    fn prune(&mut self, id: DefaultKey) -> (gone: Ghost<Set<DefaultKey>>)
        requires
            old(self).wf(),
            old(self)@.contains_key(id),
        ensures
            final(self).root == old(self).root,
            final(self).depth == old(self).depth,
            final(self).bound == old(self).bound,
            gone@.finite(),
            forall|k: DefaultKey| gone@.contains(k) <==> old(self).below(k, id),
            arena_nodes(final(self).nodes) == arena_nodes(old(self).nodes).remove_keys(gone@),
            arena_nodes(final(self).nodes).dom().finite(),
            arena_nodes(final(self).nodes).len() <= arena_nodes(old(self).nodes).len(),
    {
        let mut worklist: Vec<DefaultKey> = match arena_get(&self.nodes, id) {
            Some(node) => match &node.children {
                Some(children) => copy_ids(children),
                None => Vec::new(),
            },
            None => Vec::new(),
        };
        let ghost mut gone: Set<DefaultKey> = Set::empty();
        proof {
            assert(old(self)@.dom() =~= arena_nodes(self.nodes).dom());
            old(self).lemma_pruning_starts(id);
        }
        while worklist.len() > 0
            invariant
                self.root == old(self).root,
                self.depth == old(self).depth,
                self.bound == old(self).bound,
                arena_nodes(self.nodes).dom().finite(),
                old(self).pruning(arena_nodes(self.nodes), gone, worklist@, id),
            decreases arena_nodes(self.nodes).len(), worklist@.len(),
        {
            let ghost cur = arena_nodes(self.nodes);
            let ghost list = worklist@;
            let popped = worklist.pop();
            let next = match popped {
                Some(next) => next,
                None => id,
            };
            assert(next == list.last());
            match arena_remove(&mut self.nodes, next) {
                None => {
                    proof {
                        old(self).lemma_pruning_skips(cur, gone, list, id);
                        assert(arena_nodes(self.nodes) =~= cur);
                    }
                },
                Some(node) => {
                    match &node.children {
                        Some(children) => {
                            append_ids(&mut worklist, children);
                        },
                        None => {
                            assert(worklist@ =~= list.drop_last() + Self::listed(node));
                        },
                    }
                    proof {
                        old(self).lemma_pruning_takes(cur, gone, list, id);
                        gone = gone.insert(next);
                        assert(arena_nodes(self.nodes).dom() =~= cur.dom().remove(next));
                    }
                },
            }
        }
        proof {
            old(self).lemma_pruning_ends(arena_nodes(self.nodes), gone, worklist@, id);
        }
        Ghost(gone)
    }

    /// The children that an expansion of the node `id` creates, given
    /// the answers to its queries: the fixed children where the node has
    /// such, else the nodes of the answers.
    pub open spec fn new_children(self, id: DefaultKey, answers: Seq<RepositoryContentView>)
        -> Option<Seq<VirtualNodeDataView>> {
        self.children_from(id, Some(merged_nodes(answers)))
    }

    /// The children that an expansion of the node `id` creates, given
    /// the nodes of the answers to its queries, or nothing in their place
    /// where a query failed: the fixed children where the node has such, else
    /// the nodes of the answers.
    pub open spec fn children_from(self, id: DefaultKey, merged: Option<Seq<VirtualNodeDataView>>)
        -> Option<Seq<VirtualNodeDataView>> {
        match self.expansion_of(id) {
            None => None,
            Some(ExpanderView::Static(nodes)) => Some(nodes),
            Some(ExpanderView::Query(_)) => merged,
        }
    }

    /// Whether the node `id` is a repository object.
    pub open spec fn is_object(self, id: DefaultKey) -> bool {
        self@.contains_key(id) && self@[id].data is RepositoryObject
    }

    /// What an expansion of the node `id` comes to, given the nodes of
    /// the answers to its queries, or nothing in their place where a query
    /// failed.
    /// - An id that the tree does not hold is reported.
    /// - A repository object does not expand: there are no children, and the
    ///   tree stays as it was.
    /// - A failed query fails the expansion of a node that expands by
    ///   queries.
    /// - More children than the arena takes beside the nodes that it holds
    ///   fail it too.
    /// - Else the tree is expanded and the ids of the children returned.
    /// Every failure leaves the tree as it was.
    pub open spec fn settled(
        before: VirtualFileTree,
        after: VirtualFileTree,
        id: DefaultKey,
        merged: Option<Seq<VirtualNodeDataView>>,
        result: Result<Vec<DefaultKey>, TreeError>,
    ) -> bool {
        match result {
            Ok(ids) => {
                &&& before@.contains_key(id)
                &&& if before.is_object(id) {
                    ids@.len() == 0 && after@ == before@
                } else {
                    &&& before.children_from(id, merged) is Some
                    &&& before@.len() + ids@.len() <= ARENA_LIMIT
                    &&& expanded(before, after, id, ids@, before.children_from(id, merged)->0)
                }
            },
            Err(TreeError::UnknownNode) => {
                &&& !before@.contains_key(id)
                &&& after@ == before@
            },
            Err(TreeError::QueryFailed) => {
                &&& before@.contains_key(id)
                &&& !before.is_object(id)
                &&& before.children_from(id, merged) is None
                &&& after@ == before@
            },
            Err(TreeError::Full) => {
                &&& !before.is_object(id)
                &&& before.children_from(id, merged) matches Some(children)
                &&& before@.len() + children.len() > ARENA_LIMIT
                &&& after@ == before@
            },
        }
    }

    /// Expands the node `id`. `answers` holds what the queries of its
    /// expander returned, in their order; a node with fixed children takes
    /// none. What lay below the node before leaves the arena: the children
    /// enter it under the node and are from now on what the node lists as
    /// its children. Returns their ids, in order. A repository object does
    /// not expand: the tree stays as it was.
    pub fn expand(&mut self, id: DefaultKey, answers: &Vec<RepositoryContent>) -> (result: Result<
        Vec<DefaultKey>,
        TreeError,
    >)
        requires
            old(self).wf(),
        ensures
            final(self).wf(),
            final(self).spec_root() == old(self).spec_root(),
            Self::settled(
                *old(self),
                *final(self),
                id,
                Some(merged_nodes(content_views(answers@))),
                result,
            ),
            !(result matches Err(TreeError::QueryFailed)),
    {
        let merged = merge_results(answers);
        self.settle(id, Some(merged))
    }

    /// Expands the node `id` with the outcomes of the queries of its
    /// expander as they came, in their order: an answer, or nothing for a
    /// query that failed. One failed query fails the expansion.
    pub fn expand_outcomes(&mut self, id: DefaultKey, outcomes: &Vec<Option<RepositoryContent>>) -> (result:
        Result<Vec<DefaultKey>, TreeError>)
        requires
            old(self).wf(),
        ensures
            final(self).wf(),
            final(self).spec_root() == old(self).spec_root(),
            Self::settled(*old(self), *final(self), id, merged_outcomes(outcome_views(outcomes@)), result),
    {
        let merged = merge_outcomes(outcomes);
        self.settle(id, merged)
    }

    /// The nodes made of answers as contracts see them.
    pub open spec fn given_views(merged: Option<Vec<VirtualNodeData>>) -> Option<
        Seq<VirtualNodeDataView>,
    > {
        match merged {
            Some(nodes) => Some(data_views(nodes@)),
            None => None,
        }
    }

    /// Expands the node `id` with the nodes made of the answers to its
    /// queries.
    #[verifier::rlimit(60)]
    fn settle(&mut self, id: DefaultKey, merged: Option<Vec<VirtualNodeData>>) -> (result: Result<
        Vec<DefaultKey>,
        TreeError,
    >)
        requires
            old(self).wf(),
        ensures
            final(self).wf(),
            final(self).spec_root() == old(self).spec_root(),
            Self::settled(*old(self), *final(self), id, Self::given_views(merged), result),
    {
        let ghost given = Self::given_views(merged);
        let children = match self.expander(id) {
            None => {
                return Err(TreeError::UnknownNode);
            },
            Some(Expander::Static(nodes)) => nodes,
            Some(Expander::Query(_)) => match merged {
                Some(nodes) => nodes,
                None => {
                    assert(!self.is_object(id));
                    return Err(TreeError::QueryFailed);
                },
            },
        };
        assert(self@.contains_key(id));
        assert(self.children_from(id, given) == Some(data_views(children@)));
        let object = match self.lookup(id) {
            Some(node) => match &node.data {
                VirtualNodeData::RepositoryObject(_) => true,
                _ => false,
            },
            None => false,
        };
        assert(object == self.is_object(id));
        if object {
            return Ok(Vec::new());
        }
        self.grow(id, children)
    }

    /// Puts the children under the node `id`, in place of what lay below
    /// it.
    #[verifier::rlimit(60)]
    fn grow(&mut self, id: DefaultKey, children: Vec<VirtualNodeData>) -> (result: Result<
        Vec<DefaultKey>,
        TreeError,
    >)
        requires
            old(self).wf(),
            old(self)@.contains_key(id),
        ensures
            final(self).wf(),
            final(self).spec_root() == old(self).spec_root(),
            match result {
                Ok(ids) => {
                    &&& old(self)@.len() + ids@.len() <= ARENA_LIMIT
                    &&& expanded(*old(self), *final(self), id, ids@, data_views(children@))
                },
                Err(e) => {
                    &&& e == TreeError::Full
                    &&& old(self)@.len() + children@.len() > ARENA_LIMIT
                    &&& final(self)@ == old(self)@
                },
            },
    {
        let ghost wanted = data_views(children@);
        let ghost raw0 = arena_nodes(self.nodes);
        let ghost before = self@;
        let ghost depth0 = self.depth@;
        let ghost bound0 = self.bound@;
        assert(before.dom() =~= raw0.dom());
        let held = arena_len(&self.nodes);
        if held > ARENA_LIMIT || children.len() > ARENA_LIMIT - held {
            return Err(TreeError::Full);
        }
        let Ghost(gone) = self.prune(id);
        let ghost mid = arena_nodes(self.nodes);
        proof {
            old(self).lemma_not_below(id);
            assert(mid.contains_key(id));
        }
        let mut ids: Vec<DefaultKey> = Vec::new();
        let mut listed: Vec<DefaultKey> = Vec::new();
        let mut i: usize = 0;
        while i < children.len()
            invariant
                i <= children@.len(),
                old(self).wf(),
                before == old(self)@,
                raw0 == arena_nodes(old(self).nodes),
                depth0 == old(self).depth@,
                bound0 == old(self).bound@,
                self.root == old(self).root,
                self.depth == old(self).depth,
                self.bound == old(self).bound,
                wanted == data_views(children@),
                raw0.dom().finite(),
                raw0.contains_key(id),
                raw0.len() + children@.len() <= ARENA_LIMIT,
                mid == raw0.remove_keys(gone),
                mid.contains_key(id),
                mid.dom().finite(),
                mid.len() <= raw0.len(),
                forall|k: DefaultKey| gone.contains(k) <==> old(self).below(k, id),
                arena_nodes(self.nodes).dom().finite(),
                arena_nodes(self.nodes).len() == mid.len() + i,
                ids@.len() == i,
                listed@ == ids@,
                ids@.no_duplicates(),
                forall|k: DefaultKey| #[trigger]
                    mid.contains_key(k) ==> arena_nodes(self.nodes).contains_key(k)
                        && arena_nodes(self.nodes)[k] == mid[k],
                forall|k: DefaultKey| #[trigger]
                    arena_nodes(self.nodes).contains_key(k) ==> mid.contains_key(k)
                        || ids@.contains(k),
                forall|j: int|
                    0 <= j < i ==> {
                        &&& !mid.contains_key(#[trigger] ids@[j])
                        &&& arena_nodes(self.nodes).contains_key(ids@[j])
                        &&& arena_nodes(self.nodes)[ids@[j]]@ == child_node(ids@[j], id, wanted[j])
                    },
            decreases children@.len() - i,
        {
            let ghost raw = arena_nodes(self.nodes);
            let ghost so_far = ids@;
            let data = children[i].duplicate();
            let key = arena_insert(&mut self.nodes, data, Some(id));
            ids.push(key);
            listed.push(key);
            proof {
                let now = arena_nodes(self.nodes);
                assert(now == raw.insert(key, placed(key, data, Some(id))));
                assert(!raw.contains_key(key));
                assert(now.dom() =~= raw.dom().insert(key));
                assert forall|k: DefaultKey| #[trigger] mid.contains_key(k) implies now.contains_key(
                    k,
                ) && now[k] == mid[k] by {
                    assert(raw.contains_key(k) && raw[k] == mid[k]);
                    assert(k != key);
                }
                assert forall|j: int| 0 <= j < i implies so_far[j] != key by {
                    assert(raw.contains_key(so_far[j]));
                }
                assert(now[key]@ == child_node(key, id, wanted[i as int]));
                assert forall|k: DefaultKey| #[trigger] now.contains_key(k) implies mid.contains_key(
                    k,
                ) || ids@.contains(k) by {
                    if k == key {
                        assert(ids@[i as int] == key);
                    } else {
                        assert(raw.contains_key(k));
                        if !mid.contains_key(k) {
                            let j = choose|j: int| 0 <= j < so_far.len() && so_far[j] == k;
                            assert(ids@[j] == k);
                        }
                    }
                }
                assert forall|j: int| 0 <= j < i + 1 implies {
                    &&& !mid.contains_key(#[trigger] ids@[j])
                    &&& now.contains_key(ids@[j])
                    &&& now[ids@[j]]@ == child_node(ids@[j], id, wanted[j])
                } by {
                    if j < i {
                        assert(ids@[j] == so_far[j]);
                        assert(raw.contains_key(so_far[j]));
                        assert(now[so_far[j]] == raw[so_far[j]]);
                    } else {
                        assert(ids@[j] == key);
                        assert(!mid.contains_key(key));
                    }
                }
            }
            i += 1;
        }
        let ghost raw1 = arena_nodes(self.nodes);
        match arena_get_mut(&mut self.nodes, id) {
            Some(node) => {
                node.children = Some(listed);
            },
            None => {},
        }
        proof {
            let raw2 = arena_nodes(self.nodes);
            assert(raw1.contains_key(id));
            assert(raw1[id] == mid[id]);
            assert(mid[id] == raw0[id]);
            assert(raw2.contains_key(id));
            assert(raw2[id] == (VirtualNode { children: Some(listed), ..raw1[id] }));
            assert(raw2 == raw1.insert(id, raw2[id]));
            let top = depth0[id] + 1;
            let depth = Map::new(
                |k: DefaultKey| raw2.contains_key(k),
                |k: DefaultKey|
                    if mid.contains_key(k) {
                        depth0[k]
                    } else {
                        top as nat
                    },
            );
            let bound = if bound0 > top {
                bound0
            } else {
                (top + 1) as nat
            };
            self.depth = Ghost(depth);
            self.bound = Ghost(bound);
            let after = self@;
            assert(raw2.dom() =~= raw1.dom());
            assert(after.dom() =~= raw1.dom());
            assert(depth0[id] < bound0);
            // What stays of the old tree.
            assert forall|k: DefaultKey| mid.contains_key(k) <==> before.contains_key(k)
                && !old(self).below(k, id) by {}
            assert forall|k: DefaultKey| before.contains_key(k) && !old(self).below(k, id) && k
                != id implies #[trigger] after[k] == before[k] by {
                assert(mid.contains_key(k));
                assert(raw2[k] == raw1[k]);
                assert(raw1[k] == mid[k]);
                assert(mid[k] == raw0[k]);
            }
            assert(after[id] == (VirtualNodeView { children: Some(ids@), ..before[id] }));
            assert forall|j: int| 0 <= j < ids@.len() implies after[#[trigger] ids@[j]]
                == child_node(ids@[j], id, wanted[j]) by {
                assert(ids@[j] != id);
                assert(raw2[ids@[j]] == raw1[ids@[j]]);
            }
            assert forall|k: DefaultKey|
                after.contains_key(k) <==> (before.contains_key(k) && !old(self).below(k, id))
                    || ids@.contains(k) by {
                if ids@.contains(k) {
                    let j = choose|j: int| 0 <= j < ids@.len() && ids@[j] == k;
                    assert(raw1.contains_key(ids@[j]));
                }
                if after.contains_key(k) {
                    assert(raw1.contains_key(k));
                }
            }
            assert(expanded(*old(self), *self, id, ids@, wanted));
            // The invariant of the new tree.
            assert(before.contains_key(self.root));
            old(self).lemma_not_below(id);
            assert(mid.contains_key(self.root));
            assert forall|k: DefaultKey| #[trigger] after.contains_key(k) implies {
                &&& after[k].id == k
                &&& (after[k].parent is None <==> k == self.root)
                &&& depth[k] < bound
                &&& after[k].parent is Some ==> {
                    &&& after.contains_key(after[k].parent->0)
                    &&& after[after[k].parent->0].children is Some
                    &&& after[after[k].parent->0].children->0.contains(k)
                    &&& depth[after[k].parent->0] < depth[k]
                }
            } by {
                if mid.contains_key(k) {
                    assert(before.contains_key(k));
                    if k != id {
                        assert(after[k] == before[k]);
                    }
                    assert(after[k].parent == before[k].parent);
                    assert(after[k].id == before[k].id);
                    assert(depth0[k] < bound0);
                    assert(depth[k] == depth0[k]);
                    if before[k].parent is Some {
                        let p = before[k].parent->0;
                        assert(before.contains_key(p));
                        old(self).lemma_below(k, id);
                        assert(p != id);
                        assert(!old(self).below(p, id));
                        assert(mid.contains_key(p));
                        assert(after[p] == before[p]);
                        assert(depth[p] == depth0[p]);
                        assert(depth0[p] < depth0[k]);
                    }
                } else {
                    assert(ids@.contains(k));
                    let j = choose|j: int| 0 <= j < ids@.len() && ids@[j] == k;
                    assert(after[ids@[j]] == child_node(ids@[j], id, wanted[j]));
                    assert(depth[id] == depth0[id]);
                    assert(depth[k] == depth0[id] + 1);
                }
            }
            assert forall|k: DefaultKey, n: int|
                after.contains_key(k) && after[k].children is Some && 0 <= n
                    < after[k].children->0.len() implies {
                &&& after.contains_key(#[trigger] after[k].children->0[n])
                &&& after[after[k].children->0[n]].parent == Some(k)
            } by {
                if k == id {
                    assert(after[ids@[n]] == child_node(ids@[n], id, wanted[n]));
                    assert(raw1.contains_key(ids@[n]));
                } else if mid.contains_key(k) {
                    assert(after[k] == before[k]);
                    let c = before[k].children->0[n];
                    assert(before.contains_key(c) && before[c].parent == Some(k));
                    old(self).lemma_below(c, id);
                    assert(!old(self).below(c, id));
                    assert(mid.contains_key(c));
                    assert(c != id ==> after[c] == before[c]);
                } else {
                    let j = choose|j: int| 0 <= j < ids@.len() && ids@[j] == k;
                    assert(after[ids@[j]] == child_node(ids@[j], id, wanted[j]));
                }
            }
            assert forall|k: DefaultKey| #[trigger]
                after.contains_key(k) && after[k].children is Some implies after[k].children->0.no_duplicates() by {
                if k == id {
                } else if mid.contains_key(k) {
                    assert(after[k] == before[k]);
                } else {
                    let j = choose|j: int| 0 <= j < ids@.len() && ids@[j] == k;
                    assert(after[ids@[j]] == child_node(ids@[j], id, wanted[j]));
                }
            }
        }
        Ok(ids)
    }
}

} // verus!
