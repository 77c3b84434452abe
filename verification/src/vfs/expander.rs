//! How a node expands: into fixed children, or into the answers to
//! queries against the remote repository.

use slotmap::DefaultKey;
use vstd::prelude::*;
use crate::text::owned;
use crate::vfs::nodes::{
    Facet,
    FacetNode,
    FacetNodeView,
    Group,
    GroupNode,
    GroupNodeView,
    GroupView,
    RepositoryObjectNode,
    RepositoryObjectNodeView,
    VirtualNodeData,
    VirtualNodeDataView,
};
use crate::vfs::query::{
    ObjectView,
    Preselection,
    RepositoryContent,
    RepositoryContentView,
    RepositoryQuery,
    RepositoryQueryView,
    VirtualFolderView,
};
use crate::vfs::tree::VirtualFileTree;

verus! {

/// The way a node gets its children.
#[derive(Debug, Eq, PartialEq, Clone)]
pub enum Expander {
    /// The children are known without asking the remote side.
    Static(Vec<VirtualNodeData>),
    /// The children are what these queries return, query by query.
    Query(Vec<RepositoryQuery>),
}

/// A `Expander` as contracts see it: texts by their characters.
pub enum ExpanderView {
    Static(Seq<VirtualNodeDataView>),
    Query(Seq<RepositoryQueryView>),
}

/// Node payloads as contracts see them.
pub open spec fn data_views(nodes: Seq<VirtualNodeData>) -> Seq<VirtualNodeDataView> {
    nodes.map_values(|d: VirtualNodeData| d@)
}

/// Queries as contracts see them.
pub open spec fn query_views(queries: Seq<RepositoryQuery>) -> Seq<RepositoryQueryView> {
    queries.map_values(|q: RepositoryQuery| q@)
}

impl View for Expander {
    type V = ExpanderView;

    open spec fn view(&self) -> ExpanderView {
        match self {
            Expander::Static(nodes) => ExpanderView::Static(data_views(nodes@)),
            Expander::Query(queries) => ExpanderView::Query(query_views(queries@)),
        }
    }
}

/// The node of a group, under the group's display name.
pub open spec fn group_node(group: GroupView) -> VirtualNodeDataView {
    VirtualNodeDataView::Group(GroupNodeView { name: group.display_name(), group })
}

/// How a group expands. The system root has its three groups as fixed
/// children. Local objects are those of the owner `DEVELOPER` in the package
/// `$TMP`, listed by owner; the system library is listed by package; the
/// favorites are the objects marked `$DEVELOPER`.
pub open spec fn group_expansion(group: GroupView) -> ExpanderView {
    match group {
        GroupView::System(_) => ExpanderView::Static(
            seq![
                group_node(GroupView::LocalObjects),
                group_node(GroupView::SystemLibrary),
                group_node(GroupView::Favorites),
            ],
        ),
        GroupView::Favorites => ExpanderView::Query(
            seq![
                RepositoryQueryView {
                    preselections: seq![(Facet::Favorites, "$DEVELOPER"@)],
                    wanted_facet: None,
                },
            ],
        ),
        GroupView::LocalObjects => ExpanderView::Query(
            seq![
                RepositoryQueryView {
                    preselections: seq![(Facet::Owner, "DEVELOPER"@), (Facet::Package, "$TMP"@)],
                    wanted_facet: Some(Facet::Owner),
                },
            ],
        ),
        GroupView::SystemLibrary => ExpanderView::Query(
            seq![RepositoryQueryView { preselections: seq![], wanted_facet: Some(Facet::Package) }],
        ),
    }
}

/// Whether expanding the folder asks for its sub-packages first.
pub open spec fn asks_for_packages(node: FacetNodeView) -> bool {
    node.facet == Facet::Package && node.has_children_of_same_facet
}

/// The main query of a folder's expansion: filtered by the folders from
/// the node up to the root, in that order, asking for the folders of the
/// facet that the node's facet expands into, or for objects where there is
/// none.
pub open spec fn main_query(node: FacetNodeView, chain: Seq<(Facet, Seq<char>)>)
    -> RepositoryQueryView {
    RepositoryQueryView { preselections: chain, wanted_facet: node.facet.spec_expands_into() }
}

/// The query for the sub-packages of a package.
pub open spec fn package_query(node: FacetNodeView) -> RepositoryQueryView {
    RepositoryQueryView {
        preselections: seq![(node.facet, node.value)],
        wanted_facet: Some(Facet::Package),
    }
}

/// How a facet folder expands, given the filters from it up to the root:
/// for a package with sub-packages the query for these, then in every case
/// the main query.
pub open spec fn facet_expansion(node: FacetNodeView, chain: Seq<(Facet, Seq<char>)>)
    -> ExpanderView {
    ExpanderView::Query(
        if asks_for_packages(node) {
            seq![package_query(node), main_query(node, chain)]
        } else {
            seq![main_query(node, chain)]
        },
    )
}

/// The node of a folder of an answer.
pub open spec fn folder_node(folder: VirtualFolderView) -> VirtualNodeDataView {
    VirtualNodeDataView::Facet(
        FacetNodeView {
            name: folder.display_name,
            facet: folder.facet,
            value: folder.name,
            has_children_of_same_facet: folder.has_children_of_same_facet,
        },
    )
}

/// The node of an object of an answer.
pub open spec fn object_node(object: ObjectView) -> VirtualNodeDataView {
    VirtualNodeDataView::RepositoryObject(
        RepositoryObjectNodeView {
            name: object.name,
            object_kind: object.kind,
            adt_uri: object.uri,
        },
    )
}

/// The nodes of the folders of an answer: one for each folder, in
/// order.
pub open spec fn folder_nodes(folders: Seq<VirtualFolderView>) -> Seq<VirtualNodeDataView> {
    folders.map_values(|f: VirtualFolderView| folder_node(f))
}

/// The nodes of one answer: its folders, then its objects.
pub open spec fn content_nodes(content: RepositoryContentView) -> Seq<VirtualNodeDataView> {
    folder_nodes(content.folders) + content.objects.map_values(|o: ObjectView| object_node(o))
}

/// The nodes of the answers to the queries of one expansion, answer by
/// answer.
pub open spec fn merged_nodes(answers: Seq<RepositoryContentView>) -> Seq<VirtualNodeDataView>
    decreases answers.len(),
{
    if answers.len() == 0 {
        seq![]
    } else {
        merged_nodes(answers.drop_last()) + content_nodes(answers.last())
    }
}

/// Answers as contracts see them.
pub open spec fn content_views(answers: Seq<RepositoryContent>) -> Seq<RepositoryContentView> {
    answers.map_values(|c: RepositoryContent| c@)
}

/// Appends the nodes of one answer.
fn push_content_nodes(nodes: &mut Vec<VirtualNodeData>, content: &RepositoryContent)
    ensures
        data_views(final(nodes)@) == data_views(old(nodes)@) + content_nodes(content@),
{
    let ghost before = data_views(nodes@);
    let ghost folders = content@.folders;
    let mut i: usize = 0;
    assert(folders.take(0) =~= Seq::<VirtualFolderView>::empty());
    assert(data_views(nodes@) =~= before + folder_nodes(folders.take(0)));
    while i < content.folders.len()
        invariant
            i <= content.folders@.len(),
            folders == content@.folders,
            data_views(nodes@) == before + folder_nodes(folders.take(i as int)),
        decreases content.folders@.len() - i,
    {
        let folder = &content.folders[i];
        let ghost so_far = data_views(nodes@);
        let node = FacetNode::new(
            folder.facet,
            folder.name.as_str(),
            folder.display_name.as_str(),
            folder.has_children_of_same_facet,
        );
        nodes.push(VirtualNodeData::Facet(node));
        assert(data_views(nodes@) =~= so_far.push(folder_node(folder@)));
        assert(before + folder_nodes(folders.take(i + 1)) =~= so_far.push(folder_node(folder@)));
        i += 1;
    }
    assert(folders.take(i as int) =~= folders);
    let ghost base = data_views(nodes@);
    let ghost objects = content@.objects;
    let mut j: usize = 0;
    assert(base + objects.take(0).map_values(|o: ObjectView| object_node(o)) =~= base);
    while j < content.objects.len()
        invariant
            j <= content.objects@.len(),
            objects == content@.objects,
            data_views(nodes@) == base + objects.take(j as int).map_values(
                |o: ObjectView| object_node(o),
            ),
        decreases content.objects@.len() - j,
    {
        let object = &content.objects[j];
        let ghost so_far = data_views(nodes@);
        let node = RepositoryObjectNode {
            name: owned(object.name.as_str()),
            object_kind: owned(object.kind.as_str()),
            adt_uri: owned(object.uri.as_str()),
        };
        nodes.push(VirtualNodeData::RepositoryObject(node));
        assert(data_views(nodes@) =~= so_far.push(object_node(object@)));
        assert(base + objects.take(j + 1).map_values(|o: ObjectView| object_node(o))
            =~= so_far.push(object_node(object@)));
        j += 1;
    }
    assert(objects.take(j as int) =~= objects);
    assert(before + (folder_nodes(folders) + objects.map_values(|o: ObjectView| object_node(o)))
        =~= base + objects.map_values(|o: ObjectView| object_node(o)));
}

/// The nodes that the answers to the queries of one expansion give: of
/// every answer the folders and then the objects.
pub fn merge_results(answers: &Vec<RepositoryContent>) -> (nodes: Vec<VirtualNodeData>)
    ensures
        data_views(nodes@) == merged_nodes(content_views(answers@)),
{
    let mut nodes: Vec<VirtualNodeData> = Vec::new();
    let ghost views = content_views(answers@);
    let mut i: usize = 0;
    assert(views.take(0) =~= Seq::<RepositoryContentView>::empty());
    assert(data_views(nodes@) =~= merged_nodes(views.take(0)));
    while i < answers.len()
        invariant
            i <= answers@.len(),
            views == content_views(answers@),
            data_views(nodes@) == merged_nodes(views.take(i as int)),
        decreases answers@.len() - i,
    {
        assert(views.take(i + 1).drop_last() =~= views.take(i as int));
        assert(views.take(i + 1).last() == answers@[i as int]@);
        push_content_nodes(&mut nodes, &answers[i]);
        i += 1;
    }
    assert(views.take(i as int) =~= views);
    nodes
}

/// The outcomes of queries as contracts see them.
pub open spec fn outcome_views(outcomes: Seq<Option<RepositoryContent>>) -> Seq<
    Option<RepositoryContentView>,
> {
    outcomes.map_values(
        |o: Option<RepositoryContent>|
            match o {
                Some(content) => Some(content@),
                None => None,
            },
    )
}

/// The nodes of the outcomes of the queries of one expansion, answer by
/// answer, or nothing where one of the queries failed.
pub open spec fn merged_outcomes(outcomes: Seq<Option<RepositoryContentView>>) -> Option<
    Seq<VirtualNodeDataView>,
>
    decreases outcomes.len(),
{
    if outcomes.len() == 0 {
        Some(seq![])
    } else {
        match (merged_outcomes(outcomes.drop_last()), outcomes.last()) {
            (Some(nodes), Some(content)) => Some(nodes + content_nodes(content)),
            _ => None,
        }
    }
}

/// Once the outcomes up to some query hold a failure, all of them do.
proof fn lemma_outcomes_fail(outcomes: Seq<Option<RepositoryContentView>>, n: int)
    requires
        0 <= n <= outcomes.len(),
        merged_outcomes(outcomes.take(n)) is None,
    ensures
        merged_outcomes(outcomes) is None,
    decreases outcomes.len() - n,
{
    if n < outcomes.len() {
        assert(outcomes.take(n + 1).drop_last() =~= outcomes.take(n));
        lemma_outcomes_fail(outcomes, n + 1);
    } else {
        assert(outcomes.take(n) =~= outcomes);
    }
}

/// The nodes that the outcomes of the queries of one expansion give: of
/// every answer the folders and then the objects, or nothing where one of
/// the queries failed.
pub fn merge_outcomes(outcomes: &Vec<Option<RepositoryContent>>) -> (nodes: Option<
    Vec<VirtualNodeData>,
>)
    ensures
        match nodes {
            Some(found) => merged_outcomes(outcome_views(outcomes@)) == Some(data_views(found@)),
            None => merged_outcomes(outcome_views(outcomes@)) is None,
        },
{
    let mut nodes: Vec<VirtualNodeData> = Vec::new();
    let ghost views = outcome_views(outcomes@);
    let mut i: usize = 0;
    assert(views.take(0) =~= Seq::<Option<RepositoryContentView>>::empty());
    assert(data_views(nodes@) =~= Seq::<VirtualNodeDataView>::empty());
    while i < outcomes.len()
        invariant
            i <= outcomes@.len(),
            views == outcome_views(outcomes@),
            merged_outcomes(views.take(i as int)) == Some(data_views(nodes@)),
        decreases outcomes@.len() - i,
    {
        assert(views.take(i + 1).drop_last() =~= views.take(i as int));
        assert(views.take(i + 1).last() == views[i as int]);
        match &outcomes[i] {
            Some(content) => {
                push_content_nodes(&mut nodes, content);
            },
            None => {
                proof {
                    lemma_outcomes_fail(views, i + 1);
                }
                return None;
            },
        }
        i += 1;
    }
    assert(views.take(i as int) =~= views);
    Some(nodes)
}

/// How the group expands.
pub fn build_group_expander(node: &GroupNode) -> (expander: Expander)
    ensures
        expander@ == group_expansion(node@.group),
{
    match &node.group {
        Group::System(_) => {
            let nodes = vec![
                VirtualNodeData::Group(GroupNode::new(Group::LocalObjects)),
                VirtualNodeData::Group(GroupNode::new(Group::SystemLibrary)),
                VirtualNodeData::Group(GroupNode::new(Group::Favorites)),
            ];
            assert(data_views(nodes@) =~= seq![
                group_node(GroupView::LocalObjects),
                group_node(GroupView::SystemLibrary),
                group_node(GroupView::Favorites),
            ]);
            Expander::Static(nodes)
        },
        Group::Favorites => {
            let preselections = vec![Preselection::new(Facet::Favorites, "$DEVELOPER")];
            let query = RepositoryQuery { preselections, wanted_facet: None };
            assert(query@.preselections =~= seq![(Facet::Favorites, "$DEVELOPER"@)]);
            let queries = vec![query];
            assert(query_views(queries@) =~= seq![query@]);
            Expander::Query(queries)
        },
        Group::LocalObjects => {
            let preselections = vec![
                Preselection::new(Facet::Owner, "DEVELOPER"),
                Preselection::new(Facet::Package, "$TMP"),
            ];
            let query = RepositoryQuery { preselections, wanted_facet: Some(Facet::Owner) };
            assert(query@.preselections =~= seq![
                (Facet::Owner, "DEVELOPER"@),
                (Facet::Package, "$TMP"@),
            ]);
            let queries = vec![query];
            assert(query_views(queries@) =~= seq![query@]);
            Expander::Query(queries)
        },
        Group::SystemLibrary => {
            let query = RepositoryQuery {
                preselections: Vec::new(),
                wanted_facet: Some(Facet::Package),
            };
            assert(query@.preselections =~= Seq::<(Facet, Seq<char>)>::empty());
            let queries = vec![query];
            assert(query_views(queries@) =~= seq![query@]);
            Expander::Query(queries)
        },
    }
}

impl VirtualFileTree {
    /// How the node with the given id expands, if the tree holds it: a
    /// group by its kind, a folder by its facet and the folders above it, an
    /// object into nothing.
    pub open spec fn expansion_of(self, id: DefaultKey) -> Option<ExpanderView> {
        if !self@.contains_key(id) {
            None
        } else {
            match self@[id].data {
                VirtualNodeDataView::Group(group) => Some(group_expansion(group.group)),
                VirtualNodeDataView::Facet(facet) => Some(
                    facet_expansion(facet, self.filters_from(id)),
                ),
                VirtualNodeDataView::RepositoryObject(_) => Some(ExpanderView::Static(seq![])),
            }
        }
    }

    /// The root of every tree expands into the three groups of a system,
    /// in the order local objects, system library, favorites, and takes no
    /// query for it.
    pub proof fn lemma_root_expands_statically(self)
        requires
            self.wf(),
        ensures
            self.expansion_of(self.spec_root()) == Some(
                ExpanderView::Static(
                    seq![
                        group_node(GroupView::LocalObjects),
                        group_node(GroupView::SystemLibrary),
                        group_node(GroupView::Favorites),
                    ],
                ),
            ),
            forall|answers: Seq<RepositoryContentView>| #[trigger]
                self.new_children(self.spec_root(), answers) == Some(
                    seq![
                        group_node(GroupView::LocalObjects),
                        group_node(GroupView::SystemLibrary),
                        group_node(GroupView::Favorites),
                    ],
                ),
    {
        self.lemma_well_formed();
    }

    /// The last query of a facet folder's expansion is filtered by the
    /// folders from the node up to the root, in that order.
    pub proof fn lemma_main_query_filters(self, id: DefaultKey)
        requires
            self.wf(),
            self@.contains_key(id),
            self@[id].data is Facet,
        ensures
            self.expansion_of(id) matches Some(ExpanderView::Query(queries)) && queries.len() > 0
                && queries.last() == (RepositoryQueryView {
                preselections: self.filters_from(id),
                wanted_facet: self@[id].data->Facet_0.facet.spec_expands_into(),
            }),
    {
    }

    /// How the facet folder `node`, which is the node `id` of this tree,
    /// expands.
    pub fn build_facet_expander(&self, node: &FacetNode, id: DefaultKey) -> (expander: Expander)
        requires
            self.wf(),
        ensures
            expander@ == facet_expansion(node@, self.filters_from(id)),
    {
        let mut queries: Vec<RepositoryQuery> = Vec::new();
        let with_packages = match node.facet {
            Facet::Package => node.has_children_of_same_facet,
            _ => false,
        };
        if with_packages {
            let preselections = vec![Preselection::new(node.facet, node.value.as_str())];
            let query = RepositoryQuery { preselections, wanted_facet: Some(Facet::Package) };
            assert(query@.preselections =~= seq![(node.facet, node.value@)]);
            queries.push(query);
        }
        let chain = self.walk_facets_from(id);
        let ghost filters = self.filters_from(id);
        let mut preselections: Vec<Preselection> = Vec::new();
        let mut i: usize = 0;
        while i < chain.len()
            invariant
                i <= chain@.len(),
                filters == chain@.map_values(|p: (Facet, String)| (p.0, p.1@)),
                preselections@.len() == i,
                forall|k: int| 0 <= k < i ==> (#[trigger] preselections@[k])@ == filters[k],
            decreases chain@.len() - i,
        {
            preselections.push(Preselection::new(chain[i].0, chain[i].1.as_str()));
            i += 1;
        }
        let query = RepositoryQuery { preselections, wanted_facet: node.facet.expands_into() };
        assert(query@.preselections =~= filters);
        let ghost first = queries@;
        queries.push(query);
        assert(query_views(queries@) =~= query_views(first).push(query@));
        proof {
            if with_packages {
                assert(query_views(queries@) =~= seq![
                    package_query(node@),
                    main_query(node@, filters),
                ]);
            } else {
                assert(query_views(queries@) =~= seq![main_query(node@, filters)]);
            }
        }
        Expander::Query(queries)
    }

    /// How the node with the given id expands. There is nothing to say of
    /// an id that the tree does not hold.
    pub fn expander(&self, id: DefaultKey) -> (expander: Option<Expander>)
        requires
            self.wf(),
        ensures
            self.expansion_of(id) == match expander {
                Some(e) => Some(e@),
                None => None,
            },
    {
        match self.lookup(id) {
            None => None,
            Some(node) => match &node.data {
                VirtualNodeData::Facet(facet) => Some(self.build_facet_expander(facet, id)),
                VirtualNodeData::Group(group) => Some(build_group_expander(group)),
                VirtualNodeData::RepositoryObject(_) => {
                    let nodes: Vec<VirtualNodeData> = Vec::new();
                    assert(data_views(nodes@) =~= Seq::<VirtualNodeDataView>::empty());
                    Some(Expander::Static(nodes))
                },
            },
        }
    }
}

} // verus!
