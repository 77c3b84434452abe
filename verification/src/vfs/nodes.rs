//! The nodes of the virtual repository tree.

use slotmap::DefaultKey;
use vstd::prelude::*;
use crate::text::owned;
use crate::vfs::query::{Object, VirtualFolder};
use vstd::std_specs::convert::FromSpecImpl;

verus! {

/// A dimension by which the remote repository can be filtered.
#[derive(Copy, Clone, Debug, PartialEq, Eq, Structural)]
pub enum Facet {
    Package,
    Owner,
    Type,
    Favorites,
}

impl Facet {
    /// The facet whose folders the children of a folder of this facet
    /// are. A facet without one has repository objects as children.
    pub open spec fn spec_expands_into(self) -> Option<Facet> {
        match self {
            Facet::Package => Some(Facet::Type),
            Facet::Owner => Some(Facet::Type),
            Facet::Favorites => Some(Facet::Type),
            Facet::Type => None,
        }
    }

    /// The facet that folders of this facet expand into, if any.
    pub fn expands_into(&self) -> (sub: Option<Facet>)
        ensures
            sub == self.spec_expands_into(),
    {
        match self {
            Facet::Package => Some(Facet::Type),
            Facet::Owner => Some(Facet::Type),
            Facet::Favorites => Some(Facet::Type),
            Facet::Type => None,
        }
    }
}

/// The groupings that this side adds above the repository's own facets.
#[derive(Debug, Eq, PartialEq, Clone)]
pub enum Group {
    /// The system root, with the system's id.
    System(String),
    /// Objects outside the system library.
    LocalObjects,
    /// The public system library.
    SystemLibrary,
    /// What the user has marked as favorite.
    Favorites,
}

/// A `Group` as contracts see it: texts by their characters.
pub enum GroupView {
    System(Seq<char>),
    LocalObjects,
    SystemLibrary,
    Favorites,
}

impl GroupView {
    /// The name under which the group is shown.
    pub open spec fn display_name(self) -> Seq<char> {
        match self {
            GroupView::System(name) => name,
            GroupView::LocalObjects => "Local Objects"@,
            GroupView::SystemLibrary => "System Library"@,
            GroupView::Favorites => "Favorites"@,
        }
    }
}

impl View for Group {
    type V = GroupView;

    open spec fn view(&self) -> GroupView {
        match self {
            Group::System(name) => GroupView::System(name@),
            Group::LocalObjects => GroupView::LocalObjects,
            Group::SystemLibrary => GroupView::SystemLibrary,
            Group::Favorites => GroupView::Favorites,
        }
    }
}

impl Group {
    /// A second value of the same group.
    pub fn duplicate(&self) -> (copy: Self)
        ensures
            copy@ == self@,
    {
        match self {
            Group::System(name) => Group::System(owned(name.as_str())),
            Group::LocalObjects => Group::LocalObjects,
            Group::SystemLibrary => Group::SystemLibrary,
            Group::Favorites => Group::Favorites,
        }
    }

    /// The name under which the group is shown: the system's id for the
    /// root, a fixed name for the others.
    pub fn display_name(&self) -> (name: &str)
        ensures
            name@ == self@.display_name(),
    {
        match self {
            Group::System(name) => name.as_str(),
            Group::LocalObjects => "Local Objects",
            Group::SystemLibrary => "System Library",
            Group::Favorites => "Favorites",
        }
    }
}

/// A grouping node.
#[derive(Debug, Eq, PartialEq, Clone)]
pub struct GroupNode {
    /// The name shown for the group.
    pub name: String,
    /// Which group it is.
    pub group: Group,
}

/// A `GroupNode` as contracts see it: texts by their characters.
pub struct GroupNodeView {
    pub name: Seq<char>,
    pub group: GroupView,
}

impl View for GroupNode {
    type V = GroupNodeView;

    open spec fn view(&self) -> GroupNodeView {
        GroupNodeView { name: self.name@, group: self.group@ }
    }
}

impl GroupNode {
    /// The node of a group, shown under the group's display name.
    pub fn new(group: Group) -> (node: Self)
        ensures
            node@ == (GroupNodeView { name: group@.display_name(), group: group@ }),
    {
        let name = owned(group.display_name());
        GroupNode { name, group }
    }
}

/// A folder of one facet of the remote repository, such as the package
/// `/BUILD/` or the owner `DEVELOPER`.
#[derive(Debug, Eq, PartialEq, Clone)]
pub struct FacetNode {
    /// The name shown for the folder.
    pub name: String,
    /// The facet that the folder belongs to.
    pub facet: Facet,
    /// The technical value by which the repository is filtered.
    pub value: String,
    /// Whether the folder holds folders of its own facet, as a package
    /// holds sub-packages.
    pub has_children_of_same_facet: bool,
}

/// A `FacetNode` as contracts see it: texts by their characters.
pub struct FacetNodeView {
    pub name: Seq<char>,
    pub facet: Facet,
    pub value: Seq<char>,
    pub has_children_of_same_facet: bool,
}

impl View for FacetNode {
    type V = FacetNodeView;

    open spec fn view(&self) -> FacetNodeView {
        FacetNodeView {
            name: self.name@,
            facet: self.facet,
            value: self.value@,
            has_children_of_same_facet: self.has_children_of_same_facet,
        }
    }
}

impl FacetNode {
    /// A folder of the facet with the given value, shown under `name`.
    pub fn new(facet: Facet, value: &str, name: &str, has_children_of_same_facet: bool) -> (node:
        Self)
        ensures
            node@ == (FacetNodeView {
                name: name@,
                facet,
                value: value@,
                has_children_of_same_facet,
            }),
    {
        FacetNode { facet, value: owned(value), name: owned(name), has_children_of_same_facet }
    }
}

/// An object of the repository: a leaf of the tree.
#[derive(Debug, Eq, PartialEq, Clone)]
pub struct RepositoryObjectNode {
    /// The name of the object.
    pub name: String,
    /// The kind of object, such as `PROG/P`.
    pub object_kind: String,
    /// The uri under which the remote side addresses the object.
    pub adt_uri: String,
}

/// A `RepositoryObjectNode` as contracts see it: texts by their characters.
pub struct RepositoryObjectNodeView {
    pub name: Seq<char>,
    pub object_kind: Seq<char>,
    pub adt_uri: Seq<char>,
}

impl View for RepositoryObjectNode {
    type V = RepositoryObjectNodeView;

    open spec fn view(&self) -> RepositoryObjectNodeView {
        RepositoryObjectNodeView {
            name: self.name@,
            object_kind: self.object_kind@,
            adt_uri: self.adt_uri@,
        }
    }
}

/// What a node stands for.
#[derive(Debug, Eq, PartialEq, Clone)]
pub enum VirtualNodeData {
    Group(GroupNode),
    Facet(FacetNode),
    RepositoryObject(RepositoryObjectNode),
}

/// A `VirtualNodeData` as contracts see it: texts by their characters.
pub enum VirtualNodeDataView {
    Group(GroupNodeView),
    Facet(FacetNodeView),
    RepositoryObject(RepositoryObjectNodeView),
}

impl View for VirtualNodeData {
    type V = VirtualNodeDataView;

    open spec fn view(&self) -> VirtualNodeDataView {
        match self {
            VirtualNodeData::Group(g) => VirtualNodeDataView::Group(g@),
            VirtualNodeData::Facet(f) => VirtualNodeDataView::Facet(f@),
            VirtualNodeData::RepositoryObject(o) => VirtualNodeDataView::RepositoryObject(o@),
        }
    }
}

impl From<GroupNode> for VirtualNodeData {
    fn from(value: GroupNode) -> (data: Self) {
        VirtualNodeData::Group(value)
    }
}

impl FromSpecImpl<GroupNode> for VirtualNodeData {
    open spec fn obeys_from_spec() -> bool {
        true
    }

    open spec fn from_spec(value: GroupNode) -> Self {
        VirtualNodeData::Group(value)
    }
}

impl From<FacetNode> for VirtualNodeData {
    fn from(value: FacetNode) -> (data: Self) {
        VirtualNodeData::Facet(value)
    }
}

impl FromSpecImpl<FacetNode> for VirtualNodeData {
    open spec fn obeys_from_spec() -> bool {
        true
    }

    open spec fn from_spec(value: FacetNode) -> Self {
        VirtualNodeData::Facet(value)
    }
}

impl From<RepositoryObjectNode> for VirtualNodeData {
    fn from(value: RepositoryObjectNode) -> (data: Self) {
        VirtualNodeData::RepositoryObject(value)
    }
}

impl FromSpecImpl<RepositoryObjectNode> for VirtualNodeData {
    open spec fn obeys_from_spec() -> bool {
        true
    }

    open spec fn from_spec(value: RepositoryObjectNode) -> Self {
        VirtualNodeData::RepositoryObject(value)
    }
}

/// A folder of an answer becomes a facet folder: shown under its display
/// name, filtering by its name.
impl From<VirtualFolder> for VirtualNodeData {
    fn from(value: VirtualFolder) -> (data: Self) {
        VirtualNodeData::Facet(
            FacetNode {
                name: value.display_name,
                value: value.name,
                facet: value.facet,
                has_children_of_same_facet: value.has_children_of_same_facet,
            },
        )
    }
}

impl FromSpecImpl<VirtualFolder> for VirtualNodeData {
    open spec fn obeys_from_spec() -> bool {
        true
    }

    open spec fn from_spec(value: VirtualFolder) -> Self {
        VirtualNodeData::Facet(
            FacetNode {
                name: value.display_name,
                value: value.name,
                facet: value.facet,
                has_children_of_same_facet: value.has_children_of_same_facet,
            },
        )
    }
}

/// An object of an answer becomes a leaf.
impl From<Object> for VirtualNodeData {
    fn from(value: Object) -> (data: Self) {
        VirtualNodeData::RepositoryObject(
            RepositoryObjectNode { name: value.name, object_kind: value.kind, adt_uri: value.uri },
        )
    }
}

impl FromSpecImpl<Object> for VirtualNodeData {
    open spec fn obeys_from_spec() -> bool {
        true
    }

    open spec fn from_spec(value: Object) -> Self {
        VirtualNodeData::RepositoryObject(
            RepositoryObjectNode { name: value.name, object_kind: value.kind, adt_uri: value.uri },
        )
    }
}

impl VirtualNodeData {
    /// A second value with the same content.
    pub fn duplicate(&self) -> (copy: Self)
        ensures
            copy@ == self@,
    {
        match self {
            VirtualNodeData::Group(g) => VirtualNodeData::Group(
                GroupNode { name: owned(g.name.as_str()), group: g.group.duplicate() },
            ),
            VirtualNodeData::Facet(f) => VirtualNodeData::Facet(
                FacetNode {
                    name: owned(f.name.as_str()),
                    facet: f.facet,
                    value: owned(f.value.as_str()),
                    has_children_of_same_facet: f.has_children_of_same_facet,
                },
            ),
            VirtualNodeData::RepositoryObject(o) => VirtualNodeData::RepositoryObject(
                RepositoryObjectNode {
                    name: owned(o.name.as_str()),
                    object_kind: owned(o.object_kind.as_str()),
                    adt_uri: owned(o.adt_uri.as_str()),
                },
            ),
        }
    }
}

/// A node of the tree: its own id, the id of its parent, the ids of its
/// children once they were fetched, and what it stands for.
#[derive(Debug, Eq, PartialEq, Clone)]
pub struct VirtualNode {
    pub id: DefaultKey,
    pub parent: Option<DefaultKey>,
    pub children: Option<Vec<DefaultKey>>,
    pub data: VirtualNodeData,
}

/// A `VirtualNode` as contracts see it: texts by their characters.
pub struct VirtualNodeView {
    pub id: DefaultKey,
    pub parent: Option<DefaultKey>,
    pub children: Option<Seq<DefaultKey>>,
    pub data: VirtualNodeDataView,
}

impl View for VirtualNode {
    type V = VirtualNodeView;

    open spec fn view(&self) -> VirtualNodeView {
        VirtualNodeView {
            id: self.id,
            parent: self.parent,
            children: match self.children {
                Some(ids) => Some(ids@),
                None => None,
            },
            data: self.data@,
        }
    }
}

/// A second list of the same ids.
pub fn copy_ids(ids: &Vec<DefaultKey>) -> (copied: Vec<DefaultKey>)
    ensures
        copied@ == ids@,
{
    let mut copied: Vec<DefaultKey> = Vec::new();
    let mut i: usize = 0;
    while i < ids.len()
        invariant
            i <= ids@.len(),
            copied@ == ids@.take(i as int),
        decreases ids@.len() - i,
    {
        copied.push(ids[i]);
        assert(copied@ =~= ids@.take(i + 1));
        i += 1;
    }
    assert(ids@.take(i as int) =~= ids@);
    copied
}

impl VirtualNode {
    /// A node without parent and without children.
    pub fn new(id: DefaultKey, data: VirtualNodeData) -> (node: Self)
        ensures
            node == (VirtualNode { id, parent: None, children: None, data }),
    {
        VirtualNode { id, data, parent: None, children: None }
    }

    /// A second node with the same content.
    pub fn duplicate(&self) -> (copy: Self)
        ensures
            copy@ == self@,
    {
        let children = match &self.children {
            None => None,
            Some(ids) => Some(copy_ids(ids)),
        };
        VirtualNode { id: self.id, parent: self.parent, children, data: self.data.duplicate() }
    }

    /// The node, placed under `parent`.
    pub fn parent(self, parent: DefaultKey) -> (node: Self)
        ensures
            node == (VirtualNode { parent: Some(parent), ..self }),
    {
        let mut node = self;
        node.parent = Some(parent);
        node
    }
}

} // verus!
