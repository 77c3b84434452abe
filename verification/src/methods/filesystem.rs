//! Browsing the repository tree and reading objects.

use slotmap::DefaultKey;
use vstd::prelude::*;
use crate::adt::object::{ObjectSourceRequest, ObjectSourceRequestView};
use crate::document::SourceCodeDocument;
use crate::vfs::nodes::{VirtualNode, VirtualNodeData, VirtualNodeDataView, VirtualNodeView};
use crate::vfs::tree::VirtualFileTree;

verus! {

/// What the editor sends to expand a node.
#[derive(Debug, Eq, PartialEq, Clone)]
pub struct ExpandParams {
    pub id: DefaultKey,
}

/// The children of an expanded node.
#[derive(Debug, Eq, PartialEq, Clone)]
pub struct ExpandResult {
    pub children: Vec<VirtualNode>,
}

/// What the editor sends to read an object.
#[derive(Debug, Eq, PartialEq, Clone)]
pub struct ReadFileParams {
    pub id: DefaultKey,
    /// The uri under which the editor knows the object.
    pub uri: String,
    pub version: Option<String>,
}

/// The source of an object.
#[derive(Debug, Eq, PartialEq, Clone)]
pub struct ReadFileResult {
    pub content: String,
}

/// Why a request could not be answered.
#[derive(Copy, Clone, Debug, PartialEq, Eq, Structural)]
pub enum RequestError {
    /// The tree holds no node with the id of the request.
    UnknownNode,
    /// The node of the request is no repository object.
    NotAnObject,
}

/// Nodes as contracts see them.
pub open spec fn node_views(nodes: Seq<VirtualNode>) -> Seq<VirtualNodeView> {
    nodes.map_values(|n: VirtualNode| n@)
}

/// The answer to an expand request: the nodes with the given ids, which
/// are those that the expansion returned.
pub fn expand_result(tree: &VirtualFileTree, ids: &Vec<DefaultKey>) -> (result: Result<
    ExpandResult,
    RequestError,
>)
    ensures
        match result {
            Ok(answer) => {
                &&& answer.children@.len() == ids@.len()
                &&& forall|i: int|
                    0 <= i < ids@.len() ==> tree@.contains_key(ids@[i]) && (
                    #[trigger] answer.children@[i])@ == tree@[ids@[i]]
            },
            Err(e) => e == RequestError::UnknownNode && exists|i: int|
                0 <= i < ids@.len() && !tree@.contains_key(#[trigger] ids@[i]),
        },
{
    let mut children: Vec<VirtualNode> = Vec::new();
    let mut i: usize = 0;
    while i < ids.len()
        invariant
            i <= ids@.len(),
            children@.len() == i,
            forall|k: int| 0 <= k < i ==> tree@.contains_key(#[trigger] ids@[k]),
            forall|k: int| 0 <= k < i ==> (#[trigger] children@[k])@ == tree@[ids@[k]],
        decreases ids@.len() - i,
    {
        let copy = match tree.lookup(ids[i]) {
            Some(node) => node.duplicate(),
            None => {
                return Err(RequestError::UnknownNode);
            },
        };
        children.push(copy);
        i += 1;
    }
    Ok(ExpandResult { children })
}

/// The uri of the remote object that a read request is about: that of
/// the node of the request, which has to be a repository object.
pub open spec fn read_target(tree: VirtualFileTree, id: DefaultKey) -> Result<
    Seq<char>,
    RequestError,
> {
    if !tree@.contains_key(id) {
        Err(RequestError::UnknownNode)
    } else {
        match tree@[id].data {
            VirtualNodeDataView::RepositoryObject(object) => Ok(object.adt_uri),
            _ => Err(RequestError::NotAnObject),
        }
    }
}

/// The read of the source that a read request asks for, where the
/// document is not open yet: of the object of the node, whatever is cached.
pub fn read_request(tree: &VirtualFileTree, params: &ReadFileParams) -> (request: Result<
    ObjectSourceRequest,
    RequestError,
>)
    ensures
        match request {
            Ok(r) => read_target(*tree, params.id) matches Ok(uri) && r@ == (
            ObjectSourceRequestView { object_uri: uri, etag: None, version: None }),
            Err(e) => read_target(*tree, params.id) == Err::<Seq<char>, RequestError>(e),
        },
{
    match tree.lookup(params.id) {
        None => Err(RequestError::UnknownNode),
        Some(node) => match &node.data {
            VirtualNodeData::RepositoryObject(object) => Ok(
                ObjectSourceRequest::new(object.adt_uri.as_str()),
            ),
            _ => Err(RequestError::NotAnObject),
        },
    }
}

/// The answer to a read request: the text of the document.
pub fn read_result(document: &SourceCodeDocument) -> (result: ReadFileResult)
    ensures
        result.content@ == document.text(),
{
    ReadFileResult { content: document.raw_content() }
}

} // verus!
