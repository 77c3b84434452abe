//! Queries for repository content and what the remote side answers.

use vstd::prelude::*;
use crate::text::owned;
use crate::vfs::nodes::Facet;

verus! {

/// One filter of a query: the content is narrowed to one value of a facet.
#[derive(Debug, Eq, PartialEq, Clone)]
pub struct Preselection {
    pub facet: Facet,
    pub value: String,
}

impl View for Preselection {
    type V = (Facet, Seq<char>);

    open spec fn view(&self) -> (Facet, Seq<char>) {
        (self.facet, self.value@)
    }
}

impl Preselection {
    /// The filter for one value of a facet.
    pub fn new(facet: Facet, value: &str) -> (filter: Self)
        ensures
            filter@ == (facet, value@),
    {
        Preselection { facet, value: owned(value) }
    }
}

/// A query for the content of the repository under some filters. With a
/// wanted facet the answer lists the folders of that facet, without one the
/// objects themselves.
#[derive(Debug, Eq, PartialEq, Clone)]
pub struct RepositoryQuery {
    pub preselections: Vec<Preselection>,
    pub wanted_facet: Option<Facet>,
}

/// A `RepositoryQuery` as contracts see it: texts by their characters.
pub struct RepositoryQueryView {
    pub preselections: Seq<(Facet, Seq<char>)>,
    pub wanted_facet: Option<Facet>,
}

impl View for RepositoryQuery {
    type V = RepositoryQueryView;

    open spec fn view(&self) -> RepositoryQueryView {
        RepositoryQueryView {
            preselections: self.preselections@.map_values(|p: Preselection| p@),
            wanted_facet: self.wanted_facet,
        }
    }
}

/// A folder in the answer to a query.
#[derive(Debug, Eq, PartialEq, Clone)]
pub struct VirtualFolder {
    pub facet: Facet,
    pub name: String,
    pub display_name: String,
    pub has_children_of_same_facet: bool,
}

/// A `VirtualFolder` as contracts see it: texts by their characters.
pub struct VirtualFolderView {
    pub facet: Facet,
    pub name: Seq<char>,
    pub display_name: Seq<char>,
    pub has_children_of_same_facet: bool,
}

impl View for VirtualFolder {
    type V = VirtualFolderView;

    open spec fn view(&self) -> VirtualFolderView {
        VirtualFolderView {
            facet: self.facet,
            name: self.name@,
            display_name: self.display_name@,
            has_children_of_same_facet: self.has_children_of_same_facet,
        }
    }
}

/// An object in the answer to a query.
#[derive(Debug, Eq, PartialEq, Clone)]
pub struct Object {
    pub name: String,
    pub kind: String,
    pub uri: String,
}

/// A `Object` as contracts see it: texts by their characters.
pub struct ObjectView {
    pub name: Seq<char>,
    pub kind: Seq<char>,
    pub uri: Seq<char>,
}

impl View for Object {
    type V = ObjectView;

    open spec fn view(&self) -> ObjectView {
        ObjectView { name: self.name@, kind: self.kind@, uri: self.uri@ }
    }
}

/// The answer to one query: folders and objects.
#[derive(Debug, Eq, PartialEq, Clone)]
pub struct RepositoryContent {
    pub folders: Vec<VirtualFolder>,
    pub objects: Vec<Object>,
}

/// A `RepositoryContent` as contracts see it: texts by their characters.
pub struct RepositoryContentView {
    pub folders: Seq<VirtualFolderView>,
    pub objects: Seq<ObjectView>,
}

impl View for RepositoryContent {
    type V = RepositoryContentView;

    open spec fn view(&self) -> RepositoryContentView {
        RepositoryContentView {
            folders: self.folders@.map_values(|f: VirtualFolder| f@),
            objects: self.objects@.map_values(|o: Object| o@),
        }
    }
}

} // verus!
