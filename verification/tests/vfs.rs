use abap_lsp::vfs::expander::{build_group_expander, merge_outcomes, merge_results, Expander};
use abap_lsp::vfs::nodes::{
    Facet, FacetNode, Group, GroupNode, RepositoryObjectNode, VirtualNode, VirtualNodeData,
};
use abap_lsp::vfs::query::{
    Object, Preselection, RepositoryContent, RepositoryQuery, VirtualFolder,
};
use abap_lsp::vfs::tree::{TreeError, VirtualFileTree};
use slotmap::{DefaultKey, KeyData};

fn folder(facet: Facet, name: &str, display_name: &str, nested: bool) -> VirtualFolder {
    VirtualFolder {
        facet,
        name: name.to_owned(),
        display_name: display_name.to_owned(),
        has_children_of_same_facet: nested,
    }
}

fn object(name: &str, kind: &str, uri: &str) -> Object {
    Object { name: name.to_owned(), kind: kind.to_owned(), uri: uri.to_owned() }
}

fn answer(folders: Vec<VirtualFolder>, objects: Vec<Object>) -> RepositoryContent {
    RepositoryContent { folders, objects }
}

fn filter(facet: Facet, value: &str) -> Preselection {
    Preselection { facet, value: value.to_owned() }
}

fn names(tree: &VirtualFileTree, ids: &Vec<DefaultKey>) -> Vec<String> {
    tree.lookup_all(ids)
        .iter()
        .map(|node| match &node.data {
            VirtualNodeData::Group(g) => g.name.clone(),
            VirtualNodeData::Facet(f) => f.name.clone(),
            VirtualNodeData::RepositoryObject(o) => o.name.clone(),
        })
        .collect()
}

/// root -> System Library -> /BUILD/ -> /BUILD/CORE -> CLAS
fn tree_with_type_node() -> (VirtualFileTree, Vec<DefaultKey>) {
    let mut tree = VirtualFileTree::new("A4H".to_owned());
    let groups = tree.expand(tree.root(), &Vec::new()).unwrap();
    let library = groups[1];
    let packages = tree
        .expand(library, &vec![answer(vec![folder(Facet::Package, "/BUILD/", "/BUILD/", true)], vec![])])
        .unwrap();
    let build = packages[0];
    let inner = tree
        .expand(
            build,
            &vec![
                answer(vec![folder(Facet::Package, "/BUILD/CORE", "/BUILD/CORE", false)], vec![]),
                answer(vec![], vec![]),
            ],
        )
        .unwrap();
    let core = inner[0];
    let types = tree
        .expand(core, &vec![answer(vec![folder(Facet::Type, "CLAS", "Classes", false)], vec![])])
        .unwrap();
    let clas = types[0];
    (tree, vec![library, build, core, clas])
}

#[test]
fn new_tree_holds_the_system_root() {
    let tree = VirtualFileTree::new("A4H".to_owned());
    let root = tree.lookup(tree.root()).unwrap();
    assert_eq!(root.id, tree.root());
    assert_eq!(root.parent, None);
    assert_eq!(root.children, None);
    assert_eq!(
        root.data,
        VirtualNodeData::Group(GroupNode {
            name: "A4H".to_owned(),
            group: Group::System("A4H".to_owned()),
        })
    );
}

#[test]
fn test_expand_static_root() {
    let mut tree = VirtualFileTree::new("A4H".to_owned());
    let root = tree.root();
    assert_eq!(
        tree.expander(root),
        Some(Expander::Static(vec![
            VirtualNodeData::Group(GroupNode::new(Group::LocalObjects)),
            VirtualNodeData::Group(GroupNode::new(Group::SystemLibrary)),
            VirtualNodeData::Group(GroupNode::new(Group::Favorites)),
        ]))
    );
    let ids = tree.expand(root, &Vec::new()).unwrap();
    assert_eq!(names(&tree, &ids), vec!["Local Objects", "System Library", "Favorites"]);
    let nodes = tree.lookup_all(&ids);
    assert_eq!(
        nodes.iter().map(|n| n.data.clone()).collect::<Vec<_>>(),
        vec![
            VirtualNodeData::Group(GroupNode { name: "Local Objects".to_owned(), group: Group::LocalObjects }),
            VirtualNodeData::Group(GroupNode { name: "System Library".to_owned(), group: Group::SystemLibrary }),
            VirtualNodeData::Group(GroupNode { name: "Favorites".to_owned(), group: Group::Favorites }),
        ]
    );
    for (node, id) in nodes.iter().zip(ids.iter()) {
        assert_eq!(node.id, *id);
        assert_eq!(node.parent, Some(root));
        assert_eq!(node.children, None);
    }
    assert_eq!(tree.lookup(root).unwrap().children, Some(ids));
}

#[test]
fn static_expansion_ignores_answers() {
    let mut tree = VirtualFileTree::new("A4H".to_owned());
    let stray = vec![answer(vec![folder(Facet::Owner, "X", "X", false)], vec![])];
    let ids = tree.expand(tree.root(), &stray).unwrap();
    assert_eq!(names(&tree, &ids), vec!["Local Objects", "System Library", "Favorites"]);
}

#[test]
fn test_expand_local_objects() {
    let mut tree = VirtualFileTree::new("A4H".to_owned());
    let root = tree.root();
    let groups = tree.expand(root, &Vec::new()).unwrap();
    let local = *groups
        .iter()
        .find(|id| names(&tree, &vec![**id]) == vec!["Local Objects"])
        .unwrap();
    assert_eq!(
        tree.expander(local),
        Some(Expander::Query(vec![RepositoryQuery {
            preselections: vec![filter(Facet::Owner, "DEVELOPER"), filter(Facet::Package, "$TMP")],
            wanted_facet: Some(Facet::Owner),
        }]))
    );
    let answers = vec![answer(vec![folder(Facet::Owner, "DEVELOPER", "DEVELOPER", false)], vec![])];
    let ids = tree.expand(local, &answers).unwrap();
    assert_eq!(ids.len(), 1);
    let node = tree.lookup(ids[0]).unwrap();
    assert_eq!(node.parent, Some(local));
    assert_eq!(
        node.data,
        VirtualNodeData::Facet(FacetNode::new(Facet::Owner, "DEVELOPER", "DEVELOPER", false))
    );
}

#[test]
fn group_expanders() {
    assert_eq!(
        build_group_expander(&GroupNode::new(Group::SystemLibrary)),
        Expander::Query(vec![RepositoryQuery {
            preselections: vec![],
            wanted_facet: Some(Facet::Package),
        }])
    );
    assert_eq!(
        build_group_expander(&GroupNode::new(Group::Favorites)),
        Expander::Query(vec![RepositoryQuery {
            preselections: vec![filter(Facet::Favorites, "$DEVELOPER")],
            wanted_facet: None,
        }])
    );
    assert!(matches!(
        build_group_expander(&GroupNode::new(Group::System("NPL".to_owned()))),
        Expander::Static(nodes) if nodes.len() == 3
    ));
}

#[test]
fn facet_filters_run_from_the_node_to_the_root() {
    let (tree, path) = tree_with_type_node();
    let clas = path[3];
    assert_eq!(
        tree.walk_facets_from(clas),
        vec![
            (Facet::Type, "CLAS".to_owned()),
            (Facet::Package, "/BUILD/CORE".to_owned()),
            (Facet::Package, "/BUILD/".to_owned()),
        ]
    );
    assert_eq!(
        tree.expander(clas),
        Some(Expander::Query(vec![RepositoryQuery {
            preselections: vec![
                filter(Facet::Type, "CLAS"),
                filter(Facet::Package, "/BUILD/CORE"),
                filter(Facet::Package, "/BUILD/"),
            ],
            wanted_facet: None,
        }]))
    );
}

#[test]
fn facet_filters_of_groups_and_unknown_ids() {
    let (tree, path) = tree_with_type_node();
    assert_eq!(tree.walk_facets_from(tree.root()), vec![]);
    assert_eq!(tree.walk_facets_from(path[0]), vec![]);
    assert_eq!(tree.walk_facets_from(path[1]), vec![(Facet::Package, "/BUILD/".to_owned())]);
    assert_eq!(tree.walk_facets_from(DefaultKey::default()), vec![]);
}

#[test]
fn package_with_sub_packages_asks_for_them_first() {
    let (tree, path) = tree_with_type_node();
    let build = path[1];
    assert_eq!(
        tree.expander(build),
        Some(Expander::Query(vec![
            RepositoryQuery {
                preselections: vec![filter(Facet::Package, "/BUILD/")],
                wanted_facet: Some(Facet::Package),
            },
            RepositoryQuery {
                preselections: vec![filter(Facet::Package, "/BUILD/")],
                wanted_facet: Some(Facet::Type),
            },
        ]))
    );
}

#[test]
fn package_without_sub_packages_asks_once() {
    let (tree, path) = tree_with_type_node();
    let core = path[2];
    assert_eq!(
        tree.expander(core),
        Some(Expander::Query(vec![RepositoryQuery {
            preselections: vec![
                filter(Facet::Package, "/BUILD/CORE"),
                filter(Facet::Package, "/BUILD/"),
            ],
            wanted_facet: Some(Facet::Type),
        }]))
    );
}

#[test]
fn facets_expand_into_types_and_types_into_objects() {
    assert_eq!(Facet::Package.expands_into(), Some(Facet::Type));
    assert_eq!(Facet::Owner.expands_into(), Some(Facet::Type));
    assert_eq!(Facet::Favorites.expands_into(), Some(Facet::Type));
    assert_eq!(Facet::Type.expands_into(), None);
}

#[test]
fn answers_are_merged_in_order() {
    let answers = vec![
        answer(
            vec![
                folder(Facet::Package, "/BUILD/CORE", "Core", false),
                folder(Facet::Package, "../BUILD/", "..", false),
            ],
            vec![object("ZPROG", "PROG/P", "/sap/bc/adt/programs/programs/zprog")],
        ),
        answer(vec![folder(Facet::Type, "CLAS", "Classes", false)], vec![]),
    ];
    assert_eq!(
        merge_results(&answers),
        vec![
            VirtualNodeData::Facet(FacetNode::new(Facet::Package, "/BUILD/CORE", "Core", false)),
            VirtualNodeData::Facet(FacetNode::new(Facet::Package, "../BUILD/", "..", false)),
            VirtualNodeData::RepositoryObject(RepositoryObjectNode {
                name: "ZPROG".to_owned(),
                object_kind: "PROG/P".to_owned(),
                adt_uri: "/sap/bc/adt/programs/programs/zprog".to_owned(),
            }),
            VirtualNodeData::Facet(FacetNode::new(Facet::Type, "CLAS", "Classes", false)),
        ]
    );
    assert_eq!(merge_results(&Vec::new()), vec![]);
}

#[test]
fn expanding_twice_replaces_the_children() {
    let mut tree = VirtualFileTree::new("A4H".to_owned());
    let root = tree.root();
    let first = tree.expand(root, &Vec::new()).unwrap();
    let second = tree.expand(root, &Vec::new()).unwrap();
    assert_eq!(second.len(), 3);
    assert!(first.iter().all(|id| !second.contains(id)));
    let listed = tree.lookup(root).unwrap().children.clone().unwrap();
    assert_eq!(listed, second);
    let mut unique = listed.clone();
    unique.sort();
    unique.dedup();
    assert_eq!(unique.len(), listed.len());
    assert_eq!(names(&tree, &listed), vec!["Local Objects", "System Library", "Favorites"]);
    // The children of the first expansion have left the tree.
    assert!(first.iter().all(|id| tree.lookup(*id).is_none()));
    assert_eq!(tree.try_lookup_all(&first), None);
}

#[test]
fn expanding_again_drops_all_that_lay_below() {
    let (mut tree, path) = tree_with_type_node();
    let (library, build, core, clas) = (path[0], path[1], path[2], path[3]);
    let other = tree
        .expand(library, &vec![answer(vec![folder(Facet::Package, "/OTHER/", "/OTHER/", false)], vec![])])
        .unwrap();
    assert_eq!(names(&tree, &other), vec!["/OTHER/"]);
    for gone in [build, core, clas] {
        assert_eq!(tree.lookup(gone), None);
        assert_eq!(tree.expander(gone), None);
        assert_eq!(tree.expand(gone, &Vec::new()), Err(TreeError::UnknownNode));
    }
    // What does not lie below the expanded node stays.
    let root = tree.lookup(tree.root()).unwrap();
    let groups = root.children.clone().unwrap();
    assert_eq!(groups.len(), 3);
    assert_eq!(names(&tree, &groups), vec!["Local Objects", "System Library", "Favorites"]);
    assert_eq!(tree.lookup(library).unwrap().children, Some(other.clone()));
    assert_eq!(tree.lookup(other[0]).unwrap().parent, Some(library));
    assert_eq!(
        tree.walk_facets_from(other[0]),
        vec![(Facet::Package, "/OTHER/".to_owned())]
    );
}

#[test]
fn every_node_is_listed_by_its_parent() {
    let (tree, path) = tree_with_type_node();
    let mut pending = vec![tree.root()];
    let mut seen = 0;
    while let Some(id) = pending.pop() {
        seen += 1;
        let node = tree.lookup(id).unwrap();
        assert_eq!(node.id, id);
        match node.parent {
            Some(parent) => {
                let listed = tree.lookup(parent).unwrap().children.clone().unwrap();
                assert!(listed.contains(&id));
            }
            None => assert_eq!(id, tree.root()),
        }
        pending.extend(node.children.clone().unwrap_or_default());
    }
    // Root, three groups, and the four nodes of the path below the library.
    assert_eq!(seen, 7);
    assert!(path.iter().all(|id| tree.lookup(*id).is_some()));
}

#[test]
fn repository_objects_do_not_expand() {
    let (mut tree, path) = tree_with_type_node();
    let clas = path[3];
    let objects = tree
        .expand(clas, &vec![answer(vec![], vec![object("ZCL_A", "CLAS/OC", "/sap/bc/adt/oo/classes/zcl_a")])])
        .unwrap();
    assert_eq!(tree.expander(objects[0]), Some(Expander::Static(vec![])));
    let stray = vec![answer(vec![folder(Facet::Type, "X", "X", false)], vec![])];
    let before = tree.lookup(objects[0]).unwrap().clone();
    assert_eq!(tree.expand(objects[0], &stray), Ok(vec![]));
    assert_eq!(tree.expand_outcomes(objects[0], &vec![None]), Ok(vec![]));
    // The node is as it was: it has no list of children, not an empty one.
    assert_eq!(tree.lookup(objects[0]).unwrap(), &before);
    assert_eq!(tree.lookup(objects[0]).unwrap().children, None);
    assert_eq!(tree.lookup(clas).unwrap().children, Some(objects));
}

#[test]
fn sub_packages_and_content_of_a_package_come_from_two_queries() {
    let (mut tree, path) = tree_with_type_node();
    let build = path[1];
    let ids = tree
        .expand_outcomes(
            build,
            &vec![
                Some(answer(vec![folder(Facet::Package, "/BUILD/CORE", "/BUILD/CORE", false)], vec![])),
                Some(answer(vec![folder(Facet::Type, "PROG", "Programs", false)], vec![])),
            ],
        )
        .unwrap();
    assert_eq!(names(&tree, &ids), vec!["/BUILD/CORE", "Programs"]);
    assert_eq!(tree.lookup(build).unwrap().children, Some(ids));
}

#[test]
fn one_failed_query_fails_the_expansion() {
    let (mut tree, path) = tree_with_type_node();
    let (build, core) = (path[1], path[2]);
    let outcomes = vec![
        Some(answer(vec![folder(Facet::Package, "/BUILD/NEW", "/BUILD/NEW", false)], vec![])),
        None,
    ];
    assert_eq!(tree.expand_outcomes(build, &outcomes), Err(TreeError::QueryFailed));
    // The tree is as it was.
    assert_eq!(tree.lookup(build).unwrap().children, Some(vec![core]));
    assert!(tree.lookup(core).is_some());
    assert!(tree.lookup(path[3]).is_some());
    // A node with fixed children asks nothing, so nothing can fail.
    let root = tree.root();
    let groups = tree.expand_outcomes(root, &vec![None]).unwrap();
    assert_eq!(names(&tree, &groups), vec!["Local Objects", "System Library", "Favorites"]);
    assert_eq!(
        tree.expand_outcomes(DefaultKey::default(), &vec![None]),
        Err(TreeError::UnknownNode)
    );
}

#[test]
fn unknown_ids_are_reported() {
    let mut tree = VirtualFileTree::new("A4H".to_owned());
    let unknown = DefaultKey::from(KeyData::from_ffi(0x0000_0007_0000_0063));
    assert_eq!(tree.lookup(unknown), None);
    assert_eq!(tree.expander(unknown), None);
    assert_eq!(tree.expand(unknown, &Vec::new()), Err(TreeError::UnknownNode));
    assert_eq!(tree.try_lookup_all(&vec![tree.root(), unknown]), None);
    let root = tree.root();
    assert_eq!(tree.try_lookup_all(&vec![root]).map(|found| found.len()), Some(1));
    // The failed expansion left the tree as it was.
    assert_eq!(tree.lookup(root).unwrap().children, None);
}

#[test]
fn node_builders() {
    let key = DefaultKey::from(KeyData::from_ffi(0x0000_0001_0000_0001));
    let parent = DefaultKey::from(KeyData::from_ffi(0x0000_0001_0000_0002));
    let data = VirtualNodeData::from(FacetNode::new(Facet::Package, "DEVC/K", "/BUILD/", false));
    let node = VirtualNode::new(key, data.clone());
    assert_eq!(node.id, key);
    assert_eq!(node.parent, None);
    assert_eq!(node.children, None);
    assert_eq!(node.data, data);
    let placed = node.clone().parent(parent);
    assert_eq!(placed.parent, Some(parent));
    assert_eq!(placed.duplicate(), placed);
    match data {
        VirtualNodeData::Facet(facet) => {
            assert_eq!(facet.name, "/BUILD/");
            assert_eq!(facet.value, "DEVC/K");
        }
        _ => unreachable!(),
    }
}

#[test]
fn conversions_into_node_payloads() {
    assert_eq!(
        VirtualNodeData::from(folder(Facet::Owner, "DEVELOPER", "Developer", false)),
        VirtualNodeData::Facet(FacetNode::new(Facet::Owner, "DEVELOPER", "Developer", false))
    );
    assert_eq!(
        VirtualNodeData::from(object("ZPROG", "PROG/P", "/uri")),
        VirtualNodeData::RepositoryObject(RepositoryObjectNode {
            name: "ZPROG".to_owned(),
            object_kind: "PROG/P".to_owned(),
            adt_uri: "/uri".to_owned(),
        })
    );
    assert_eq!(
        VirtualNodeData::from(GroupNode::new(Group::Favorites)),
        VirtualNodeData::Group(GroupNode { name: "Favorites".to_owned(), group: Group::Favorites })
    );
}

#[test]
fn group_display_names() {
    assert_eq!(Group::System("A4H".to_owned()).display_name(), "A4H");
    assert_eq!(Group::LocalObjects.display_name(), "Local Objects");
    assert_eq!(Group::SystemLibrary.display_name(), "System Library");
    assert_eq!(Group::Favorites.display_name(), "Favorites");
    assert_eq!(Group::System("A4H".to_owned()).duplicate(), Group::System("A4H".to_owned()));
}

#[test]
fn outcomes_are_merged_unless_one_failed() {
    let first = answer(vec![folder(Facet::Owner, "A", "A", false)], vec![]);
    let second = answer(vec![], vec![object("ZPROG", "PROG/P", "/uri")]);
    assert_eq!(
        merge_outcomes(&vec![Some(first.clone()), Some(second.clone())]),
        Some(merge_results(&vec![first.clone(), second.clone()]))
    );
    assert_eq!(merge_outcomes(&vec![Some(first), None, Some(second)]), None);
    assert_eq!(merge_outcomes(&Vec::new()), Some(vec![]));
}
