use file_tree::filesystems::basic::BasicFilesystem;
use file_tree::lookups::{FilesystemInsertions, FilesystemLookups, InsertionError, LookupError};
use file_tree::unique_id::{Id, OwnedDataId, RefPathId, TreeNodeId};

fn node_id(fs: &BasicFilesystem, path: &str) -> TreeNodeId {
    let id = fs.get_id_from_path(path).unwrap();
    fs.get_tree_node_id_from_ref_path_id(id).unwrap()
}

#[test]
fn new_backend_holds_nothing() {
    let fs = BasicFilesystem::new(1);
    assert_eq!(fs.tree_id(), 1);
    assert_eq!(fs.node_count(), 0);
    assert_eq!(fs.owned_data_count(), 0);
    assert_eq!(fs.ref_path_count(), 0);
}

#[test]
fn insert_creates_the_path_and_its_ancestors() {
    let mut fs = BasicFilesystem::new(1);
    assert_eq!(fs.insert_path("/a/b/c"), Ok(()));
    // the root of the tree and the three paths below it
    assert_eq!(fs.node_count(), 4);
    assert_eq!(fs.owned_data_count(), 4);
    assert_eq!(fs.ref_path_count(), 4);
    assert_eq!(fs.get_owned_data_from_path("/a/b/c").unwrap(), "/a/b/c");
    assert_eq!(fs.get_owned_data_from_path("/a/b").unwrap(), "/a/b");
    assert_eq!(fs.get_owned_data_from_path("/a").unwrap(), "/a");
    assert_eq!(fs.get_owned_data_from_path("/").unwrap(), "/");
}

#[test]
fn insert_links_each_child_to_its_parent() {
    let mut fs = BasicFilesystem::new(1);
    assert_eq!(fs.insert_path("/a/b/c"), Ok(()));
    let root = node_id(&fs, "/");
    let a = node_id(&fs, "/a");
    let b = node_id(&fs, "/a/b");
    let c = node_id(&fs, "/a/b/c");
    assert_eq!(fs.get_tree_node_from_id(c).unwrap().parent(), b);
    assert_eq!(fs.get_tree_node_from_id(b).unwrap().parent(), a);
    assert_eq!(fs.get_tree_node_from_id(a).unwrap().parent(), root);
    assert!(fs.get_tree_node_from_id(root).unwrap().contains_child(a));
    assert!(fs.get_tree_node_from_id(a).unwrap().contains_child(b));
    assert!(fs.get_tree_node_from_id(b).unwrap().contains_child(c));
    assert!(!fs.get_tree_node_from_id(a).unwrap().contains_child(c));
    assert!(!fs.get_tree_node_from_id(c).unwrap().contains_child(b));
}

#[test]
fn root_is_its_own_parent_and_not_its_own_child() {
    let mut fs = BasicFilesystem::new(1);
    assert_eq!(fs.insert_path("/a"), Ok(()));
    let root = node_id(&fs, "/");
    let node = fs.get_tree_node_from_id(root).unwrap();
    assert_eq!(node.parent(), root);
    assert!(!node.contains_child(root));
}

#[test]
fn ids_are_handed_out_in_order_within_the_tree() {
    let mut fs = BasicFilesystem::new(1);
    assert_eq!(fs.insert_path("/a/b/c"), Ok(()));
    assert_eq!(node_id(&fs, "/"), TreeNodeId(Id::new(1, 0)));
    assert_eq!(node_id(&fs, "/a"), TreeNodeId(Id::new(1, 1)));
    assert_eq!(node_id(&fs, "/a/b"), TreeNodeId(Id::new(1, 2)));
    assert_eq!(node_id(&fs, "/a/b/c"), TreeNodeId(Id::new(1, 3)));
    assert_eq!(fs.get_id_from_path("/a/b"), Ok(RefPathId(Id::new(1, 2))));
    let node = fs.get_tree_node_from_path("/a/b").unwrap();
    assert_eq!(node.owned(), OwnedDataId(Id::new(1, 2)));
    assert_eq!(node.path(), RefPathId(Id::new(1, 2)));
}

#[test]
fn second_leaf_shares_the_ancestors() {
    let mut fs = BasicFilesystem::new(1);
    assert_eq!(fs.insert_path("/a/b/c"), Ok(()));
    let a = node_id(&fs, "/a");
    let b = node_id(&fs, "/a/b");
    assert_eq!(fs.insert_path("/a/b/d"), Ok(()));
    assert_eq!(fs.node_count(), 5);
    assert_eq!(fs.owned_data_count(), 5);
    assert_eq!(fs.ref_path_count(), 5);
    assert_eq!(node_id(&fs, "/a"), a);
    assert_eq!(node_id(&fs, "/a/b"), b);
    let c = node_id(&fs, "/a/b/c");
    let d = node_id(&fs, "/a/b/d");
    assert_ne!(c, d);
    assert_eq!(fs.get_tree_node_from_id(c).unwrap().parent(), b);
    assert_eq!(fs.get_tree_node_from_id(d).unwrap().parent(), b);
    let shared = fs.get_tree_node_from_id(b).unwrap();
    assert!(shared.contains_child(c));
    assert!(shared.contains_child(d));
    let above = fs.get_tree_node_from_id(a).unwrap();
    assert!(above.contains_child(b));
    assert!(!above.contains_child(c));
    assert!(!above.contains_child(d));
}

#[test]
fn inserting_twice_changes_nothing() {
    let mut fs = BasicFilesystem::new(1);
    assert_eq!(fs.insert_path("/a/b/c"), Ok(()));
    let nodes = fs.node_count();
    let buffers = fs.owned_data_count();
    let paths = fs.ref_path_count();
    let id = fs.get_id_from_path("/a/b/c").unwrap();
    let node = node_id(&fs, "/a/b/c");
    assert_eq!(fs.insert_path("/a/b/c"), Ok(()));
    assert_eq!(fs.node_count(), nodes);
    assert_eq!(fs.owned_data_count(), buffers);
    assert_eq!(fs.ref_path_count(), paths);
    assert_eq!(fs.get_id_from_path("/a/b/c"), Ok(id));
    assert_eq!(node_id(&fs, "/a/b/c"), node);
    assert_eq!(fs.get_owned_data_from_path("/a/b/c").unwrap(), "/a/b/c");
}

#[test]
fn inserting_an_ancestor_again_changes_nothing() {
    let mut fs = BasicFilesystem::new(1);
    assert_eq!(fs.insert_path("/a/b/c"), Ok(()));
    assert_eq!(fs.insert_path("/a"), Ok(()));
    assert_eq!(fs.insert_path("/"), Ok(()));
    assert_eq!(fs.node_count(), 4);
    assert_eq!(fs.ref_path_count(), 4);
}

#[test]
fn lookups_from_a_path_and_from_its_ids_agree() {
    let mut fs = BasicFilesystem::new(1);
    assert_eq!(fs.insert_path("/a/b/c"), Ok(()));
    assert_eq!(fs.insert_path("/a/x"), Ok(()));
    for path in ["/", "/a", "/a/b", "/a/b/c", "/a/x"] {
        let id = fs.get_id_from_path(path).unwrap();
        assert_eq!(fs.get_path_from_id(id), Ok(path));
        let node = fs.get_tree_node_id_from_ref_path_id(id).unwrap();
        assert_eq!(fs.get_path_from_tree_node_id(node), Ok(path));
        assert_eq!(fs.get_owned_data_from_tree_node_id(node).unwrap(), path);
        assert_eq!(fs.get_owned_data_from_path(path).unwrap(), path);
        let direct = fs.get_tree_node_from_id(node).unwrap();
        let by_path = fs.get_tree_node_from_path(path).unwrap();
        assert_eq!(direct.parent(), by_path.parent());
        assert_eq!(direct.owned(), by_path.owned());
        assert_eq!(direct.path(), by_path.path());
        assert_eq!(by_path.path(), id);
        assert_eq!(fs.get_owned_data_from_id(by_path.owned()).unwrap(), path);
    }
}

#[test]
fn entries_of_one_tree_have_different_item_ids() {
    let mut fs = BasicFilesystem::new(3);
    assert_eq!(fs.insert_path("/a/b/c"), Ok(()));
    assert_eq!(fs.insert_path("/a/d"), Ok(()));
    let paths = ["/", "/a", "/a/b", "/a/b/c", "/a/d"];
    for first in paths {
        for second in paths {
            let a = fs.get_id_from_path(first).unwrap();
            let b = fs.get_id_from_path(second).unwrap();
            assert_eq!(a.0.get_tree_id(), 3);
            assert_eq!(b.0.get_tree_id(), 3);
            if first != second {
                assert_ne!(a.0.get_item_id(), b.0.get_item_id());
            }
        }
    }
}

#[test]
fn path_without_separator_is_a_root() {
    let mut fs = BasicFilesystem::new(2);
    assert_eq!(fs.insert_path("project/src/main"), Ok(()));
    assert_eq!(fs.node_count(), 3);
    let root = node_id(&fs, "project");
    assert_eq!(root, TreeNodeId(Id::new(2, 0)));
    assert_eq!(fs.get_tree_node_from_id(root).unwrap().parent(), root);
    let src = node_id(&fs, "project/src");
    assert_eq!(fs.get_tree_node_from_id(src).unwrap().parent(), root);
    assert!(fs.get_tree_node_from_id(root).unwrap().contains_child(src));
}

#[test]
fn each_tree_counts_its_own_item_ids() {
    let mut fs = BasicFilesystem::new(1);
    assert_eq!(fs.insert_path("/a"), Ok(()));
    fs.select_tree(2);
    assert_eq!(fs.tree_id(), 2);
    assert_eq!(fs.insert_path("other/b"), Ok(()));
    assert_eq!(node_id(&fs, "/"), TreeNodeId(Id::new(1, 0)));
    assert_eq!(node_id(&fs, "/a"), TreeNodeId(Id::new(1, 1)));
    assert_eq!(node_id(&fs, "other"), TreeNodeId(Id::new(2, 0)));
    assert_eq!(node_id(&fs, "other/b"), TreeNodeId(Id::new(2, 1)));
    assert_eq!(fs.node_count(), 4);
}

#[test]
fn new_entry_joins_the_tree_of_its_parent() {
    let mut fs = BasicFilesystem::new(1);
    assert_eq!(fs.insert_path("/a"), Ok(()));
    fs.select_tree(2);
    assert_eq!(fs.insert_path("/a/b"), Ok(()));
    assert_eq!(node_id(&fs, "/a/b"), TreeNodeId(Id::new(1, 2)));
    fs.select_tree(1);
    assert_eq!(fs.insert_path("/c"), Ok(()));
    assert_eq!(node_id(&fs, "/c"), TreeNodeId(Id::new(1, 3)));
}

#[test]
fn select_tree_keeps_what_is_stored() {
    let mut fs = BasicFilesystem::new(1);
    assert_eq!(fs.insert_path("/a"), Ok(()));
    fs.select_tree(9);
    assert_eq!(fs.node_count(), 2);
    assert_eq!(fs.get_owned_data_from_path("/a").unwrap(), "/a");
    assert_eq!(node_id(&fs, "/a"), TreeNodeId(Id::new(1, 1)));
}

#[test]
fn root_in_a_tree_id_that_does_not_fit_is_refused() {
    let mut fs = BasicFilesystem::new(256);
    assert_eq!(fs.insert_path("/a"), Err(InsertionError::IdsExhausted(256)));
    assert_eq!(fs.node_count(), 0);
    assert_eq!(fs.owned_data_count(), 0);
    assert_eq!(fs.ref_path_count(), 0);
    assert_eq!(
        fs.get_id_from_path("/a"),
        Err(LookupError::RefPathMissingPath(String::from("/a")))
    );
    fs.select_tree(255);
    assert_eq!(fs.insert_path("/a"), Ok(()));
    assert_eq!(node_id(&fs, "/a"), TreeNodeId(Id::new(255, 1)));
}

#[test]
fn insert_new_path_returns_a_node_that_resolves() {
    let mut fs = BasicFilesystem::new(1);
    let node = fs.insert_new_path("/a/b").unwrap();
    assert_eq!(node, TreeNodeId(Id::new(1, 2)));
    assert_eq!(fs.get_path_from_tree_node_id(node), Ok("/a/b"));
    assert_eq!(fs.get_owned_data_from_tree_node_id(node).unwrap(), "/a/b");
    assert_eq!(fs.get_tree_node_from_id(node).unwrap().owned(), OwnedDataId(node.0));
    assert_eq!(fs.get_path_from_id(RefPathId(node.0)), Ok("/a/b"));
    assert_eq!(node_id(&fs, "/a/b"), node);
}

#[test]
fn insert_new_path_refuses_a_known_path() {
    let mut fs = BasicFilesystem::new(1);
    assert_eq!(fs.insert_path("/a/b"), Ok(()));
    assert_eq!(
        fs.insert_new_path("/a/b"),
        Err(InsertionError::PathExists(String::from("/a/b")))
    );
    assert_eq!(
        fs.insert_new_path("/a"),
        Err(InsertionError::PathExists(String::from("/a")))
    );
    assert_eq!(fs.node_count(), 3);
    assert_eq!(fs.owned_data_count(), 3);
    assert_eq!(fs.ref_path_count(), 3);
    assert_eq!(fs.insert_new_path("/a/c"), Ok(TreeNodeId(Id::new(1, 3))));
}

#[test]
fn paths_are_compared_as_text() {
    let mut fs = BasicFilesystem::new(1);
    assert_eq!(fs.insert_path("/a/b"), Ok(()));
    assert_eq!(
        fs.get_id_from_path("/a/b/"),
        Err(LookupError::RefPathMissingPath(String::from("/a/b/")))
    );
    assert_eq!(fs.insert_path("/a/b/"), Ok(()));
    assert_eq!(fs.node_count(), 4);
    let b = node_id(&fs, "/a/b");
    let slash = node_id(&fs, "/a/b/");
    assert_eq!(fs.get_tree_node_from_id(slash).unwrap().parent(), b);
}
