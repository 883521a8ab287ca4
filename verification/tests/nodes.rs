use file_tree::node::{NodeChildInsertError, TreeNode};
use file_tree::unique_id::{Id, OwnedDataId, RefPathId, TreeNodeId};

fn sample() -> TreeNode {
    TreeNode::new(
        TreeNodeId(Id::new(1, 0)),
        OwnedDataId(Id::new(1, 4)),
        RefPathId(Id::new(1, 4)),
    )
}

#[test]
fn accessors_return_what_the_node_was_made_with() {
    let node = sample();
    assert_eq!(node.parent(), TreeNodeId(Id::new(1, 0)));
    assert_eq!(node.owned(), OwnedDataId(Id::new(1, 4)));
    assert_eq!(node.path(), RefPathId(Id::new(1, 4)));
}

#[test]
fn new_node_has_no_children() {
    let node = sample();
    assert!(!node.contains_child(TreeNodeId(Id::new(1, 0))));
    assert!(!node.contains_child(TreeNodeId(Id::new(1, 4))));
    assert!(!node.contains_child(TreeNodeId(Id::new(1, 5))));
}

#[test]
fn first_insert_of_a_child_succeeds() {
    let mut node = sample();
    let child = TreeNodeId(Id::new(1, 5));
    assert_eq!(node.insert_child(child), Ok(()));
    assert!(node.contains_child(child));
    assert!(!node.contains_child(TreeNodeId(Id::new(1, 6))));
}

#[test]
fn second_insert_of_a_child_fails_and_keeps_it() {
    let mut node = sample();
    let child = TreeNodeId(Id::new(1, 5));
    assert_eq!(node.insert_child(child), Ok(()));
    assert_eq!(node.insert_child(child), Err(NodeChildInsertError));
    assert!(node.contains_child(child));
}

#[test]
fn children_are_told_apart() {
    let mut node = sample();
    let first = TreeNodeId(Id::new(1, 5));
    let second = TreeNodeId(Id::new(2, 5));
    assert_eq!(node.insert_child(first), Ok(()));
    assert!(!node.contains_child(second));
    assert_eq!(node.insert_child(second), Ok(()));
    assert!(node.contains_child(first));
    assert!(node.contains_child(second));
    assert_eq!(node.insert_child(first), Err(NodeChildInsertError));
    assert_eq!(node.insert_child(second), Err(NodeChildInsertError));
}

#[test]
fn inserting_a_child_leaves_the_ids_alone() {
    let mut node = sample();
    assert_eq!(node.insert_child(TreeNodeId(Id::new(1, 9))), Ok(()));
    assert_eq!(node.parent(), TreeNodeId(Id::new(1, 0)));
    assert_eq!(node.owned(), OwnedDataId(Id::new(1, 4)));
    assert_eq!(node.path(), RefPathId(Id::new(1, 4)));
}
