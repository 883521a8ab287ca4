use file_tree::unique_id::{Id, OwnedDataId, RefPathId, TreeNodeId, ITEM_LIMIT, TREE_LIMIT};

#[test]
fn new_packs_tree_id_above_item_id() {
    let id = Id::new(1, 5);
    assert_eq!(id.0, 0x0100_0000_0000_0005);
    assert_eq!(id.get_tree_id(), 1);
    assert_eq!(id.get_item_id(), 5);
}

#[test]
fn zero_id_has_zero_fields() {
    let id = Id::new(0, 0);
    assert_eq!(id.0, 0);
    assert_eq!(id.get_tree_id(), 0);
    assert_eq!(id.get_item_id(), 0);
}

#[test]
fn largest_fields_fill_the_value() {
    let id = Id::new(TREE_LIMIT - 1, ITEM_LIMIT - 1);
    assert_eq!(id.0, u64::MAX);
    assert_eq!(id.get_tree_id(), 255);
    assert_eq!(id.get_item_id(), 0x00FF_FFFF_FFFF_FFFF);
}

#[test]
fn fields_read_back_for_values_that_fit() {
    let trees = [0u64, 1, 2, 127, 254, 255];
    let items = [0u64, 1, 2, 0xFFFF, 0x00FF_FFFF_FFFF_FFFE, 0x00FF_FFFF_FFFF_FFFF];
    for tree in trees {
        for item in items {
            let id = Id::new(tree, item);
            assert_eq!(id.get_tree_id(), tree);
            assert_eq!(id.get_item_id(), item);
            assert_eq!(Id::new(id.get_tree_id(), id.get_item_id()), id);
        }
    }
}

#[test]
fn item_id_too_wide_is_cut_to_its_field() {
    let id = Id::new(3, ITEM_LIMIT | 7);
    assert_eq!(id.get_tree_id(), 3);
    assert_eq!(id.get_item_id(), 7);
    assert_eq!(id, Id::new(3, 7));
}

#[test]
fn tree_id_too_wide_is_cut_to_its_field() {
    let id = Id::new(TREE_LIMIT, 9);
    assert_eq!(id.get_tree_id(), 0);
    assert_eq!(id.get_item_id(), 9);
    let id = Id::new(0x1FF, 9);
    assert_eq!(id.get_tree_id(), 0xFF);
    assert_eq!(id.get_item_id(), 9);
}

#[test]
fn tree_id_does_not_leak_into_item_id() {
    let id = Id::new(255, 0);
    assert_eq!(id.0, 0xFF00_0000_0000_0000);
    assert_eq!(id.get_item_id(), 0);
    assert_eq!(id.get_tree_id(), 255);
}

#[test]
fn ids_of_one_tree_differ_in_item_id() {
    let a = Id::new(4, 10);
    let b = Id::new(4, 11);
    assert_ne!(a, b);
    assert_eq!(a.get_tree_id(), b.get_tree_id());
    assert_ne!(a.get_item_id(), b.get_item_id());
}

#[test]
fn same_item_in_two_trees_gives_two_ids() {
    let a = Id::new(1, 10);
    let b = Id::new(2, 10);
    assert_ne!(a, b);
    assert_eq!(a.get_item_id(), b.get_item_id());
}

#[test]
fn typed_ids_compare_by_their_packed_value() {
    let id = Id::new(1, 2);
    assert_eq!(TreeNodeId(id), TreeNodeId(Id::new(1, 2)));
    assert_ne!(TreeNodeId(id), TreeNodeId(Id::new(1, 3)));
    assert_eq!(OwnedDataId(id).0, RefPathId(id).0);
    assert!(TreeNodeId(Id::new(1, 2)) < TreeNodeId(Id::new(1, 3)));
    assert!(OwnedDataId(Id::new(1, 9)) < OwnedDataId(Id::new(2, 0)));
}
