use blrustix::left_threaded_avl_tree::AVLTree;
use blrustix::left_threaded_avl_tree::ScoredIdTreeMock;

#[test]
fn always_works() {
    assert!(true);
}

#[test]
fn basic_adding_works() {
    let mut tree = ScoredIdTreeMock::empty();
    assert!(tree.insert(1));
    assert!(!tree.insert(1));
    assert!(tree.insert(2));
    assert!(!tree.insert(1));
    assert!(tree.insert(3));
    assert_eq!(tree.increment_by_one(2).unwrap(), 1);
    assert_eq!(tree.increment_by_one(2).unwrap(), 2);
    assert_eq!(tree.increment_by_one(2).unwrap(), 3);
    assert_eq!(tree.increment_by_one(1).unwrap(), 1);
    assert!(tree.increment_by_one(0).is_none());
    let out = tree.extract_top(3);
    assert_eq!(tree.ids.len(), 3);
    assert_eq!(tree.scores.len(), 3);
    assert_eq!(out.len(), 3);
    assert_eq!(out[0], 2);
    assert_eq!(out[1], 1);
    assert_eq!(out[2], 3);
}

#[test]
fn basic_removal_works() {
    let mut tree = ScoredIdTreeMock::default();
    tree.insert(1);
    tree.insert(1);
    tree.insert(2);
    tree.insert(1);
    tree.insert(3);
    tree.increment_by_one(2);
    tree.increment_by_one(2);
    tree.increment_by_one(1);
    tree.increment_by_one(1);
    tree.increment_by_one(1);
    tree.increment_by_one(0);
    tree.increment_by_one(1);
    assert_eq!(tree.remove(2).unwrap(), 2);
    assert_eq!(tree.remove(2).is_none(), true);
    assert_eq!(tree.remove(1).unwrap(), 4);
    let out = tree.extract_top(3);
    assert_eq!(tree.ids.len(), 1);
    assert_eq!(tree.scores.len(), 1);
    assert_eq!(out.len(), 1);
}

#[test]
fn last_inserted_id_is_found() {
    let mut tree = ScoredIdTreeMock::empty();
    assert!(tree.insert(7));
    assert_eq!(tree.increment_by_one(7), Some(1));
    assert_eq!(tree.index_of(7), Some(0));
    assert_eq!(tree.score(7), Some(1));
    assert_eq!(tree.remove(7), Some(1));
    assert_eq!(tree.extract_top(5), Vec::<u32>::new());
}

#[test]
fn ties_keep_insertion_order() {
    let mut tree = ScoredIdTreeMock::empty();
    tree.insert(9);
    tree.insert(4);
    tree.insert(6);
    tree.increment_by_one(6);
    assert_eq!(tree.score_sorted_copy(), vec![6, 9, 4]);
    assert_eq!(tree.extract_top(2), vec![6, 9]);
    assert_eq!(tree.extract_top(0), Vec::<u32>::new());
}
