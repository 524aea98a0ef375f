use ray_tracer_lib::bvh::build_index_tree;
use ray_tracer_lib::bvh::IndexTree;
use ray_tracer_lib::bvh::bvh_split_step;

#[test]
fn split_orders_and_takes_the_median() {
    let items = vec![(5u64, 0usize), (1, 1), (3, 2), (2, 3), (4, 4)];
    let (left, right) = bvh_split_step(items);
    assert_eq!(left, vec![(1, 1), (2, 3)]);
    assert_eq!(right, vec![(3, 2), (4, 4), (5, 0)]);
}

#[test]
fn split_of_three_leaves_one_and_two() {
    let items = vec![(5u64, 0usize), (1, 1), (3, 2)];
    let (left, right) = bvh_split_step(items);
    assert_eq!(left, vec![(1, 1)]);
    assert_eq!(right, vec![(3, 2), (5, 0)]);
}

#[test]
fn split_sizes_for_odd_counts() {
    let items = (0..7).map(|i| (7 - i as u64, i)).collect::<Vec<_>>();
    let (left, right) = bvh_split_step(items);
    assert_eq!(left.len(), 3);
    assert_eq!(right.len(), 4);
    assert!(left.iter().all(|&(key, _)| key <= right[0].0));
}

#[test]
fn split_with_equal_keys_keeps_every_item() {
    let items = vec![(2u64, 0usize), (2, 1), (1, 2), (2, 3), (1, 4)];
    let (left, right) = bvh_split_step(items.clone());
    let mut combined = left.clone();
    combined.extend_from_slice(&right);
    let mut expected = items;
    combined.sort();
    expected.sort();
    assert_eq!(combined, expected);
    assert!(left.windows(2).all(|w| w[0].0 <= w[1].0));
    assert!(right.windows(2).all(|w| w[0].0 <= w[1].0));
    assert!(left.last().unwrap().0 <= right.first().unwrap().0);
}

fn collect_leaves(tree: &IndexTree, out: &mut Vec<(u64, usize)>, empty_leaves: &mut usize) {
    match tree {
        IndexTree::Leaf(None) => *empty_leaves += 1,
        IndexTree::Leaf(Some(pair)) => out.push(*pair),
        IndexTree::Node(lower, upper) => {
            collect_leaves(lower, out, empty_leaves);
            collect_leaves(upper, out, empty_leaves);
        }
    }
}

#[test]
fn tree_leaves_are_a_permutation_of_the_input() {
    let items = vec![(5u64, 0usize), (1, 1), (3, 2), (2, 3), (4, 4), (2, 5), (9, 6)];
    let tree = build_index_tree(items.clone());
    let mut leaves = Vec::new();
    let mut empty_leaves: usize = 0;
    collect_leaves(&tree, &mut leaves, &mut empty_leaves);
    assert_eq!(empty_leaves, 0);
    let mut expected = items;
    leaves.sort();
    expected.sort();
    assert_eq!(leaves, expected);
}

#[test]
fn tree_of_nothing_is_an_empty_leaf() {
    let tree = build_index_tree(Vec::new());
    assert!(matches!(tree, IndexTree::Leaf(None)));
}

#[test]
fn tree_of_one_is_a_leaf() {
    let tree = build_index_tree(vec![(8u64, 3usize)]);
    assert!(matches!(tree, IndexTree::Leaf(Some((8, 3)))));
}

#[test]
fn tree_of_two_keeps_the_given_order() {
    let tree = build_index_tree(vec![(9u64, 0usize), (4, 1)]);
    match tree {
        IndexTree::Node(lower, upper) => {
            assert!(matches!(*lower, IndexTree::Leaf(Some((9, 0)))));
            assert!(matches!(*upper, IndexTree::Leaf(Some((4, 1)))));
        }
        _ => panic!("expected an interior node"),
    }
}
