use ragnarok_rebuild_bevy::assets::rsw::quad_tree::{MAX_DEPTH, SIZE};
use ragnarok_rebuild_bevy::assets::rsw::{QuadTree, QuadTreeIndex};

fn collect_indexes<R>(tree: &QuadTree<R>) -> Vec<QuadTreeIndex> {
    let mut iter = tree.iter_indexes();
    let mut nodes = vec![];
    while let Some(node) = iter.next() {
        nodes.push(node);
    }
    nodes
}

#[test]
fn in_order_iteration() {
    let indexes = collect_indexes(&QuadTree::<()>::new(vec![]))
        .iter()
        .map(|node| node.index())
        .collect::<Vec<_>>();
    let expected: [usize; SIZE] = std::array::from_fn(|i| i);
    assert_eq!(&indexes, &expected);
}

#[test]
fn test_parent() {
    let index = QuadTreeIndex::default();
    let bottom_left = index.bottom_left().unwrap();
    let bottom_left_parent = bottom_left.parent().unwrap();
    assert_eq!(bottom_left_parent, index);
    let bottom_right = index.bottom_right().unwrap();
    let bottom_right_parent = bottom_right.parent().unwrap();
    assert_eq!(bottom_right_parent, index);
    let top_left = index.top_left().unwrap();
    let top_left_parent = top_left.parent().unwrap();
    assert_eq!(top_left_parent, index);
    let top_right = index.top_right().unwrap();
    let top_right_parent = top_right.parent().unwrap();
    assert_eq!(top_right_parent, index);
}

#[test]
fn iteration_ends_and_stays_ended() {
    let tree = QuadTree::<()>::new(vec![]);
    let mut iter = tree.iter_indexes();
    for _ in 0..SIZE {
        assert!(iter.next().is_some());
    }
    assert!(iter.next().is_none());
    assert!(iter.next().is_none());
}

#[test]
fn iteration_depths_follow_the_tree() {
    let nodes = collect_indexes(&QuadTree::<()>::new(vec![]));
    assert_eq!(nodes[0].depth(), 0);
    assert_eq!(nodes[1].depth(), 1);
    assert_eq!(nodes[5].depth(), MAX_DEPTH);
    assert!(nodes[5].is_leaf());
    assert_eq!(nodes[342].depth(), 1);
    assert_eq!(nodes.iter().filter(|node| node.is_leaf()).count(), 1024);
    assert_eq!(nodes.iter().filter(|node| node.depth() == 1).count(), 4);
}

#[test]
fn child_positions_follow_pre_order() {
    let root = QuadTreeIndex::default();
    assert_eq!(root.bottom_left().unwrap().index(), 1);
    assert_eq!(root.bottom_right().unwrap().index(), 342);
    assert_eq!(root.top_left().unwrap().index(), 683);
    assert_eq!(root.top_right().unwrap().index(), 1024);
    let deep = root.top_right().unwrap().top_right().unwrap();
    assert_eq!(deep.index(), 1024 + 1 + 3 * 85);
    assert_eq!(deep.depth(), 2);
}

#[test]
fn leaves_have_no_children() {
    let mut node = QuadTreeIndex::default();
    for _ in 0..MAX_DEPTH {
        node = node.bottom_left().unwrap();
    }
    assert!(node.is_leaf());
    assert_eq!(node.index(), 5);
    assert!(node.bottom_left().is_none());
    assert!(node.bottom_right().is_none());
    assert!(node.top_left().is_none());
    assert!(node.top_right().is_none());
}

#[test]
fn parent_of_leaf_returns_to_its_parent() {
    let mut node = QuadTreeIndex::default();
    for _ in 0..MAX_DEPTH - 1 {
        node = node.top_left().unwrap();
    }
    let leaf = node.bottom_right().unwrap();
    assert_eq!(leaf.parent().unwrap(), node);
}

#[test]
fn parent_of_middle_node_reads_last_slot() {
    let first = QuadTreeIndex::default().bottom_left().unwrap();
    let second = first.top_right().unwrap();
    let parent = second.parent().unwrap();
    assert_eq!(parent.index(), 0);
    assert_eq!(parent.depth(), 1);
    assert!(QuadTreeIndex::default().parent().is_none());
}

#[test]
fn ranges_are_read_by_position() {
    let tree = QuadTree::new((0..SIZE).map(|i| i * 10).collect::<Vec<_>>());
    let node = QuadTreeIndex::default().top_left().unwrap();
    assert_eq!(*tree.index(node), 6830);
    assert_eq!(*tree.index(QuadTreeIndex::default()), 0);
    assert_eq!(tree.len(), SIZE);
    assert_eq!(QuadTree::<u8>::new(vec![1, 2, 3]).len(), 3);
}

#[test]
fn iteration_yields_the_addresses_of_the_children() {
    let nodes = collect_indexes(&QuadTree::<()>::new(vec![]));
    let root = QuadTreeIndex::default();
    assert_eq!(nodes[0], root);
    assert_eq!(nodes[1], root.bottom_left().unwrap());
    assert_eq!(nodes[342], root.bottom_right().unwrap());
    assert_eq!(nodes[683], root.top_left().unwrap());
    assert_eq!(nodes[1024], root.top_right().unwrap());
    let deep = root.top_right().unwrap().bottom_right().unwrap().top_left().unwrap();
    assert_eq!(nodes[deep.index()], deep);
}

#[test]
fn walk_counts_four_to_the_depth_nodes_at_each_depth() {
    let nodes = collect_indexes(&QuadTree::<()>::new(vec![]));
    assert_eq!(nodes.len(), SIZE);
    for depth in 0..=MAX_DEPTH {
        let count = nodes.iter().filter(|node| node.depth() == depth).count();
        assert_eq!(count, 4usize.pow(depth as u32));
    }
    let other = collect_indexes(&QuadTree::new((0..SIZE).collect::<Vec<_>>()));
    assert_eq!(nodes, other);
}

#[test]
fn collected_walk_is_the_whole_tree() {
    let walk = QuadTree::<()>::new(vec![]).walk_indexes();
    assert_eq!(walk.len(), SIZE);
    assert_eq!(walk[0], QuadTreeIndex::default());
    for (p, node) in walk.iter().enumerate() {
        assert_eq!(node.index(), p);
    }
    for depth in 0..=MAX_DEPTH {
        assert_eq!(walk.iter().filter(|n| n.depth() == depth).count(), 4usize.pow(depth as u32));
    }
    assert_eq!(walk, QuadTree::new(vec![7u8; 3]).walk_indexes());
    assert_eq!(walk, collect_indexes(&QuadTree::<()>::new(vec![])));
}
